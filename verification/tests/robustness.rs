use flash_parts::chip::ChipProfile;
use flash_parts::executable::ExecutableImage;
use flash_parts::flash::FlashSize;
use flash_parts::image::assemble;
use flash_parts::table::load_partition_table;

struct Lcg(u64);

impl Lcg {
    fn next(&mut self) -> u32 {
        self.0 = self.0.wrapping_mul(6364136223846793005).wrapping_add(1442695040888963407);
        (self.0 >> 33) as u32
    }

    fn below(&mut self, n: usize) -> usize {
        self.next() as usize % n
    }
}

fn sample_elf() -> Vec<u8> {
    let sections: [(u32, u32, usize); 4] =
        [(1, 0x4008_0000, 24), (1, 0x400d_0020, 40), (1, 0x3f40_0020, 12), (8, 0x3ffb_0000, 8)];
    let mut f = vec![0x7f, b'E', b'L', b'F', 1, 1, 1, 0, 0, 0, 0, 0, 0, 0, 0, 0];
    for half in [2u16, 94] {
        f.extend_from_slice(&half.to_le_bytes());
    }
    for word in [1u32, 0x4008_0000, 0, 0, 0] {
        f.extend_from_slice(&word.to_le_bytes());
    }
    for half in [52u16, 32, 0, 40, sections.len() as u16 + 1, 0] {
        f.extend_from_slice(&half.to_le_bytes());
    }
    let mut headers = vec![0u8; 40];
    for (kind, address, size) in sections {
        let offset = f.len() as u32;
        f.extend(std::iter::repeat(0x5A).take(size));
        for word in [0, kind, 6, address, offset, size as u32, 0, 0, 4, 0] {
            headers.extend_from_slice(&word.to_le_bytes());
        }
    }
    let table_offset = f.len() as u32;
    f[32..36].copy_from_slice(&table_offset.to_le_bytes());
    f.extend_from_slice(&headers);
    f
}

fn sample_table() -> Vec<u8> {
    let mut t = Vec::new();
    for (name, kind, subkind, offset, size) in [
        ("nvs", 1u8, 2u8, 0x9000u32, 0x6000u32),
        ("phy_init", 1, 1, 0xf000, 0x1000),
        ("factory", 0, 0, 0x1_0000, 0x10_0000),
        ("storage", 1, 0x82, 0x11_0000, 0x1_0000),
    ] {
        t.extend_from_slice(&[0xAA, 0x50, kind, subkind]);
        t.extend_from_slice(&offset.to_le_bytes());
        t.extend_from_slice(&size.to_le_bytes());
        let mut field = [0u8; 16];
        field[..name.len()].copy_from_slice(name.as_bytes());
        t.extend_from_slice(&field);
        t.extend_from_slice(&[0; 4]);
    }
    t.extend_from_slice(&[0xFF; 32]);
    t
}

const INTERESTING: [u8; 12] = [0, 1, 2, 3, 4, 8, 0x10, 0x40, 0x7f, 0x80, 0xfe, 0xff];

#[test]
fn no_executable_that_is_taken_upsets_the_builder() {
    let good = sample_elf();
    let mut rng = Lcg(7);
    let mut taken = 0;
    for round in 0..600 {
        let mut bytes = good.clone();
        for _ in 0..1 + rng.below(3) {
            let at = if rng.below(4) == 0 { rng.below(52) } else { 52 + rng.below(bytes.len() - 52) };
            bytes[at] = INTERESTING[rng.below(INTERESTING.len())];
        }
        if rng.below(8) == 0 {
            let keep = rng.below(bytes.len());
            bytes.truncate(keep);
        }
        if let Ok(image) = ExecutableImage::parse(bytes) {
            taken += 1;
            let chip = ChipProfile::all()[round % 4];
            let _ = assemble(chip, &image, None, None, FlashSize::Mb4);
        }
    }
    assert!(taken > 50, "{}", taken);
}

#[test]
fn no_table_upsets_the_parser() {
    let good = sample_table();
    let mut rng = Lcg(11);
    let mut taken = 0;
    for _ in 0..3000 {
        let mut bytes = good.clone();
        for _ in 0..1 + rng.below(3) {
            let at = rng.below(bytes.len());
            bytes[at] = INTERESTING[rng.below(INTERESTING.len())];
        }
        if rng.below(8) == 0 {
            let keep = rng.below(bytes.len() + 1);
            bytes.truncate(keep);
        }
        if let Ok(Some(_)) = load_partition_table(Some(bytes), FlashSize::Mb16) {
            taken += 1;
        }
    }
    assert!(taken > 100, "{}", taken);
}

#[test]
fn no_table_that_is_taken_upsets_the_builder() {
    let good = sample_table();
    let image = ExecutableImage::parse(sample_elf()).unwrap();
    let mut rng = Lcg(13);
    let mut built = 0;
    for _ in 0..300 {
        let mut bytes = good.clone();
        let at = rng.below(bytes.len() - 32);
        bytes[at] = INTERESTING[rng.below(INTERESTING.len())];
        if let Ok(Some(table)) = load_partition_table(Some(bytes), FlashSize::Mb4) {
            if assemble(ChipProfile::Esp32c3, &image, None, Some(&table), FlashSize::Mb4).is_ok() {
                built += 1;
            }
        }
    }
    assert!(built > 20, "{}", built);
}

#[test]
fn no_bootloader_that_is_taken_upsets_the_builder() {
    let image = ExecutableImage::parse(sample_elf()).unwrap();
    let mut rng = Lcg(17);
    for len in [32usize, 33, 40, 56, 64, 100, 4096] {
        for _ in 0..20 {
            let mut boot: Vec<u8> = (0..len).map(|_| rng.next() as u8).collect();
            boot[0] = 0xE9;
            let _ = assemble(ChipProfile::Esp32s3, &image, Some(boot), None, FlashSize::Mb4);
        }
    }
}
