//! The manifest that tells the flashing client, for each chip family, which
//! assets to fetch and at which offsets to write them.

use vstd::prelude::*;
use vstd::string::*;
use crate::chip::ChipProfile;
use crate::image::{segment_offsets, ImageSetModel, PartsData};

verus! {

/// Name of the application, as the client shows it.
pub const APPLICATION_NAME: &'static str = "ESP Application";

/// Asset name of the bootloader.
pub const BOOTLOADER_ASSET: &'static str = "bootloader.bin";

/// Asset name of the partition table.
pub const PARTITIONS_ASSET: &'static str = "partitions.bin";

/// Asset name of the application image.
pub const FIRMWARE_ASSET: &'static str = "firmware.bin";

/// One asset of a build: its name and the offset to write it at.
#[derive(Debug)]
pub struct ManifestPart {
    pub path: &'static str,
    pub offset: u32,
}

/// The assets of one chip family.
#[derive(Debug)]
pub struct ManifestBuild {
    pub chip_family: &'static str,
    pub parts: Vec<ManifestPart>,
}

/// The whole manifest.
#[derive(Debug)]
pub struct Manifest {
    pub name: &'static str,
    pub new_install_prompt_erase: bool,
    pub builds: Vec<ManifestBuild>,
}

pub struct PartModel {
    pub path: Seq<char>,
    pub offset: u32,
}

pub struct BuildModel {
    pub chip_family: Seq<char>,
    pub parts: Seq<PartModel>,
}

pub struct ManifestModel {
    pub name: Seq<char>,
    pub new_install_prompt_erase: bool,
    pub builds: Seq<BuildModel>,
}

impl View for ManifestPart {
    type V = PartModel;

    open spec fn view(&self) -> PartModel {
        PartModel { path: self.path@, offset: self.offset }
    }
}

impl View for ManifestBuild {
    type V = BuildModel;

    open spec fn view(&self) -> BuildModel {
        BuildModel {
            chip_family: self.chip_family@,
            parts: self.parts@.map_values(|p: ManifestPart| p@),
        }
    }
}

impl View for Manifest {
    type V = ManifestModel;

    open spec fn view(&self) -> ManifestModel {
        ManifestModel {
            name: self.name@,
            new_install_prompt_erase: self.new_install_prompt_erase,
            builds: self.builds@.map_values(|b: ManifestBuild| b@),
        }
    }
}

/// The asset names, in the order of the segments.
pub open spec fn asset_paths() -> Seq<Seq<char>> {
    seq![BOOTLOADER_ASSET@, PARTITIONS_ASSET@, FIRMWARE_ASSET@]
}

/// The build of a family: its label, and one part for each segment, with
/// the segment's offset.
pub open spec fn build_of(chip: ChipProfile) -> BuildModel {
    BuildModel {
        chip_family: chip.spec_label(),
        parts: Seq::new(
            3,
            |i: int| PartModel { path: asset_paths()[i], offset: segment_offsets(chip)[i] },
        ),
    }
}

/// The families of the manifest, in its order.
pub open spec fn families() -> Seq<ChipProfile> {
    seq![ChipProfile::Esp32, ChipProfile::Esp32c3, ChipProfile::Esp32s2, ChipProfile::Esp32s3]
}

/// The manifest: one build for each family, with the request to erase
/// before a first install.
pub open spec fn manifest_model() -> ManifestModel {
    ManifestModel {
        name: APPLICATION_NAME@,
        new_install_prompt_erase: true,
        builds: families().map_values(|c: ChipProfile| build_of(c)),
    }
}

/// The build of one family.
pub fn build_for(chip: ChipProfile) -> (build: ManifestBuild)
    ensures
        build@ == build_of(chip),
{
    let mut parts: Vec<ManifestPart> = Vec::new();
    parts.push(ManifestPart { path: BOOTLOADER_ASSET, offset: chip.bootloader_offset() });
    parts.push(ManifestPart { path: PARTITIONS_ASSET, offset: chip.partition_table_offset() });
    parts.push(ManifestPart { path: FIRMWARE_ASSET, offset: chip.application_offset() });
    let build = ManifestBuild { chip_family: chip.label(), parts };
    assert(build@.parts =~= build_of(chip).parts);
    build
}

/// The manifest of every supported family.
pub fn manifest() -> (m: Manifest)
    ensures
        m@ == manifest_model(),
{
    let chips = ChipProfile::all();
    let mut builds: Vec<ManifestBuild> = Vec::new();
    let mut i: usize = 0;
    while i < chips.len()
        invariant
            chips@ == families(),
            i <= chips@.len(),
            builds@.len() == i,
            forall|k: int| 0 <= k < i ==> (#[trigger] builds@[k])@ == build_of(chips@[k]),
        decreases chips@.len() - i,
    {
        builds.push(build_for(chips[i]));
        i = i + 1;
    }
    let m = Manifest { name: APPLICATION_NAME, new_install_prompt_erase: true, builds };
    assert(m@.builds =~= manifest_model().builds);
    m
}

/// The manifest and the assembler agree: the build of a family lists
/// exactly three assets, and the offset of each is the offset of the
/// segment that an image set of this family has in its place.
pub proof fn lemma_manifest_matches_segments(set: ImageSetModel)
    ensures
        build_of(set.chip).parts.len() == 3,
        set.segments().len() == 3,
        forall|i: int|
            0 <= i < 3 ==> (#[trigger] build_of(set.chip).parts[i]).offset
                == set.segments()[i].offset,
        forall|i: int| 0 <= i < 3 ==> (#[trigger] build_of(set.chip).parts[i]).path == asset_paths()[i],
{
}

/// The decimal digit of a number below ten.
pub open spec fn digit(d: int) -> char {
    if d == 0 {
        '0'
    } else if d == 1 {
        '1'
    } else if d == 2 {
        '2'
    } else if d == 3 {
        '3'
    } else if d == 4 {
        '4'
    } else if d == 5 {
        '5'
    } else if d == 6 {
        '6'
    } else if d == 7 {
        '7'
    } else if d == 8 {
        '8'
    } else {
        '9'
    }
}

/// A number in decimal, without leading zeros.
pub open spec fn decimal(n: nat) -> Seq<char>
    decreases n,
{
    if n < 10 {
        seq![digit(n as int)]
    } else {
        decimal(n / 10).push(digit((n % 10) as int))
    }
}

/// A text between double quotes, written as it is.
pub open spec fn quoted(s: Seq<char>) -> Seq<char> {
    seq!['"'] + s + seq!['"']
}

/// The items with a comma between each two.
pub open spec fn joined(items: Seq<Seq<char>>) -> Seq<char>
    decreases items.len(),
{
    if items.len() == 0 {
        Seq::empty()
    } else if items.len() == 1 {
        items[0]
    } else {
        joined(items.drop_last()) + seq![','] + items.last()
    }
}

/// One part as a JSON object.
pub open spec fn part_text(p: PartModel) -> Seq<char> {
    "{\"path\":"@ + quoted(p.path) + ",\"offset\":"@ + decimal(p.offset as nat) + "}"@
}

/// One build as a JSON object.
pub open spec fn build_text(b: BuildModel) -> Seq<char> {
    "{\"chipFamily\":"@ + quoted(b.chip_family) + ",\"parts\":["@ + joined(
        b.parts.map_values(|p: PartModel| part_text(p)),
    ) + "]}"@
}

/// The manifest as a JSON document, in the field names that the flashing
/// client reads.
pub open spec fn manifest_text(m: ManifestModel) -> Seq<char> {
    "{\"name\":"@ + quoted(m.name) + ",\"new_install_prompt_erase\":"@ + (if m.new_install_prompt_erase {
        "true"@
    } else {
        "false"@
    }) + ",\"builds\":["@ + joined(m.builds.map_values(|b: BuildModel| build_text(b))) + "]}"@
}

fn digit_text(d: u32) -> (text: &'static str)
    requires
        d < 10,
    ensures
        text@ == seq![digit(d as int)],
{
    proof {
        reveal_strlit("0");
        reveal_strlit("1");
        reveal_strlit("2");
        reveal_strlit("3");
        reveal_strlit("4");
        reveal_strlit("5");
        reveal_strlit("6");
        reveal_strlit("7");
        reveal_strlit("8");
        reveal_strlit("9");
    }
    let text = if d == 0 {
        "0"
    } else if d == 1 {
        "1"
    } else if d == 2 {
        "2"
    } else if d == 3 {
        "3"
    } else if d == 4 {
        "4"
    } else if d == 5 {
        "5"
    } else if d == 6 {
        "6"
    } else if d == 7 {
        "7"
    } else if d == 8 {
        "8"
    } else {
        "9"
    };
    assert(text@ =~= seq![digit(d as int)]);
    text
}

fn append_decimal(out: &mut String, n: u32)
    ensures
        final(out)@ == old(out)@ + decimal(n as nat),
    decreases n,
{
    if n >= 10 {
        append_decimal(out, n / 10);
    }
    out.append(digit_text(n % 10));
    proof {
        if n >= 10 {
            assert(final(out)@ =~= old(out)@ + decimal((n / 10) as nat).push(
                digit((n % 10) as int),
            ));
        } else {
            assert(final(out)@ =~= old(out)@ + seq![digit(n as int)]);
        }
    }
}

fn append_quoted(out: &mut String, text: &str)
    ensures
        final(out)@ == old(out)@ + quoted(text@),
{
    proof {
        reveal_strlit("\"");
    }
    out.append("\"");
    out.append(text);
    out.append("\"");
    assert(final(out)@ =~= old(out)@ + quoted(text@));
}

fn append_part(out: &mut String, part: &ManifestPart)
    ensures
        final(out)@ == old(out)@ + part_text(part@),
{
    out.append("{\"path\":");
    append_quoted(out, part.path);
    out.append(",\"offset\":");
    append_decimal(out, part.offset);
    out.append("}");
    assert(final(out)@ =~= old(out)@ + part_text(part@));
}

proof fn lemma_joined_next(items: Seq<Seq<char>>, i: int)
    requires
        0 <= i < items.len(),
    ensures
        joined(items.subrange(0, i + 1)) == if i == 0 {
            items[0]
        } else {
            joined(items.subrange(0, i)) + seq![','] + items[i]
        },
{
    let next = items.subrange(0, i + 1);
    assert(next.last() == items[i]);
    assert(next.drop_last() =~= items.subrange(0, i));
    assert(next[0] == items[0]);
}

fn append_build(out: &mut String, build: &ManifestBuild)
    ensures
        final(out)@ == old(out)@ + build_text(build@),
{
    let ghost texts = build@.parts.map_values(|p: PartModel| part_text(p));
    out.append("{\"chipFamily\":");
    append_quoted(out, build.chip_family);
    out.append(",\"parts\":[");
    let ghost head = out@;
    let n = build.parts.len();
    let mut i: usize = 0;
    assert(joined(texts.subrange(0, 0)) =~= Seq::<char>::empty());
    while i < n
        invariant
            n == build.parts@.len(),
            i <= n,
            texts == build@.parts.map_values(|p: PartModel| part_text(p)),
            out@ =~= head + joined(texts.subrange(0, i as int)),
        decreases n - i,
    {
        proof {
            lemma_joined_next(texts, i as int);
            reveal_strlit(",");
            assert(texts[i as int] == part_text(build.parts@[i as int]@));
        }
        if i > 0 {
            out.append(",");
        }
        append_part(out, &build.parts[i]);
        i = i + 1;
    }
    out.append("]}");
    assert(texts.subrange(0, n as int) =~= texts);
    assert(final(out)@ =~= old(out)@ + build_text(build@));
}

impl Manifest {
    /// The manifest as a JSON document. Texts are written between quotes as
    /// they are; the names, labels and paths of this library need no more.
    pub fn to_json(&self) -> (json: String)
        ensures
            json@ == manifest_text(self@),
    {
        let ghost texts = self@.builds.map_values(|b: BuildModel| build_text(b));
        let mut out = String::new();
        out.append("{\"name\":");
        append_quoted(&mut out, self.name);
        out.append(",\"new_install_prompt_erase\":");
        if self.new_install_prompt_erase {
            out.append("true");
        } else {
            out.append("false");
        }
        out.append(",\"builds\":[");
        let ghost head = out@;
        let n = self.builds.len();
        let mut i: usize = 0;
        assert(joined(texts.subrange(0, 0)) =~= Seq::<char>::empty());
        while i < n
            invariant
                n == self.builds@.len(),
                i <= n,
                texts == self@.builds.map_values(|b: BuildModel| build_text(b)),
                out@ =~= head + joined(texts.subrange(0, i as int)),
            decreases n - i,
        {
            proof {
                lemma_joined_next(texts, i as int);
                reveal_strlit(",");
                assert(texts[i as int] == build_text(self.builds@[i as int]@));
            }
            if i > 0 {
                out.append(",");
            }
            append_build(&mut out, &self.builds[i]);
            i = i + 1;
        }
        out.append("]}");
        assert(texts.subrange(0, n as int) =~= texts);
        assert(out@ =~= manifest_text(self@));
        out
    }
}

fn same_text(a: &str, b: &str) -> (r: bool)
    ensures
        r == (a@ == b@),
{
    let x = a.to_owned();
    let y = b.to_owned();
    x == y
}

impl PartsData {
    /// The payload that the manifest lists under the given asset name.
    pub fn asset(&self, path: &str) -> (payload: Option<&Vec<u8>>)
        ensures
            payload == if path@ == BOOTLOADER_ASSET@ {
                Some(&self.bootloader)
            } else if path@ == PARTITIONS_ASSET@ {
                Some(&self.partitions)
            } else if path@ == FIRMWARE_ASSET@ {
                Some(&self.firmware)
            } else {
                None
            },
    {
        if same_text(path, BOOTLOADER_ASSET) {
            Some(&self.bootloader)
        } else if same_text(path, PARTITIONS_ASSET) {
            Some(&self.partitions)
        } else if same_text(path, FIRMWARE_ASSET) {
            Some(&self.firmware)
        } else {
            None
        }
    }
}

} // verus!
