//! The WAD archive: a directory of named lumps.
use vstd::prelude::*;
use std::collections::VecDeque;
use vstd::utf8::{valid_utf8, decode_utf8};
use crate::bytes::{bytes_start_with, le_i32, read_i32_le};
use crate::wad::demo::{Demo, DemoError, DemoHeader, DemoTic, spec_demo};
use crate::wad::map::{GameMap, MapError, MapThing, read_map_things, spec_map, spec_map_data};
use crate::wad::patch::Patch;
use crate::wad::sound::{Sound, SoundError, spec_sound};

verus! {

/// One entry of the archive's directory (16 bytes): where its lump lies in the
/// file, how long it is, and its name padded with NULs to 8 bytes.
#[derive(Clone, Copy, Debug, PartialEq, Eq)]
pub struct LumpInfo {
    pub file_position: i32,
    pub size: i32,
    pub name: [u8; 8],
}

/// The directory entry stored in the 16 bytes at `at`.
pub open spec fn spec_lump_info_at(s: Seq<u8>, at: int) -> LumpInfo {
    LumpInfo {
        file_position: le_i32(s, at) as i32,
        size: le_i32(s, at + 4) as i32,
        name: [
            s[at + 8],
            s[at + 9],
            s[at + 10],
            s[at + 11],
            s[at + 12],
            s[at + 13],
            s[at + 14],
            s[at + 15],
        ],
    }
}

/// The bytes of the lump `info` describes, unless its position or size is
/// negative or it runs past the end of the file.
pub open spec fn spec_lump_data(file: Seq<u8>, info: LumpInfo) -> Option<Seq<u8>> {
    if info.file_position < 0 || info.size < 0 || info.file_position + info.size > file.len() {
        None
    } else {
        Some(file.subrange(info.file_position as int, info.file_position + info.size))
    }
}

impl LumpInfo {
    /// Decodes the directory entry stored in the 16 bytes at `at`.
    pub fn from_bytes(bytes: &[u8], at: usize) -> (r: LumpInfo)
        requires
            at + 16 <= bytes@.len(),
        ensures
            r == spec_lump_info_at(bytes@, at as int),
    {
        // The record ends inside the slice, whose length is a usize.
        let len = bytes.len();
        assert(at + 16 <= len);
        LumpInfo {
            file_position: read_i32_le(bytes, at),
            size: read_i32_le(bytes, at + 4),
            name: [
                bytes[at + 8],
                bytes[at + 9],
                bytes[at + 10],
                bytes[at + 11],
                bytes[at + 12],
                bytes[at + 13],
                bytes[at + 14],
                bytes[at + 15],
            ],
        }
    }
}


/// A lump of the archive, decoded according to its name.
#[derive(Debug)]
pub enum Lump {
    ColorMap(Vec<[u8; 256]>),
    Demo(Demo),
    GameMap(GameMap),
    Music(Vec<u8>),
    Palette(Vec<[[u8; 3]; 256]>),
    Patch(Patch),
    Sound(Sound),
    SoundPCSpeaker,
    Ignored,
    Unknown,
}

/// What a [`Lump`] holds. Color maps and palettes are seen as the bytes they
/// were read from; a music lump is its raw MUS bytes.
pub enum LumpModel {
    ColorMap(Seq<u8>),
    Demo(DemoHeader, Seq<DemoTic>),
    GameMap(Seq<MapThing>),
    Music(Seq<u8>),
    Palette(Seq<u8>),
    Patch(u32, u32, Seq<u16>),
    Sound(u32, Seq<u8>),
    SoundPCSpeaker,
    Ignored,
    Unknown,
}

/// The bytes of a list of palettes, palette after palette, color after color.
pub open spec fn flatten_palettes(v: Seq<[[u8; 3]; 256]>) -> Seq<u8> {
    Seq::new(v.len() * 768, |x: int| v[x / 768]@[(x % 768) / 3]@[x % 3])
}

/// The bytes of a list of color maps, map after map.
pub open spec fn flatten_colormaps(v: Seq<[u8; 256]>) -> Seq<u8> {
    Seq::new(v.len() * 256, |x: int| v[x / 256]@[x % 256])
}

impl View for Lump {
    type V = LumpModel;

    open spec fn view(&self) -> LumpModel {
        match self {
            Lump::ColorMap(v) => LumpModel::ColorMap(flatten_colormaps(v@)),
            Lump::Demo(d) => LumpModel::Demo(d@.0, d@.1),
            Lump::GameMap(m) => LumpModel::GameMap(m.things@),
            Lump::Music(v) => LumpModel::Music(v@),
            Lump::Palette(v) => LumpModel::Palette(flatten_palettes(v@)),
            Lump::Patch(p) => LumpModel::Patch(p.width, p.height, p.indices@),
            Lump::Sound(s) => LumpModel::Sound(s.sample_rate, s.samples@),
            Lump::SoundPCSpeaker => LumpModel::SoundPCSpeaker,
            Lump::Ignored => LumpModel::Ignored,
            Lump::Unknown => LumpModel::Unknown,
        }
    }
}

/// Why an archive, or a lump asked of it, could not be read.
#[derive(Clone, Copy, Debug, PartialEq, Eq)]
pub enum WadError {
    /// The file ends inside its 12-byte header.
    TooShort,
    /// Bytes 1 to 3 of the file are not `WAD`.
    NotWad,
    /// The header's lump count is negative.
    NegativeLumpCount,
    /// The directory's offset is negative or past the file, or the directory
    /// (which runs to the end of the file) is not a whole number of entries.
    BadInfoTable,
    /// A lump's name is not valid UTF-8.
    BadLumpName,
    /// A lump's position or size is negative or it runs past the file.
    LumpOutOfBounds,
    /// The palette lump is not a whole number of 768-byte palettes.
    BadPalette,
    /// The color map lump is not a whole number of 256-byte maps.
    BadColorMap,
    Demo(DemoError),
    Sound(SoundError),
    GameMap(MapError),
    /// No lump has the name asked for.
    MissingLump,
    /// The lump asked for is of another kind.
    WrongLumpKind,
}

pub open spec fn endoom_name() -> Seq<u8> {
    seq![0x45u8, 0x4Eu8, 0x44u8, 0x4Fu8, 0x4Fu8, 0x4Du8, 0u8, 0u8]
}

pub open spec fn dmxgus_name() -> Seq<u8> {
    seq![0x44u8, 0x4Du8, 0x58u8, 0x47u8, 0x55u8, 0x53u8, 0u8, 0u8]
}

pub open spec fn genmidi_name() -> Seq<u8> {
    seq![0x47u8, 0x45u8, 0x4Eu8, 0x4Du8, 0x49u8, 0x44u8, 0x49u8, 0u8]
}

pub open spec fn playpal_name() -> Seq<u8> {
    seq![0x50u8, 0x4Cu8, 0x41u8, 0x59u8, 0x50u8, 0x41u8, 0x4Cu8, 0u8]
}

pub open spec fn colormap_name() -> Seq<u8> {
    seq![0x43u8, 0x4Fu8, 0x4Cu8, 0x4Fu8, 0x52u8, 0x4Du8, 0x41u8, 0x50u8]
}

/// Names are prefixed by these bytes: `DEMO`, `DS`, `DP`, `D_`.
pub open spec fn demo_prefix() -> Seq<u8> {
    seq![0x44u8, 0x45u8, 0x4Du8, 0x4Fu8]
}

pub open spec fn sound_prefix() -> Seq<u8> {
    seq![0x44u8, 0x53u8]
}

pub open spec fn pc_speaker_prefix() -> Seq<u8> {
    seq![0x44u8, 0x50u8]
}

pub open spec fn music_prefix() -> Seq<u8> {
    seq![0x44u8, 0x5Fu8]
}

/// Decodes the lump `info` describes, by its name: the ENDOOM, DMXGUS and
/// GENMIDI lumps are ignored (and not looked at); otherwise the lump must lie
/// in the file, and PLAYPAL holds palettes, COLORMAP color maps, names
/// beginning with DEMO demos, DS sounds, DP PC-speaker sounds (not kept), D_
/// music; anything else is unknown.
pub open spec fn spec_parse_lump(file: Seq<u8>, info: LumpInfo) -> Result<LumpModel, WadError> {
    let name = info.name@;
    if name == endoom_name() || name == dmxgus_name() || name == genmidi_name() {
        Ok(LumpModel::Ignored)
    } else {
        match spec_lump_data(file, info) {
            None => Err(WadError::LumpOutOfBounds),
            Some(data) => if name == playpal_name() {
                if data.len() % 768 != 0 {
                    Err(WadError::BadPalette)
                } else {
                    Ok(LumpModel::Palette(data))
                }
            } else if name == colormap_name() {
                if data.len() % 256 != 0 {
                    Err(WadError::BadColorMap)
                } else {
                    Ok(LumpModel::ColorMap(data))
                }
            } else if demo_prefix().is_prefix_of(name) {
                match spec_demo(data) {
                    Err(e) => Err(WadError::Demo(e)),
                    Ok((header, tics)) => Ok(LumpModel::Demo(header, tics)),
                }
            } else if sound_prefix().is_prefix_of(name) {
                match spec_sound(data) {
                    Err(e) => Err(WadError::Sound(e)),
                    Ok((rate, samples)) => Ok(LumpModel::Sound(rate, samples)),
                }
            } else if pc_speaker_prefix().is_prefix_of(name) {
                Ok(LumpModel::SoundPCSpeaker)
            } else if music_prefix().is_prefix_of(name) {
                Ok(LumpModel::Music(data))
            } else {
                Ok(LumpModel::Unknown)
            },
        }
    }
}

/// Calls `bytemuck::cast_slice` to view bytes as 768-byte palettes of 256
/// RGB colors, and copies them: byte `x` is component `x % 3` of color
/// `(x % 768) / 3` of palette `x / 768`. `cast_slice` panics when the bytes
/// are not a whole number of palettes, which `requires` rules out; the element
/// type has alignment 1, so no alignment failure is possible.
#[verifier::external_body]
fn cast_palettes(data: &[u8]) -> (r: Vec<[[u8; 3]; 256]>)
    requires
        data@.len() % 768 == 0,
    ensures
        r@.len() * 768 == data@.len(),
        forall|x: int|
            0 <= x < data@.len() ==> r@[x / 768]@[(x % 768) / 3]@[x % 3] == #[trigger] data@[x],
{
    bytemuck::cast_slice::<u8, [[u8; 3]; 256]>(data).to_vec()
}

/// Calls `bytemuck::cast_slice` to view bytes as 256-byte color maps, and
/// copies them: byte `x` is entry `x % 256` of map `x / 256`. `cast_slice`
/// panics when the bytes are not a whole number of maps, which `requires`
/// rules out; the element type has alignment 1.
#[verifier::external_body]
fn cast_colormaps(data: &[u8]) -> (r: Vec<[u8; 256]>)
    requires
        data@.len() % 256 == 0,
    ensures
        r@.len() * 256 == data@.len(),
        forall|x: int| 0 <= x < data@.len() ==> r@[x / 256]@[x % 256] == #[trigger] data@[x],
{
    bytemuck::cast_slice::<u8, [u8; 256]>(data).to_vec()
}

/// Reads palettes from a PLAYPAL lump's bytes.
pub fn read_palette(data: &[u8]) -> (r: Lump)
    requires
        data@.len() % 768 == 0,
    ensures
        r@ == LumpModel::Palette(data@),
{
    let palettes = cast_palettes(data);
    assert(flatten_palettes(palettes@) =~= data@);
    Lump::Palette(palettes)
}

/// Reads color maps from a COLORMAP lump's bytes.
pub fn read_colormap(data: &[u8]) -> (r: Lump)
    requires
        data@.len() % 256 == 0,
    ensures
        r@ == LumpModel::ColorMap(data@),
{
    let maps = cast_colormaps(data);
    assert(flatten_colormaps(maps@) =~= data@);
    Lump::ColorMap(maps)
}

/// Whether the 8-byte name is exactly `expected`.
fn name_is(name: &[u8; 8], expected: &[u8; 8]) -> (r: bool)
    ensures
        r == (name@ == expected@),
{
    let r = bytes_start_with(name, expected);
    proof {
        if r {
            assert(name@ =~= expected@);
        }
    }
    r
}

/// Decodes the lump `info` describes (see [`spec_parse_lump`]).
pub fn parse_lump(file: &[u8], info: &LumpInfo) -> (r: Result<Lump, WadError>)
    ensures
        match spec_parse_lump(file@, *info) {
            Err(e) => r == Err::<Lump, WadError>(e),
            Ok(model) => r matches Ok(lump) && lump@ == model,
        },
{
    let endoom: [u8; 8] = [0x45, 0x4E, 0x44, 0x4F, 0x4F, 0x4D, 0, 0];
    let dmxgus: [u8; 8] = [0x44, 0x4D, 0x58, 0x47, 0x55, 0x53, 0, 0];
    let genmidi: [u8; 8] = [0x47, 0x45, 0x4E, 0x4D, 0x49, 0x44, 0x49, 0];
    let playpal: [u8; 8] = [0x50, 0x4C, 0x41, 0x59, 0x50, 0x41, 0x4C, 0];
    let colormap: [u8; 8] = [0x43, 0x4F, 0x4C, 0x4F, 0x52, 0x4D, 0x41, 0x50];
    let demo: [u8; 4] = [0x44, 0x45, 0x4D, 0x4F];
    let sound: [u8; 2] = [0x44, 0x53];
    let pc_speaker: [u8; 2] = [0x44, 0x50];
    let music: [u8; 2] = [0x44, 0x5F];
    proof {
        assert(endoom@ =~= endoom_name());
        assert(dmxgus@ =~= dmxgus_name());
        assert(genmidi@ =~= genmidi_name());
        assert(playpal@ =~= playpal_name());
        assert(colormap@ =~= colormap_name());
        assert(demo@ =~= demo_prefix());
        assert(sound@ =~= sound_prefix());
        assert(pc_speaker@ =~= pc_speaker_prefix());
        assert(music@ =~= music_prefix());
    }
    if name_is(&info.name, &endoom) || name_is(&info.name, &dmxgus) || name_is(
        &info.name,
        &genmidi,
    ) {
        return Ok(Lump::Ignored);
    }
    let n = file.len();
    if info.file_position < 0 || info.size < 0 {
        return Err(WadError::LumpOutOfBounds);
    }
    let file_position = info.file_position as usize;
    let size = info.size as usize;
    if file_position > n || size > n - file_position {
        return Err(WadError::LumpOutOfBounds);
    }
    let data = vstd::slice::slice_to_vec(
        vstd::slice::slice_subrange(file, file_position, file_position + size),
    );
    if name_is(&info.name, &playpal) {
        if data.len() % 768 != 0 {
            return Err(WadError::BadPalette);
        }
        return Ok(read_palette(data.as_slice()));
    }
    if name_is(&info.name, &colormap) {
        if data.len() % 256 != 0 {
            return Err(WadError::BadColorMap);
        }
        return Ok(read_colormap(data.as_slice()));
    }
    if bytes_start_with(&info.name, &demo) {
        return match Demo::new(data.as_slice()) {
            Ok(d) => Ok(Lump::Demo(d)),
            Err(e) => Err(WadError::Demo(e)),
        };
    }
    if bytes_start_with(&info.name, &sound) {
        return match Sound::decode(data.as_slice()) {
            Ok(s) => Ok(Lump::Sound(s)),
            Err(e) => Err(WadError::Sound(e)),
        };
    }
    if bytes_start_with(&info.name, &pc_speaker) {
        return Ok(Lump::SoundPCSpeaker);
    }
    if bytes_start_with(&info.name, &music) {
        return Ok(Lump::Music(data));
    }
    Ok(Lump::Unknown)
}


/// What `regex::Regex::new(pattern)` followed by `is_match(haystack)` gives:
/// `None` when the pattern is not a valid regular expression, otherwise
/// whether the pattern matches somewhere in `haystack`.
pub uninterp spec fn regex_match(pattern: Seq<char>, haystack: Seq<char>) -> Option<bool>;

/// Calls `regex::Regex::new` on `pattern` and, when it builds, `is_match` on
/// `haystack`. Both depend on their arguments alone; the result is named, not
/// stated, as regular-expression matching (with Unicode classes such as `\d`)
/// takes far more than a few lines to write down.
#[verifier::external_body]
fn regex_is_match(pattern: &str, haystack: &str) -> (r: Option<bool>)
    ensures
        r == regex_match(pattern@, haystack@),
{
    match regex::Regex::new(pattern) {
        Ok(re) => Some(re.is_match(haystack)),
        Err(_) => None,
    }
}

/// Whether `name` is a map marker such as `MAP01` or `E1M1` (digits are
/// Unicode decimal digits).
pub open spec fn map_marker_match(name: Seq<char>) -> bool {
    regex_match("^(?:MAP\\d\\d|E\\dM\\d)$"@, name) == Some(true)
}

/// Whether `name` is a map marker (see [`map_marker_match`]).
fn is_map_name(name: &str) -> (r: bool)
    ensures
        r == map_marker_match(name@),
{
    match regex_is_match("^(?:MAP\\d\\d|E\\dM\\d)$", name) {
        Some(found) => found,
        None => false,
    }
}

/// Calls `String::from_utf8`: it succeeds exactly when the bytes are valid
/// UTF-8, and then holds the characters they encode.
#[verifier::external_body]
fn string_from_utf8(bytes: Vec<u8>) -> (r: Option<String>)
    ensures
        r is Some <==> valid_utf8(bytes@),
        r matches Some(s) ==> s@ == decode_utf8(bytes@),
{
    String::from_utf8(bytes).ok()
}

/// Calls `str::starts_with` with a string pattern: whether `prefix` is the
/// beginning of `s`.
#[verifier::external_body]
fn str_starts_with(s: &str, prefix: &str) -> (r: bool)
    ensures
        r == prefix@.is_prefix_of(s@),
{
    s.starts_with(prefix)
}

/// The header of an archive: bytes 1 to 3 read `WAD` (as in IWAD and PWAD),
/// then come the lump count and the directory's offset (32-bit little-endian,
/// at bytes 4 and 8). The directory runs from its offset to the end of the
/// file. Gives the directory's offset.
pub open spec fn spec_wad_header(file: Seq<u8>) -> Result<int, WadError> {
    if file.len() < 4 {
        Err(WadError::TooShort)
    } else if !(file[1] == 0x57 && file[2] == 0x41 && file[3] == 0x44) {
        Err(WadError::NotWad)
    } else if file.len() < 12 {
        Err(WadError::TooShort)
    } else if le_i32(file, 4) < 0 {
        Err(WadError::NegativeLumpCount)
    } else if le_i32(file, 8) < 0 || le_i32(file, 8) > file.len() || (file.len() - le_i32(file, 8))
        % 16 != 0 {
        Err(WadError::BadInfoTable)
    } else {
        Ok(le_i32(file, 8))
    }
}

/// The directory entries from `offset` to the end of the file.
pub open spec fn spec_directory(file: Seq<u8>, offset: int) -> Seq<LumpInfo> {
    Seq::new(((file.len() - offset) / 16) as nat, |i: int| spec_lump_info_at(file, offset + 16 * i))
}

/// Reads the lumps of the directory entries `infos` in order, after the names
/// and lumps read so far. An entry whose name was already read is skipped. A
/// map marker (see [`map_marker_match`]) takes the next entry with it as its
/// THINGS lump.
pub open spec fn spec_load_lumps(
    file: Seq<u8>,
    infos: Seq<LumpInfo>,
    names: Seq<Seq<char>>,
    lumps: Seq<LumpModel>,
) -> Result<(Seq<Seq<char>>, Seq<LumpModel>), WadError>
    decreases infos.len(),
{
    if infos.len() == 0 {
        Ok((names, lumps))
    } else {
        let info = infos[0];
        let rest = infos.subrange(1, infos.len() as int);
        if !valid_utf8(info.name@) {
            Err(WadError::BadLumpName)
        } else {
            let name = decode_utf8(info.name@);
            if names.contains(name) {
                spec_load_lumps(file, rest, names, lumps)
            } else if map_marker_match(name) {
                if rest.len() == 0 {
                    Err(WadError::GameMap(MapError::MissingLump))
                } else {
                    match spec_map(file, rest) {
                        Err(e) => Err(WadError::GameMap(e)),
                        Ok(things) => spec_load_lumps(
                            file,
                            rest.subrange(1, rest.len() as int),
                            names.push(name),
                            lumps.push(LumpModel::GameMap(things)),
                        ),
                    }
                }
            } else {
                match spec_parse_lump(file, info) {
                    Err(e) => Err(e),
                    Ok(lump) => spec_load_lumps(file, rest, names.push(name), lumps.push(lump)),
                }
            }
        }
    }
}

/// The names and lumps of the archive in `file`.
pub open spec fn spec_wad(file: Seq<u8>) -> Result<(Seq<Seq<char>>, Seq<LumpModel>), WadError> {
    match spec_wad_header(file) {
        Err(e) => Err(e),
        Ok(offset) => spec_load_lumps(file, spec_directory(file, offset), seq![], seq![]),
    }
}

/// No name occurs twice.
pub open spec fn names_distinct(names: Seq<Seq<char>>) -> bool {
    forall|i: int, j: int| 0 <= i < j < names.len() ==> names[i] != names[j]
}

/// The first name that is `target` (or, when `prefix`, begins with it).
pub open spec fn name_matches(name: Seq<char>, target: Seq<char>, prefix: bool) -> bool {
    if prefix {
        target.is_prefix_of(name)
    } else {
        name == target
    }
}

/// The position of the first name that matches `target` (see [`name_matches`]).
pub open spec fn spec_first_match(names: Seq<Seq<char>>, target: Seq<char>, prefix: bool) -> Option<
    int,
>
    decreases names.len(),
{
    if names.len() == 0 {
        None
    } else {
        match spec_first_match(names.drop_last(), target, prefix) {
            Some(i) => Some(i),
            None => if name_matches(names.last(), target, prefix) {
                Some(names.len() - 1)
            } else {
                None
            },
        }
    }
}

/// The characters of `PLAYPAL` followed by a NUL.
pub open spec fn playpal_chars() -> Seq<char> {
    seq!['P', 'L', 'A', 'Y', 'P', 'A', 'L', '\0']
}

/// The characters of `COLORMAP`.
pub open spec fn colormap_chars() -> Seq<char> {
    seq!['C', 'O', 'L', 'O', 'R', 'M', 'A', 'P']
}

/// Once a prefix of the names holds no match and the next name matches, that
/// name's position is the first match.
proof fn lemma_first_match_prefix(names: Seq<Seq<char>>, target: Seq<char>, prefix: bool, k: int)
    requires
        0 < k <= names.len(),
        spec_first_match(names.subrange(0, k - 1), target, prefix) is None,
        name_matches(names[k - 1], target, prefix),
    ensures
        spec_first_match(names, target, prefix) == Some(k - 1),
    decreases names.len() - k,
{
    assert(names.subrange(0, k).drop_last() =~= names.subrange(0, k - 1));
    if k < names.len() {
        lemma_first_match_prefix_extend(names, target, prefix, k);
    } else {
        assert(names.subrange(0, k) =~= names);
    }
}

/// A match found in a prefix stays the first match of the whole list.
proof fn lemma_first_match_prefix_extend(names: Seq<Seq<char>>, target: Seq<char>, prefix: bool, k: int)
    requires
        0 < k <= names.len(),
        spec_first_match(names.subrange(0, k), target, prefix) == Some(k - 1),
    ensures
        spec_first_match(names, target, prefix) == Some(k - 1),
    decreases names.len(),
{
    if k == names.len() {
        assert(names.subrange(0, k) =~= names);
    } else {
        let shorter = names.drop_last();
        assert(shorter.subrange(0, k) =~= names.subrange(0, k));
        lemma_first_match_prefix_extend(shorter, target, prefix, k);
    }
}

/// An archive: its lumps and their names, in directory order.
#[derive(Debug)]
pub struct Wad {
    lumps: Vec<Lump>,
    lump_names: Vec<String>,
}

impl View for Wad {
    type V = (Seq<Seq<char>>, Seq<LumpModel>);

    closed spec fn view(&self) -> (Seq<Seq<char>>, Seq<LumpModel>) {
        (self.lump_names@.map_values(|s: String| s@), self.lumps@.map_values(|l: Lump| l@))
    }
}

/// An archive has one name per lump, and no name twice.
pub open spec fn wad_wf(names: Seq<Seq<char>>, lumps: Seq<LumpModel>) -> bool {
    names.len() == lumps.len() && names_distinct(names)
}

/// Whether `name` is one of `names`.
fn name_listed(names: &Vec<String>, name: &String) -> (r: bool)
    ensures
        r == names@.map_values(|s: String| s@).contains(name@),
{
    let ghost view = names@.map_values(|s: String| s@);
    let mut i: usize = 0;
    while i < names.len()
        invariant
            i <= names@.len(),
            view == names@.map_values(|s: String| s@),
            forall|j: int| 0 <= j < i ==> view[j] != name@,
        decreases names@.len() - i,
    {
        if names[i] == *name {
            assert(view[i as int] == name@);
            return true;
        }
        i = i + 1;
    }
    false
}


impl Wad {
    #[verifier::type_invariant]
    spec fn wf(self) -> bool {
        wad_wf(self@.0, self@.1)
    }

    /// Reads an archive from the bytes of a WAD file, which must be a valid
    /// one (see [`Wad::parse`] to check a file).
    pub fn load(file: &[u8]) -> (r: Wad)
        requires
            spec_wad(file@) is Ok,
        ensures
            spec_wad(file@) == Ok::<(Seq<Seq<char>>, Seq<LumpModel>), WadError>(r@),
    {
        Self::parse(file).unwrap()
    }

    /// Reads an archive from the bytes of a WAD file (see [`spec_wad`]), or
    /// says why it is not a valid one.
    pub fn parse(file: &[u8]) -> (r: Result<Wad, WadError>)
        ensures
            match spec_wad(file@) {
                Err(e) => r == Err::<Wad, WadError>(e),
                Ok(v) => r matches Ok(w) && w@ == v,
            },
    {
        let n = file.len();
        if n < 4 {
            return Err(WadError::TooShort);
        }
        if !(file[1] == 0x57 && file[2] == 0x41 && file[3] == 0x44) {
            return Err(WadError::NotWad);
        }
        if n < 12 {
            return Err(WadError::TooShort);
        }
        let num_lumps = read_i32_le(file, 4);
        if num_lumps < 0 {
            return Err(WadError::NegativeLumpCount);
        }
        let info_table_offset = read_i32_le(file, 8);
        if info_table_offset < 0 || info_table_offset as usize > n || (n
            - info_table_offset as usize) % 16 != 0 {
            return Err(WadError::BadInfoTable);
        }
        let offset = info_table_offset as usize;
        let count = (n - offset) / 16;
        let ghost directory = spec_directory(file@, offset as int);
        let mut all_lump_info: VecDeque<LumpInfo> = VecDeque::new();
        let mut i: usize = 0;
        while i < count
            invariant
                n == file@.len(),
                offset <= n,
                (n - offset) % 16 == 0,
                count == (n - offset) / 16,
                directory == spec_directory(file@, offset as int),
                i <= count,
                all_lump_info@ == directory.subrange(0, i as int),
            decreases count - i,
        {
            let info = LumpInfo::from_bytes(file, offset + 16 * i);
            all_lump_info.push_back(info);
            i = i + 1;
        }
        assert(all_lump_info@ =~= directory);
        let mut lump_names: Vec<String> = Vec::new();
        let mut lumps: Vec<Lump> = Vec::new();
        assert(lump_names@.map_values(|s: String| s@) =~= Seq::<Seq<char>>::empty());
        assert(lumps@.map_values(|l: Lump| l@) =~= Seq::<LumpModel>::empty());
        loop
            invariant
                spec_wad(file@) == spec_load_lumps(
                    file@,
                    all_lump_info@,
                    lump_names@.map_values(|s: String| s@),
                    lumps@.map_values(|l: Lump| l@),
                ),
                wad_wf(lump_names@.map_values(|s: String| s@), lumps@.map_values(|l: Lump| l@)),
            decreases all_lump_info@.len(),
        {
            let ghost names_before = lump_names@.map_values(|s: String| s@);
            let ghost lumps_before = lumps@.map_values(|l: Lump| l@);
            let info = match all_lump_info.pop_front() {
                Some(info) => info,
                None => {
                    let wad = Wad { lumps, lump_names };
                    return Ok(wad);
                },
            };
            let name_bytes = vstd::slice::slice_to_vec(&info.name);
            let lump_name = match string_from_utf8(name_bytes) {
                Some(s) => s,
                None => return Err(WadError::BadLumpName),
            };
            if name_listed(&lump_names, &lump_name) {
                continue;
            }
            if is_map_name(lump_name.as_str()) {
                let things_info = match all_lump_info.pop_front() {
                    Some(info) => info,
                    None => return Err(WadError::GameMap(MapError::MissingLump)),
                };
                let things = match read_map_things(file, things_info) {
                    Ok(t) => t,
                    Err(e) => return Err(WadError::GameMap(e)),
                };
                lumps.push(Lump::GameMap(GameMap { things }));
            } else {
                let lump = match parse_lump(file, &info) {
                    Ok(l) => l,
                    Err(e) => return Err(e),
                };
                lumps.push(lump);
            }
            lump_names.push(lump_name);
            proof {
                assert(lump_names@.map_values(|s: String| s@) =~= names_before.push(lump_name@));
                assert(lumps@.map_values(|l: Lump| l@) =~= lumps_before.push(lumps@.last()@));
            }
        }
    }

    /// The first lump whose name is `name` (or begins with it, when `prefix`).
    fn find_lump(&self, name: &str, prefix: bool) -> (r: Option<usize>)
        ensures
            match spec_first_match(self@.0, name@, prefix) {
                None => r is None,
                Some(i) => r matches Some(j) && j == i && 0 <= i < self@.0.len(),
            },
    {
        let ghost names = self@.0;
        let mut i: usize = 0;
        while i < self.lump_names.len()
            invariant
                names == self@.0,
                names == self.lump_names@.map_values(|s: String| s@),
                i <= names.len(),
                spec_first_match(names.subrange(0, i as int), name@, prefix) is None,
            decreases names.len() - i,
        {
            let candidate = self.lump_names[i].as_str();
            let found = if prefix {
                str_starts_with(candidate, name)
            } else {
                str_starts_with(candidate, name) && str_starts_with(name, candidate)
            };
            proof {
                assert(names.subrange(0, i + 1).drop_last() =~= names.subrange(0, i as int));
                assert(names.subrange(0, i + 1).last() == names[i as int]);
                if !prefix && found {
                    assert(candidate@ =~= name@);
                }
                if !prefix && candidate@ == name@ {
                    assert(name@.is_prefix_of(candidate@));
                }
            }
            if found {
                proof {
                    lemma_first_match_prefix(names, name@, prefix, i as int + 1);
                }
                return Some(i);
            }
            i = i + 1;
        }
        assert(names.subrange(0, names.len() as int) =~= names);
        None
    }

    /// The palettes of the lump named `PLAYPAL` followed by a NUL, which the
    /// archive must hold (see [`Wad::find_palette`] to look for it).
    pub fn get_palette(&self) -> (r: Vec<[[u8; 3]; 256]>)
        requires
            spec_first_match(self@.0, playpal_chars(), false) matches Some(i) && self@.1[i] is Palette,
        ensures
            spec_first_match(self@.0, playpal_chars(), false) matches Some(i)
                && self@.1[i] == LumpModel::Palette(flatten_palettes(r@)),
    {
        self.find_palette().unwrap()
    }

    /// The palettes of the lump named `PLAYPAL` followed by a NUL, or why
    /// there are none.
    pub fn find_palette(&self) -> (r: Result<Vec<[[u8; 3]; 256]>, WadError>)
        ensures
            match spec_first_match(self@.0, playpal_chars(), false) {
                None => r == Err::<Vec<[[u8; 3]; 256]>, WadError>(WadError::MissingLump),
                Some(i) => match self@.1[i] {
                    LumpModel::Palette(data) => r matches Ok(p) && flatten_palettes(p@) == data,
                    _ => r == Err::<Vec<[[u8; 3]; 256]>, WadError>(WadError::WrongLumpKind),
                },
            },
    {
        proof {
            use_type_invariant(self);
        }
        let target = "PLAYPAL\0";
        proof {
            reveal_strlit("PLAYPAL\0");
            assert(target@ =~= playpal_chars());
        }
        let index = match self.find_lump(target, false) {
            Some(i) => i,
            None => return Err(WadError::MissingLump),
        };
        assert(self@.1[index as int] == self.lumps@[index as int]@);
        match &self.lumps[index] {
            Lump::Palette(palette) => Ok(vstd::slice::slice_to_vec(palette.as_slice())),
            _ => Err(WadError::WrongLumpKind),
        }
    }

    /// The color maps of the lump named `COLORMAP`, which the archive must
    /// hold (see [`Wad::find_colormap`] to look for it).
    pub fn get_colormap(&self) -> (r: Vec<[u8; 256]>)
        requires
            spec_first_match(self@.0, colormap_chars(), false) matches Some(i) && self@.1[i] is ColorMap,
        ensures
            spec_first_match(self@.0, colormap_chars(), false) matches Some(i)
                && self@.1[i] == LumpModel::ColorMap(flatten_colormaps(r@)),
    {
        self.find_colormap().unwrap()
    }

    /// The color maps of the lump named `COLORMAP`, or why there are none.
    pub fn find_colormap(&self) -> (r: Result<Vec<[u8; 256]>, WadError>)
        ensures
            match spec_first_match(self@.0, colormap_chars(), false) {
                None => r == Err::<Vec<[u8; 256]>, WadError>(WadError::MissingLump),
                Some(i) => match self@.1[i] {
                    LumpModel::ColorMap(data) => r matches Ok(m) && flatten_colormaps(m@) == data,
                    _ => r == Err::<Vec<[u8; 256]>, WadError>(WadError::WrongLumpKind),
                },
            },
    {
        proof {
            use_type_invariant(self);
        }
        let target = "COLORMAP";
        proof {
            reveal_strlit("COLORMAP");
            assert(target@ =~= colormap_chars());
        }
        let index = match self.find_lump(target, false) {
            Some(i) => i,
            None => return Err(WadError::MissingLump),
        };
        assert(self@.1[index as int] == self.lumps@[index as int]@);
        match &self.lumps[index] {
            Lump::ColorMap(maps) => Ok(vstd::slice::slice_to_vec(maps.as_slice())),
            _ => Err(WadError::WrongLumpKind),
        }
    }

    /// A copy of the sound of the first lump whose name begins with `name`,
    /// which must be a sound (see [`Wad::find_sound`] to look for it).
    pub fn get_sound(&self, name: &str) -> (r: Sound)
        requires
            spec_first_match(self@.0, name@, true) matches Some(i) && self@.1[i] is Sound,
        ensures
            spec_first_match(self@.0, name@, true) matches Some(i)
                && self@.1[i] == LumpModel::Sound(r.sample_rate, r.samples@),
    {
        self.find_sound(name).unwrap()
    }

    /// A copy of the sound of the first lump whose name begins with `name`,
    /// or why there is none.
    pub fn find_sound(&self, name: &str) -> (r: Result<Sound, WadError>)
        ensures
            match spec_first_match(self@.0, name@, true) {
                None => r == Err::<Sound, WadError>(WadError::MissingLump),
                Some(i) => match self@.1[i] {
                    LumpModel::Sound(rate, samples) => r matches Ok(s) && s.sample_rate == rate
                        && s.samples@ == samples,
                    _ => r == Err::<Sound, WadError>(WadError::WrongLumpKind),
                },
            },
    {
        proof {
            use_type_invariant(self);
        }
        let index = match self.find_lump(name, true) {
            Some(i) => i,
            None => return Err(WadError::MissingLump),
        };
        assert(self@.1[index as int] == self.lumps@[index as int]@);
        match &self.lumps[index] {
            Lump::Sound(sound) => Ok(
                Sound {
                    sample_rate: sound.sample_rate,
                    samples: vstd::slice::slice_to_vec(sound.samples.as_slice()),
                },
            ),
            _ => Err(WadError::WrongLumpKind),
        }
    }

    /// The MUS bytes of the first lump whose name begins with `name`, which
    /// must be music (see [`Wad::find_music`] to look for it).
    pub fn get_music(&self, name: &str) -> (r: &Vec<u8>)
        requires
            spec_first_match(self@.0, name@, true) matches Some(i) && self@.1[i] is Music,
        ensures
            spec_first_match(self@.0, name@, true) matches Some(i)
                && self@.1[i] == LumpModel::Music(r@),
    {
        self.find_music(name).unwrap()
    }

    /// The MUS bytes of the first lump whose name begins with `name`, or why
    /// there are none.
    pub fn find_music(&self, name: &str) -> (r: Result<&Vec<u8>, WadError>)
        ensures
            match spec_first_match(self@.0, name@, true) {
                None => r == Err::<&Vec<u8>, WadError>(WadError::MissingLump),
                Some(i) => match self@.1[i] {
                    LumpModel::Music(data) => r matches Ok(m) && m@ == data,
                    _ => r == Err::<&Vec<u8>, WadError>(WadError::WrongLumpKind),
                },
            },
    {
        proof {
            use_type_invariant(self);
        }
        let index = match self.find_lump(name, true) {
            Some(i) => i,
            None => return Err(WadError::MissingLump),
        };
        assert(self@.1[index as int] == self.lumps@[index as int]@);
        match &self.lumps[index] {
            Lump::Music(music) => Ok(music),
            _ => Err(WadError::WrongLumpKind),
        }
    }

    /// The lump names, in directory order.
    pub fn lump_names(&self) -> (r: &Vec<String>)
        ensures
            r@.map_values(|s: String| s@) == self@.0,
    {
        &self.lump_names
    }

    /// The lumps, in directory order.
    pub fn lumps(&self) -> (r: &Vec<Lump>)
        ensures
            r@.map_values(|l: Lump| l@) == self@.1,
    {
        &self.lumps
    }
}


proof fn lemma_load_lumps_wf(
    file: Seq<u8>,
    infos: Seq<LumpInfo>,
    names: Seq<Seq<char>>,
    lumps: Seq<LumpModel>,
)
    requires
        wad_wf(names, lumps),
    ensures
        spec_load_lumps(file, infos, names, lumps) matches Ok((names2, lumps2)) ==> wad_wf(
            names2,
            lumps2,
        ),
    decreases infos.len(),
{
    if infos.len() > 0 {
        let info = infos[0];
        let rest = infos.subrange(1, infos.len() as int);
        if valid_utf8(info.name@) {
            let name = decode_utf8(info.name@);
            if names.contains(name) {
                lemma_load_lumps_wf(file, rest, names, lumps);
            } else {
                assert(names_distinct(names.push(name))) by {
                    assert forall|i: int, j: int|
                        0 <= i < j < names.push(name).len() implies names.push(name)[i]
                        != names.push(name)[j] by {
                        if j == names.len() {
                            assert(names[i] == names.push(name)[i]);
                        }
                    }
                }
                if map_marker_match(name) {
                    if rest.len() > 0 {
                        if let Ok(things) = spec_map(file, rest) {
                            lemma_load_lumps_wf(
                                file,
                                rest.subrange(1, rest.len() as int),
                                names.push(name),
                                lumps.push(LumpModel::GameMap(things)),
                            );
                        }
                    }
                } else if let Ok(lump) = spec_parse_lump(file, info) {
                    lemma_load_lumps_wf(file, rest, names.push(name), lumps.push(lump));
                }
            }
        }
    }
}

/// An archive read from any file has one name per lump and never the same
/// name twice: a directory entry whose name was seen before is skipped.
pub proof fn lemma_wad_names_distinct(file: Seq<u8>)
    ensures
        spec_wad(file) matches Ok((names, lumps)) ==> names.len() == lumps.len() && names_distinct(
            names,
        ),
{
    if let Ok(offset) = spec_wad_header(file) {
        lemma_load_lumps_wf(file, spec_directory(file, offset), seq![], seq![]);
    }
}

/// In an archive, whose names are distinct, looking a name up finds exactly
/// the lump that has that name, and fails exactly when no lump has it.
pub proof fn lemma_exact_lookup(names: Seq<Seq<char>>, target: Seq<char>)
    requires
        names_distinct(names),
    ensures
        forall|i: int|
            0 <= i < names.len() ==> (spec_first_match(names, target, false) == Some(i) <==> names[i]
                == target),
        spec_first_match(names, target, false) is None <==> !names.contains(target),
    decreases names.len(),
{
    if names.len() > 0 {
        let shorter = names.drop_last();
        assert(names_distinct(shorter));
        lemma_exact_lookup(shorter, target);
        if shorter.contains(target) {
            let k = choose|k: int| 0 <= k < shorter.len() && shorter[k] == target;
            assert(names[k] == target);
        }
        if names.last() == target {
            assert(names[names.len() - 1] == target);
        }
        assert forall|i: int| 0 <= i < names.len() implies (spec_first_match(names, target, false)
            == Some(i) <==> names[i] == target) by {
            if i < names.len() - 1 {
                assert(shorter[i] == names[i]);
                if names[i] == target && names.last() == target {
                    assert(names[i] != names[names.len() - 1]);
                }
            }
        }
        if names.contains(target) {
            let k = choose|k: int| 0 <= k < names.len() && names[k] == target;
            if k < names.len() - 1 {
                assert(shorter[k] == target);
            }
        }
    }
}

/// The name of directory entry `i`, read as UTF-8.
pub open spec fn entry_name(dir: Seq<LumpInfo>, i: int) -> Seq<char> {
    decode_utf8(dir[i].name@)
}

/// Entry `i` has a valid name, and that name is among `names`.
pub open spec fn entry_kept(names: Seq<Seq<char>>, dir: Seq<LumpInfo>, i: int) -> bool {
    valid_utf8(dir[i].name@) && names.contains(entry_name(dir, i))
}

/// Entry `i` was taken as the THINGS lump of a map marker kept at `pos[m]`.
pub open spec fn taken_by_marker(names: Seq<Seq<char>>, pos: Seq<int>, i: int) -> bool {
    exists|m: int| 0 <= m < names.len() && map_marker_match(names[m]) && #[trigger] pos[m] + 1 == i
}

/// Entry `j` gives the lump named `name`: its name is `name`, and `lump` is
/// the map read from the next entry when `name` is a map marker, otherwise the
/// entry's own lump decoded by [`spec_parse_lump`].
pub open spec fn entry_gives(
    file: Seq<u8>,
    dir: Seq<LumpInfo>,
    j: int,
    name: Seq<char>,
    lump: LumpModel,
) -> bool {
    &&& valid_utf8(dir[j].name@)
    &&& entry_name(dir, j) == name
    &&& if map_marker_match(name) {
        &&& j + 1 < dir.len()
        &&& spec_map_data(file, dir[j + 1]) matches Ok(things)
        &&& lump == LumpModel::GameMap(things)
    } else {
        spec_parse_lump(file, dir[j]) == Ok::<LumpModel, WadError>(lump)
    }
}

/// The names and lumps come, in order, from the entries at positions `pos`
/// among the first `upto` entries of `dir`; each of these is the first entry
/// of its name not taken by a map marker, and every entry not so taken has its
/// name among `names`.
pub open spec fn lumps_from_entries(
    file: Seq<u8>,
    dir: Seq<LumpInfo>,
    upto: int,
    names: Seq<Seq<char>>,
    lumps: Seq<LumpModel>,
    pos: Seq<int>,
) -> bool {
    &&& pos.len() == names.len()
    &&& lumps.len() == names.len()
    &&& forall|k: int, l: int| 0 <= k < l < pos.len() ==> #[trigger] pos[k] < #[trigger] pos[l]
    &&& forall|k: int| 0 <= k < pos.len() ==> 0 <= #[trigger] pos[k] < upto
    &&& forall|k: int|
        0 <= k < pos.len() ==> entry_gives(file, dir, #[trigger] pos[k], names[k], lumps[k])
    &&& forall|k: int, i: int|
        0 <= k < pos.len() && 0 <= i < pos[k] && !taken_by_marker(names, pos, i) ==> #[trigger] entry_name(
            dir,
            i,
        ) != #[trigger] names[k]
    &&& forall|i: int|
        0 <= i < upto && !taken_by_marker(names, pos, i) ==> #[trigger] entry_kept(names, dir, i)
}

/// An entry among the first `upto` not taken by a map marker has a valid name
/// that was kept.
proof fn lemma_entry_kept(
    file: Seq<u8>,
    dir: Seq<LumpInfo>,
    upto: int,
    names: Seq<Seq<char>>,
    lumps: Seq<LumpModel>,
    pos: Seq<int>,
    i: int,
)
    requires
        lumps_from_entries(file, dir, upto, names, lumps, pos),
        0 <= i < upto,
        !taken_by_marker(names, pos, i),
    ensures
        valid_utf8(dir[i].name@),
        names.contains(entry_name(dir, i)),
{
    assert(entry_kept(names, dir, i));
}

/// Skipping an entry whose name was already kept keeps the correspondence.
proof fn lemma_entries_skip(
    file: Seq<u8>,
    dir: Seq<LumpInfo>,
    start: int,
    names: Seq<Seq<char>>,
    lumps: Seq<LumpModel>,
    pos: Seq<int>,
)
    requires
        0 <= start < dir.len(),
        lumps_from_entries(file, dir, start, names, lumps, pos),
        valid_utf8(dir[start].name@),
        names.contains(entry_name(dir, start)),
    ensures
        lumps_from_entries(file, dir, start + 1, names, lumps, pos),
{
    assert forall|i: int|
        0 <= i < start + 1 && !taken_by_marker(names, pos, i) implies #[trigger] entry_kept(
        names,
        dir,
        i,
    ) by {
        if i < start {
            lemma_entry_kept(file, dir, start, names, lumps, pos, i);
        }
    }
}

/// Keeping entry `start` (and, for a map marker, taking the entry after it)
/// keeps the correspondence.
proof fn lemma_entries_push(
    file: Seq<u8>,
    dir: Seq<LumpInfo>,
    start: int,
    names: Seq<Seq<char>>,
    lumps: Seq<LumpModel>,
    pos: Seq<int>,
    lump: LumpModel,
    next: int,
)
    requires
        0 <= start < dir.len(),
        lumps_from_entries(file, dir, start, names, lumps, pos),
        valid_utf8(dir[start].name@),
        !names.contains(entry_name(dir, start)),
        entry_gives(file, dir, start, entry_name(dir, start), lump),
        next == (if map_marker_match(entry_name(dir, start)) {
            start + 2
        } else {
            start + 1
        }),
    ensures
        lumps_from_entries(
            file,
            dir,
            next,
            names.push(entry_name(dir, start)),
            lumps.push(lump),
            pos.push(start),
        ),
{
    let name = entry_name(dir, start);
    let names1 = names.push(name);
    let lumps1 = lumps.push(lump);
    let pos1 = pos.push(start);
    let last = names.len() as int;
    assert(names1[last] == name && pos1[last] == start && lumps1[last] == lump);
    assert forall|i: int| taken_by_marker(names, pos, i) implies taken_by_marker(names1, pos1, i) by {
        let m = choose|m: int|
            0 <= m < names.len() && map_marker_match(names[m]) && #[trigger] pos[m] + 1 == i;
        assert(names1[m] == names[m] && pos1[m] == pos[m]);
    }
    assert forall|k: int, l: int| 0 <= k < l < pos1.len() implies #[trigger] pos1[k]
        < #[trigger] pos1[l] by {
        assert(pos1[k] == pos[k]);
        if l < last {
            assert(pos1[l] == pos[l]);
        } else {
            assert(0 <= pos[k] < start);
        }
    }
    assert forall|k: int| 0 <= k < pos1.len() implies 0 <= #[trigger] pos1[k] < next by {
        if k < last {
            assert(pos1[k] == pos[k]);
            assert(0 <= pos[k] < start);
        }
    }
    assert forall|k: int| 0 <= k < pos1.len() implies entry_gives(
        file,
        dir,
        #[trigger] pos1[k],
        names1[k],
        lumps1[k],
    ) by {
        if k < last {
            assert(pos1[k] == pos[k] && names1[k] == names[k] && lumps1[k] == lumps[k]);
        }
    }
    assert forall|k: int, i: int|
        0 <= k < pos1.len() && 0 <= i < pos1[k] && !taken_by_marker(names1, pos1, i) implies #[trigger] entry_name(
        dir,
        i,
    ) != #[trigger] names1[k] by {
        if k < last {
            assert(names1[k] == names[k] && pos1[k] == pos[k]);
            assert(entry_name(dir, i) != names[k]);
        } else {
            lemma_entry_kept(file, dir, start, names, lumps, pos, i);
        }
    }
    if map_marker_match(name) {
        assert(pos1[last] + 1 == start + 1);
        assert(taken_by_marker(names1, pos1, start + 1));
    }
    assert forall|i: int|
        0 <= i < next && !taken_by_marker(names1, pos1, i) implies #[trigger] entry_kept(
        names1,
        dir,
        i,
    ) by {
        if i < start {
            lemma_entry_kept(file, dir, start, names, lumps, pos, i);
            let k = choose|k: int| 0 <= k < names.len() && names[k] == entry_name(dir, i);
            assert(names1[k] == names[k]);
        } else if i == start {
            assert(names1[last] == name);
        }
    }
}

proof fn lemma_load_entries(
    file: Seq<u8>,
    dir: Seq<LumpInfo>,
    start: int,
    names: Seq<Seq<char>>,
    lumps: Seq<LumpModel>,
    pos: Seq<int>,
) -> (pos2: Seq<int>)
    requires
        0 <= start <= dir.len(),
        lumps_from_entries(file, dir, start, names, lumps, pos),
    ensures
        spec_load_lumps(file, dir.subrange(start, dir.len() as int), names, lumps) matches Ok(
            (names2, lumps2),
        ) ==> lumps_from_entries(file, dir, dir.len() as int, names2, lumps2, pos2),
    decreases dir.len() - start,
{
    let infos = dir.subrange(start, dir.len() as int);
    if start == dir.len() {
        return pos;
    }
    let info = infos[0];
    assert(info == dir[start]);
    let rest = infos.subrange(1, infos.len() as int);
    assert(rest =~= dir.subrange(start + 1, dir.len() as int));
    if !valid_utf8(info.name@) {
        return pos;
    }
    let name = decode_utf8(info.name@);
    assert(entry_name(dir, start) == name);
    if names.contains(name) {
        lemma_entries_skip(file, dir, start, names, lumps, pos);
        return lemma_load_entries(file, dir, start + 1, names, lumps, pos);
    }
    if map_marker_match(name) {
        if rest.len() == 0 {
            return pos;
        }
        assert(rest[0] == dir[start + 1]);
        match spec_map(file, rest) {
            Err(_) => {
                return pos;
            },
            Ok(things) => {
                let lump = LumpModel::GameMap(things);
                lemma_entries_push(file, dir, start, names, lumps, pos, lump, start + 2);
                assert(rest.subrange(1, rest.len() as int) =~= dir.subrange(
                    start + 2,
                    dir.len() as int,
                ));
                return lemma_load_entries(
                    file,
                    dir,
                    start + 2,
                    names.push(name),
                    lumps.push(lump),
                    pos.push(start),
                );
            },
        }
    }
    match spec_parse_lump(file, info) {
        Err(_) => {
            return pos;
        },
        Ok(lump) => {
            lemma_entries_push(file, dir, start, names, lumps, pos, lump, start + 1);
            return lemma_load_entries(
                file,
                dir,
                start + 1,
                names.push(name),
                lumps.push(lump),
                pos.push(start),
            );
        },
    }
}

/// Reading an archive keeps, in directory order, the first entry of each name
/// that is not taken as a map's THINGS lump: there are increasing positions in
/// the directory, one per name, whose entry gives that name and its lump (the
/// entry decoded by [`spec_parse_lump`], or for a map marker the things of the
/// entry after it); no earlier entry not so taken has the same name; and every
/// entry not so taken has its name among the archive's names.
pub proof fn lemma_wad_first_entries(file: Seq<u8>)
    ensures
        spec_wad(file) matches Ok((names, lumps)) ==> spec_wad_header(file) matches Ok(offset)
            && exists|pos: Seq<int>|
            lumps_from_entries(
                file,
                spec_directory(file, offset),
                spec_directory(file, offset).len() as int,
                names,
                lumps,
                pos,
            ),
{
    if let Ok(offset) = spec_wad_header(file) {
        let dir = spec_directory(file, offset);
        assert(dir.subrange(0, dir.len() as int) =~= dir);
        let pos = lemma_load_entries(file, dir, 0, seq![], seq![], seq![]);
        if let Ok((names, lumps)) = spec_wad(file) {
            assert(lumps_from_entries(file, dir, dir.len() as int, names, lumps, pos));
        }
    }
}

} // verus!
