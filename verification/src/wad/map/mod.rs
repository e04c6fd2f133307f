//! Map data: things, linedefs, sidedefs, segments and vertices.

pub mod linedef;
pub mod segment;
pub mod sidedef;
pub mod thing;
pub mod vertex;

pub use linedef::LineDef;
pub use segment::Segment;
pub use sidedef::SideDef;
pub use thing::MapThing;
pub use vertex::{Vertex, ZVertex};

use vstd::prelude::*;
use std::collections::VecDeque;
use crate::wad::wad::{LumpInfo, spec_lump_data};
use crate::wad::map::thing::spec_map_thing_at;
use vstd::string::StringSliceAdditionalSpecFns;

verus! {

/// A map: the things placed on it.
#[derive(Debug)]
pub struct GameMap {
    pub things: Vec<MapThing>,
}

/// Why a map's lumps could not be read.
#[derive(Clone, Copy, Debug, PartialEq, Eq)]
pub enum MapError {
    /// The archive ends where the map's next lump should be.
    MissingLump,
    /// The lump's position or size is negative or it runs past the file.
    LumpOutOfBounds,
    /// The lump's size is not a whole number of records.
    PartialRecord,
}

/// The bytes of "THINGS".
pub open spec fn things_name() -> Seq<u8> {
    seq![0x54u8, 0x48u8, 0x49u8, 0x4Eu8, 0x47u8, 0x53u8]
}

/// The things stored in `data`, 10 bytes each.
pub open spec fn spec_map_things(data: Seq<u8>) -> Option<Seq<MapThing>> {
    if data.len() % 10 != 0 {
        None
    } else {
        Some(Seq::new((data.len() / 10) as nat, |i: int| spec_map_thing_at(data, 10 * i)))
    }
}

/// The things of the map whose marker lump was just read: the next lump,
/// whatever its name, holds them.
pub open spec fn spec_map(file: Seq<u8>, infos: Seq<LumpInfo>) -> Result<Seq<MapThing>, MapError> {
    if infos.len() == 0 {
        Err(MapError::MissingLump)
    } else {
        spec_map_data(file, infos[0])
    }
}

/// The things in the lump `info` describes.
pub open spec fn spec_map_data(file: Seq<u8>, info: LumpInfo) -> Result<Seq<MapThing>, MapError> {
    match spec_lump_data(file, info) {
        None => Err(MapError::LumpOutOfBounds),
        Some(data) => match spec_map_things(data) {
            None => Err(MapError::PartialRecord),
            Some(things) => Ok(things),
        },
    }
}

impl GameMap {
    /// Reads a map from the next entry of `all_lump_info`, which is taken. The
    /// entry must not be named `THINGS` (see [`get_and_check_map_lump`]) and its
    /// lump must hold whole things (see [`read_map_things`]).
    pub fn new(file: &[u8], all_lump_info: &mut VecDeque<LumpInfo>) -> (r: GameMap)
        requires
            old(all_lump_info)@.len() > 0,
            !things_name().is_prefix_of(old(all_lump_info)@[0].name@),
            spec_map_data(file@, old(all_lump_info)@[0]) is Ok,
        ensures
            final(all_lump_info)@ == old(all_lump_info)@.drop_first(),
            spec_map_data(file@, old(all_lump_info)@[0]) == Ok::<Seq<MapThing>, MapError>(
                r.things@,
            ),
    {
        let expected = "THINGS";
        proof {
            reveal_strlit("THINGS");
            broadcast use vstd::string::is_ascii_spec_bytes;
            assert(vstd::string::is_ascii(expected));
            assert(expected.spec_bytes() =~= things_name());
        }
        let things_info = get_and_check_map_lump(all_lump_info, expected);
        GameMap { things: get_map_data(file, things_info) }
    }
}

/// Takes the next lump entry, whose name must not begin with `expected_name`.
pub fn get_and_check_map_lump(all_lump_info: &mut VecDeque<LumpInfo>, expected_name: &str) -> (r:
    LumpInfo)
    requires
        old(all_lump_info)@.len() > 0,
        !expected_name.spec_bytes().is_prefix_of(old(all_lump_info)@[0].name@),
    ensures
        r == old(all_lump_info)@[0],
        final(all_lump_info)@ == old(all_lump_info)@.drop_first(),
{
    all_lump_info.pop_front().unwrap()
}

/// Reads the records of the lump `lump_info` describes as things; the lump
/// must lie in the file and hold whole records (see [`read_map_things`]).
pub fn get_map_data(file: &[u8], lump_info: LumpInfo) -> (r: Vec<MapThing>)
    requires
        spec_map_data(file@, lump_info) is Ok,
    ensures
        spec_map_data(file@, lump_info) == Ok::<Seq<MapThing>, MapError>(r@),
{
    read_map_things(file, lump_info).unwrap()
}

/// Reads the records of the lump `lump_info` describes as things, or says why
/// they cannot be read.
pub fn read_map_things(file: &[u8], lump_info: LumpInfo) -> (r: Result<Vec<MapThing>, MapError>)
    ensures
        match spec_map_data(file@, lump_info) {
            Err(e) => r == Err::<Vec<MapThing>, MapError>(e),
            Ok(things) => r matches Ok(v) && v@ == things,
        },
{
    let n = file.len();
    if lump_info.file_position < 0 || lump_info.size < 0 {
        return Err(MapError::LumpOutOfBounds);
    }
    let start_offset = lump_info.file_position as usize;
    let size = lump_info.size as usize;
    if start_offset > n || size > n - start_offset {
        return Err(MapError::LumpOutOfBounds);
    }
    if size % 10 != 0 {
        return Err(MapError::PartialRecord);
    }
    let ghost data = file@.subrange(start_offset as int, start_offset + size);
    let count = size / 10;
    let mut things: Vec<MapThing> = Vec::new();
    let mut i: usize = 0;
    while i < count
        invariant
            n == file@.len(),
            start_offset + size <= n,
            count == size / 10,
            size % 10 == 0,
            data == file@.subrange(start_offset as int, start_offset + size),
            i <= count,
            things@.len() == i,
            forall|j: int| 0 <= j < i ==> #[trigger] things@[j] == spec_map_thing_at(data, 10 * j),
        decreases count - i,
    {
        let at = start_offset + 10 * i;
        let thing = MapThing::from_bytes(file, at);
        proof {
            assert(spec_map_thing_at(file@, at as int) == spec_map_thing_at(data, 10 * i)) by {
                assert(file@[at as int] == data[10 * i]);
                assert(file@[at + 1] == data[10 * i + 1]);
                assert(file@[at + 2] == data[10 * i + 2]);
                assert(file@[at + 3] == data[10 * i + 3]);
                assert(file@[at + 4] == data[10 * i + 4]);
                assert(file@[at + 5] == data[10 * i + 5]);
                assert(file@[at + 6] == data[10 * i + 6]);
                assert(file@[at + 7] == data[10 * i + 7]);
                assert(file@[at + 8] == data[10 * i + 8]);
                assert(file@[at + 9] == data[10 * i + 9]);
            }
        }
        things.push(thing);
        i = i + 1;
    }
    assert(things@ =~= Seq::new((data.len() / 10) as nat, |i: int| spec_map_thing_at(data, 10 * i)));
    Ok(things)
}

} // verus!
