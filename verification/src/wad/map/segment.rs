//! Segments: the pieces of linedefs that bound subsectors.
use vstd::prelude::*;

verus! {

/// One entry of a map's SEGS lump.
#[derive(Clone, Copy, Debug, PartialEq, Eq)]
pub struct Segment {
    pub starting_vertex_index: u16,
    pub ending_vertex_index: u16,
    pub angle: i16,
    pub linedef_number: u16,
    pub direction: i16,
    pub offset: i16,
}

} // verus!
