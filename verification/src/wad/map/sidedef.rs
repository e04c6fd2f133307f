//! Sidedefs: the textured sides of linedefs.
use vstd::prelude::*;

verus! {

/// One entry of a map's SIDEDEFS lump.
#[derive(Clone, Copy, Debug, PartialEq, Eq)]
pub struct SideDef {
    pub x_offset: i16,
    pub y_offset: i16,
    pub upper_texture_name: [u8; 8],
    pub lower_texture_name: [u8; 8],
    pub middle_texture_name: [u8; 8],
    pub facing_sector: u16,
}

} // verus!
