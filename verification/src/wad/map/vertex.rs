//! Map vertices, in vanilla and in ZDoom extended form.
use vstd::prelude::*;
use crate::fixed::Fixed;

verus! {

/// Vanilla DOOM Vertex
#[derive(Clone, Copy, Debug, PartialEq, Eq)]
pub struct Vertex {
    pub x_position: i16,
    pub y_position: i16,
}

/// ZDoom Extended Nodes Vertex
#[derive(Clone, Copy, Debug, PartialEq, Eq)]
pub struct ZVertex {
    pub x_position: Fixed,
    pub y_position: Fixed,
}

impl From<Vertex> for ZVertex {
    fn from(value: Vertex) -> (r: Self) {
        ZVertex { x_position: Fixed::from(value.x_position), y_position: Fixed::from(value.y_position) }
    }
}

impl vstd::std_specs::convert::FromSpecImpl<Vertex> for ZVertex {
    open spec fn obeys_from_spec() -> bool {
        true
    }

    open spec fn from_spec(v: Vertex) -> ZVertex {
        ZVertex {
            x_position: Fixed((v.x_position * 65536) as i32),
            y_position: Fixed((v.y_position * 65536) as i32),
        }
    }
}

} // verus!
