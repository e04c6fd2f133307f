//! Things: the monsters, items and player starts placed on a map.
use vstd::prelude::*;
use crate::bytes::{le_i16, read_i16_le};

verus! {

/// One entry of a map's THINGS lump (10 bytes, little-endian).
#[derive(Clone, Copy, Debug, PartialEq, Eq)]
pub struct MapThing {
    pub x_position: i16,
    pub y_position: i16,
    pub angle_facing: i16,
    pub thing_type: i16,
    pub flags: i16,
}

/// The thing stored in the 10 bytes at `at`.
pub open spec fn spec_map_thing_at(s: Seq<u8>, at: int) -> MapThing {
    MapThing {
        x_position: le_i16(s, at) as i16,
        y_position: le_i16(s, at + 2) as i16,
        angle_facing: le_i16(s, at + 4) as i16,
        thing_type: le_i16(s, at + 6) as i16,
        flags: le_i16(s, at + 8) as i16,
    }
}

/// Whether a thing with `flags` appears at `skill_level`: never in a
/// single-player game when it is multiplayer-only (bit 0x10); otherwise (for
/// skills 1 to 5) when
/// the bit for the skill is set (0x1 for skills 1 and 2, 0x2 for skill 3, 0x4
/// for skills 4 and 5).
pub open spec fn spec_should_spawn(flags: i16, skill_level: i32, single_player: bool) -> bool {
    if single_player && flags & 0x10 != 0 {
        false
    } else if skill_level <= 2 {
        flags & 0x1 != 0
    } else if skill_level == 3 {
        flags & 0x2 != 0
    } else {
        flags & 0x4 != 0
    }
}

/// Which things spawn: a multiplayer-only thing (bit 0x10) never does in a
/// single-player game; otherwise at skills 1 and 2 exactly the things with bit
/// 0x1, at skill 3 exactly those with bit 0x2, and at skills 4 and 5 exactly
/// those with bit 0x4. No other bit matters: two things whose flags agree on
/// bit 0x10 and on the skill's bit spawn alike.
pub proof fn lemma_spawn_by_skill_bit(flags: i16, other: i16, skill_level: i32, single_player: bool)
    requires
        1 <= skill_level <= 5,
    ensures
        single_player && flags & 0x10 != 0 ==> !spec_should_spawn(flags, skill_level, single_player),
        !(single_player && flags & 0x10 != 0) ==> (spec_should_spawn(
            flags,
            skill_level,
            single_player,
        ) <==> if skill_level <= 2 {
            flags & 0x1 != 0
        } else if skill_level == 3 {
            flags & 0x2 != 0
        } else {
            flags & 0x4 != 0
        }),
        ({
            let bit: i16 = if skill_level <= 2 {
                0x1
            } else if skill_level == 3 {
                0x2
            } else {
                0x4
            };
            flags & 0x10 == other & 0x10 && flags & bit == other & bit ==> spec_should_spawn(
                flags,
                skill_level,
                single_player,
            ) == spec_should_spawn(other, skill_level, single_player)
        }),
{
}

impl MapThing {
    /// Decodes the thing stored in the 10 bytes at `at`.
    pub fn from_bytes(bytes: &[u8], at: usize) -> (r: MapThing)
        requires
            at + 10 <= bytes@.len(),
        ensures
            r == spec_map_thing_at(bytes@, at as int),
    {
        // The record ends inside the slice, whose length is a usize.
        let len = bytes.len();
        assert(at + 10 <= len);
        MapThing {
            x_position: read_i16_le(bytes, at),
            y_position: read_i16_le(bytes, at + 2),
            angle_facing: read_i16_le(bytes, at + 4),
            thing_type: read_i16_le(bytes, at + 6),
            flags: read_i16_le(bytes, at + 8),
        }
    }

    /// Returns `true` if this MapThing should spawn on the given skill level and singleplayer status, otherwise `false`
    pub fn should_spawn(&self, skill_level: i32, single_player: bool) -> (r: bool)
        requires
            (single_player && self.flags & 0x10 != 0) || 1 <= skill_level <= 5,
        ensures
            r == spec_should_spawn(self.flags, skill_level, single_player),
    {
        if single_player && self.flags & 0x10 != 0 {
            return false;
        }
        match skill_level {
            1 | 2 => self.flags & 0x1 != 0,
            3 => self.flags & 0x2 != 0,
            _ => self.flags & 0x4 != 0,
        }
    }

    /// Returns `true` if this MapThing has the ambush flag set, otherwise `false`
    pub fn in_ambush(&self) -> (r: bool)
        ensures
            r == (self.flags & 0x8 != 0),
    {
        self.flags & 0x8 != 0
    }
}

} // verus!
