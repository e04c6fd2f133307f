//! Demo lumps: recorded games.
use vstd::prelude::*;

verus! {

/// The 13-byte header of a demo.
#[derive(Clone, Copy, Debug, PartialEq, Eq)]
pub struct DemoHeader {
    pub game_version: u8,
    pub skill_level: u8,
    pub episode: u8,
    pub map: u8,
    pub multiplayer_mode: u8,
    pub respawn: u8,
    pub fast: u8,
    pub no_monsters: u8,
    pub pov_player: u8,
    pub p1_present: u8,
    pub p2_present: u8,
    pub p3_present: u8,
    pub p4_present: u8,
}

/// One recorded tic of player input (4 bytes).
#[derive(Clone, Copy, Debug, PartialEq, Eq)]
pub struct DemoTic {
    pub stride: u8,
    pub strafe: u8,
    pub turn: u8,
    pub flags: u8,
}

/// A demo: its header and its tics.
#[derive(Clone, Debug)]
pub struct Demo {
    header: DemoHeader,
    tics: Vec<DemoTic>,
}

/// Why a demo lump could not be decoded.
#[derive(Clone, Copy, Debug, PartialEq, Eq)]
pub enum DemoError {
    /// The lump is shorter than the header and the end marker (14 bytes).
    TooShort,
    /// The bytes between the header and the end marker are not whole tics.
    PartialTic,
}

/// The header stored in the first 13 bytes.
pub open spec fn spec_demo_header(s: Seq<u8>) -> DemoHeader {
    DemoHeader {
        game_version: s[0],
        skill_level: s[1],
        episode: s[2],
        map: s[3],
        multiplayer_mode: s[4],
        respawn: s[5],
        fast: s[6],
        no_monsters: s[7],
        pov_player: s[8],
        p1_present: s[9],
        p2_present: s[10],
        p3_present: s[11],
        p4_present: s[12],
    }
}

/// The tic stored in the 4 bytes at `at`.
pub open spec fn spec_demo_tic_at(s: Seq<u8>, at: int) -> DemoTic {
    DemoTic { stride: s[at], strafe: s[at + 1], turn: s[at + 2], flags: s[at + 3] }
}

/// A demo lump is its header, then tics of 4 bytes, then one end-marker byte
/// (which is not kept).
pub open spec fn spec_demo(lump: Seq<u8>) -> Result<(DemoHeader, Seq<DemoTic>), DemoError> {
    if lump.len() < 14 {
        Err(DemoError::TooShort)
    } else if (lump.len() - 14) % 4 != 0 {
        Err(DemoError::PartialTic)
    } else {
        Ok(
            (
                spec_demo_header(lump),
                Seq::new(
                    ((lump.len() - 14) / 4) as nat,
                    |i: int| spec_demo_tic_at(lump, 13 + 4 * i),
                ),
            ),
        )
    }
}

impl View for Demo {
    type V = (DemoHeader, Seq<DemoTic>);

    closed spec fn view(&self) -> (DemoHeader, Seq<DemoTic>) {
        (self.header, self.tics@)
    }
}

impl Demo {
    /// Decodes a demo lump.
    pub fn new(lump: &[u8]) -> (r: Result<Demo, DemoError>)
        ensures
            match spec_demo(lump@) {
                Err(e) => r == Err::<Demo, DemoError>(e),
                Ok(v) => r matches Ok(d) && d@ == v,
            },
    {
        let n = lump.len();
        if n < 14 {
            return Err(DemoError::TooShort);
        }
        if (n - 14) % 4 != 0 {
            return Err(DemoError::PartialTic);
        }
        let header = DemoHeader {
            game_version: lump[0],
            skill_level: lump[1],
            episode: lump[2],
            map: lump[3],
            multiplayer_mode: lump[4],
            respawn: lump[5],
            fast: lump[6],
            no_monsters: lump[7],
            pov_player: lump[8],
            p1_present: lump[9],
            p2_present: lump[10],
            p3_present: lump[11],
            p4_present: lump[12],
        };
        let count = (n - 14) / 4;
        let mut tics: Vec<DemoTic> = Vec::new();
        let mut i: usize = 0;
        while i < count
            invariant
                n == lump@.len(),
                n >= 14,
                count == (n - 14) / 4,
                i <= count,
                tics@.len() == i,
                forall|j: int| 0 <= j < i ==> tics@[j] == spec_demo_tic_at(lump@, 13 + 4 * j),
            decreases count - i,
        {
            let at = 13 + 4 * i;
            tics.push(
                DemoTic {
                    stride: lump[at],
                    strafe: lump[at + 1],
                    turn: lump[at + 2],
                    flags: lump[at + 3],
                },
            );
            i = i + 1;
        }
        let demo = Demo { header, tics };
        assert(demo@.1 =~= Seq::new(
            ((lump@.len() - 14) / 4) as nat,
            |i: int| spec_demo_tic_at(lump@, 13 + 4 * i),
        ));
        Ok(demo)
    }

    /// The demo's header.
    pub fn header(&self) -> (r: DemoHeader)
        ensures
            r == self@.0,
    {
        self.header
    }

    /// The demo's tics, in the order they were recorded.
    pub fn tics(&self) -> (r: &Vec<DemoTic>)
        ensures
            r@ == self@.1,
    {
        &self.tics
    }
}

} // verus!
