//! Sound effect lumps (DMX format 3): 8-bit unsigned mono samples.
use vstd::prelude::*;
use crate::bytes::{le_u16, le_u32, read_u16_le, read_u32_le};

verus! {

/// A decoded sound effect: its sample rate and its 8-bit unsigned samples.
#[derive(Clone, Debug)]
pub struct Sound {
    pub sample_rate: u32,
    pub samples: Vec<u8>,
}

/// Why a sound lump could not be decoded.
#[derive(Clone, Copy, Debug, PartialEq, Eq)]
pub enum SoundError {
    /// The lump ends inside its header or its samples.
    TooShort,
    /// The lump's format number is not 3.
    UnsupportedFormat(u16),
    /// The sample count is below the 32 padding bytes it includes.
    BadSampleCount,
    /// The sample rate is 0.
    ZeroSampleRate,
}

/// A sound lump: format (16 bits, must be 3), sample rate (16 bits), sample
/// count (32 bits, counting 32 padding bytes), then the samples from byte 0x18.
pub open spec fn spec_sound(lump: Seq<u8>) -> Result<(u32, Seq<u8>), SoundError> {
    if lump.len() < 2 {
        Err(SoundError::TooShort)
    } else if le_u16(lump, 0) != 3 {
        Err(SoundError::UnsupportedFormat(le_u16(lump, 0) as u16))
    } else if lump.len() < 8 {
        Err(SoundError::TooShort)
    } else if le_u32(lump, 4) < 32 {
        Err(SoundError::BadSampleCount)
    } else if 0x18 + le_u32(lump, 4) - 32 > lump.len() {
        Err(SoundError::TooShort)
    } else if le_u16(lump, 2) == 0 {
        Err(SoundError::ZeroSampleRate)
    } else {
        Ok((le_u16(lump, 2) as u32, lump.subrange(0x18, 0x18 + le_u32(lump, 4) - 32)))
    }
}

impl Sound {
    /// Decodes a sound lump, which must be a valid one (see [`Sound::decode`]
    /// to check a lump).
    pub fn new(lump: &[u8]) -> (r: Sound)
        requires
            spec_sound(lump@) is Ok,
        ensures
            spec_sound(lump@) == Ok::<(u32, Seq<u8>), SoundError>((r.sample_rate, r.samples@)),
    {
        Self::decode(lump).unwrap()
    }

    /// Decodes a sound lump, or says why it is not a valid one.
    pub fn decode(lump: &[u8]) -> (r: Result<Sound, SoundError>)
        ensures
            match spec_sound(lump@) {
                Err(e) => r == Err::<Sound, SoundError>(e),
                Ok((rate, samples)) => r matches Ok(s) && s.sample_rate == rate && s.samples@
                    == samples,
            },
    {
        let n = lump.len();
        if n < 2 {
            return Err(SoundError::TooShort);
        }
        let format = read_u16_le(lump, 0);
        if format != 3 {
            return Err(SoundError::UnsupportedFormat(format));
        }
        if n < 8 {
            return Err(SoundError::TooShort);
        }
        let sample_rate = read_u16_le(lump, 2);
        let declared = read_u32_le(lump, 4);
        if declared < 32 {
            return Err(SoundError::BadSampleCount);
        }
        let sample_count = (declared - 32) as usize;
        if sample_count > n || 0x18 > n - sample_count {
            return Err(SoundError::TooShort);
        }
        if sample_rate == 0 {
            return Err(SoundError::ZeroSampleRate);
        }
        let mut samples: Vec<u8> = Vec::new();
        let mut i: usize = 0;
        while i < sample_count
            invariant
                n == lump@.len(),
                0x18 + sample_count <= n,
                i <= sample_count,
                samples@ == lump@.subrange(0x18, 0x18 + i),
            decreases sample_count - i,
        {
            samples.push(lump[0x18 + i]);
            i = i + 1;
        }
        Ok(Sound { sample_rate: sample_rate as u32, samples })
    }
}

} // verus!
