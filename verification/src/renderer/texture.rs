//! Pictures decoded to 8-bit palette indices for an `R8Uint` texture.
use vstd::prelude::*;
use crate::wad::patch::{
    Patch, PictureError, column_posts, patch_pixel, spec_column, spec_patch_indices,
    spec_picture_column, spec_picture_error,
};
use crate::bytes::{le_u16};

verus! {

/// The palette index a picture stores for a pixel: 0 where nothing is drawn.
pub open spec fn picture_pixel(p: Option<u8>) -> u8 {
    match p {
        Some(b) => b,
        None => 0,
    }
}

/// The palette indices of a decodable picture, row by row (0 where no post draws).
pub open spec fn spec_picture_indices(lump: Seq<u8>) -> Seq<u8> {
    let w = le_u16(lump, 0);
    let h = le_u16(lump, 2);
    Seq::new(
        (w * h) as nat,
        |x: int| picture_pixel(spec_picture_column(lump, x % w).unwrap()[x / w]),
    )
}

/// Decodes a picture lump into palette indices, row by row, with 0 where no
/// post draws (see [`Patch::new`] for the format and its failures).
pub fn parse_picture(lump: &[u8]) -> (r: Result<Vec<u8>, PictureError>)
    ensures
        match spec_picture_error(lump@) {
            Some(e) => r == Err::<Vec<u8>, PictureError>(e),
            None => r matches Ok(v) && v@ == spec_picture_indices(lump@),
        },
{
    let patch = match Patch::new(lump) {
        Ok(p) => p,
        Err(e) => return Err(e),
    };
    let ghost patch_indices = spec_patch_indices(lump@);
    let mut indices: Vec<u8> = Vec::new();
    let mut i: usize = 0;
    while i < patch.indices.len()
        invariant
            patch.indices@ == patch_indices,
            patch_indices == spec_patch_indices(lump@),
            i <= patch_indices.len(),
            indices@.len() == i,
            forall|x: int|
                0 <= x < i ==> #[trigger] indices@[x] == spec_picture_indices(lump@)[x],
        decreases patch_indices.len() - i,
    {
        let index = patch.indices[i];
        let pixel: u8 = if index == 256 {
            0
        } else {
            index as u8
        };
        proof {
            let w = le_u16(lump@, 0);
            let p = spec_picture_column(lump@, i as int % w).unwrap()[i as int / w];
            assert(index == patch_pixel(p));
            assert(pixel == picture_pixel(p));
        }
        indices.push(pixel);
        i = i + 1;
    }
    assert(indices@ =~= spec_picture_indices(lump@));
    Ok(indices)
}

/// Decodes the column whose posts begin at `offset` into palette indices (0
/// where no post draws).
pub fn parse_column(lump: &[u8], offset: usize, height: u16) -> (r: Result<Vec<u8>, PictureError>)
    ensures
        match spec_column(lump@, offset as int, height as int) {
            None => r == Err::<Vec<u8>, PictureError>(PictureError::BadColumn),
            Some(pixels) => r matches Ok(v) && v@ == pixels.map_values(|p: Option<u8>| picture_pixel(p)),
        },
{
    let pixels = match column_posts(lump, offset, height) {
        Ok(p) => p,
        Err(e) => return Err(e),
    };
    let mut indices: Vec<u8> = Vec::new();
    let mut i: usize = 0;
    while i < pixels.len()
        invariant
            i <= pixels@.len(),
            indices@ =~= pixels@.subrange(0, i as int).map_values(|p: Option<u8>| picture_pixel(p)),
        decreases pixels@.len() - i,
    {
        let index: u8 = match pixels[i] {
            Some(b) => b,
            None => 0,
        };
        indices.push(index);
        i = i + 1;
    }
    assert(pixels@.subrange(0, pixels@.len() as int) =~= pixels@);
    Ok(indices)
}


/// A decoded picture is the decoded patch of the same lump, with 0 in place
/// of the patch's transparent 256.
pub proof fn lemma_picture_matches_patch(lump: Seq<u8>)
    ensures
        spec_picture_indices(lump) == spec_patch_indices(lump).map_values(
            |index: u16|
                if index == 256 {
                    0u8
                } else {
                    index as u8
                },
        ),
{
    assert(spec_picture_indices(lump) =~= spec_patch_indices(lump).map_values(
        |index: u16|
            if index == 256 {
                0u8
            } else {
                index as u8
            },
    ));
}

} // verus!
