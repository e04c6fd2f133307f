//! Pictures in the DOOM patch format: columns of posts of palette indices.
use vstd::prelude::*;
use crate::bytes::{le_u16, le_u32, read_u16_le, read_u32_le};

verus! {

/// A decoded picture: `indices` holds `width * height` palette indices, row
/// by row; 256 marks a transparent pixel.
#[derive(Debug)]
pub struct Patch {
    pub width: u32,
    pub height: u32,
    pub indices: Vec<u16>,
}

/// Why a picture could not be decoded.
#[derive(Clone, Copy, Debug, PartialEq, Eq)]
pub enum PictureError {
    /// The lump ends inside its header or its table of column offsets.
    TooShort,
    /// The header's sizes overflow the 16-bit arithmetic they are computed in.
    SizeOverflow,
    /// A column's posts run past the lump or the picture's height, or a post is empty.
    BadColumn,
}

/// A column with no pixel drawn yet.
pub open spec fn blank_column(height: int) -> Seq<Option<u8>> {
    Seq::new(height as nat, |k: int| None::<u8>)
}

/// Draws the posts of a column that begin at `offset` onto `pixels`. A post is
/// its first row, its length, a padding byte, the pixels and another padding
/// byte; 0xFF ends the column. `None` when a post runs past the lump or the
/// column, or is empty.
pub open spec fn spec_column_from(lump: Seq<u8>, offset: int, pixels: Seq<Option<u8>>) -> Option<
    Seq<Option<u8>>,
>
    decreases lump.len() + 1 - offset,
{
    if offset < 0 || offset >= lump.len() {
        None
    } else if lump[offset] == 0xFF {
        Some(pixels)
    } else if offset + 1 >= lump.len() {
        None
    } else {
        let top = lump[offset] as int;
        let length = lump[offset + 1] as int;
        let start = offset + 3;
        if length == 0 || start + length > lump.len() || top + length > pixels.len() {
            None
        } else {
            spec_column_from(
                lump,
                start + length + 1,
                Seq::new(
                    pixels.len(),
                    |k: int|
                        if top <= k < top + length {
                            Some(lump[start + k - top])
                        } else {
                            pixels[k]
                        },
                ),
            )
        }
    }
}

proof fn lemma_column_len(lump: Seq<u8>, offset: int, pixels: Seq<Option<u8>>)
    ensures
        spec_column_from(lump, offset, pixels) matches Some(r) ==> r.len() == pixels.len(),
    decreases lump.len() + 1 - offset,
{
    if 0 <= offset < lump.len() && lump[offset] != 0xFF && offset + 1 < lump.len() {
        let top = lump[offset] as int;
        let length = lump[offset + 1] as int;
        let start = offset + 3;
        if !(length == 0 || start + length > lump.len() || top + length > pixels.len()) {
            lemma_column_len(
                lump,
                start + length + 1,
                Seq::new(
                    pixels.len(),
                    |k: int|
                        if top <= k < top + length {
                            Some(lump[start + k - top])
                        } else {
                            pixels[k]
                        },
                ),
            );
        }
    }
}

/// The pixels of the column whose posts begin at `offset`, in a picture of `height` rows.
pub open spec fn spec_column(lump: Seq<u8>, offset: int, height: int) -> Option<Seq<Option<u8>>> {
    spec_column_from(lump, offset, blank_column(height))
}

/// The pixels of column `c` of the picture in `lump`.
pub open spec fn spec_picture_column(lump: Seq<u8>, c: int) -> Option<Seq<Option<u8>>> {
    spec_column(lump, le_u32(lump, 8 + 4 * c), le_u16(lump, 2))
}

/// How a picture lump fails to decode, if it does: its header (width and
/// height, 16 bits each) and the table of column offsets after byte 8 must be
/// there, every column must decode, and `width * height` must fit 16 bits.
pub open spec fn spec_picture_error(lump: Seq<u8>) -> Option<PictureError> {
    if lump.len() < 4 {
        Some(PictureError::TooShort)
    } else if 8 + 4 * le_u16(lump, 0) > 0xFFFF {
        Some(PictureError::SizeOverflow)
    } else if 8 + 4 * le_u16(lump, 0) > lump.len() {
        Some(PictureError::TooShort)
    } else if exists|c: int| 0 <= c < le_u16(lump, 0) && (#[trigger] spec_picture_column(lump, c)) is None {
        Some(PictureError::BadColumn)
    } else if le_u16(lump, 0) * le_u16(lump, 2) > 0xFFFF {
        Some(PictureError::SizeOverflow)
    } else {
        None
    }
}

/// The palette index a patch stores for a pixel: 256 where nothing is drawn.
pub open spec fn patch_pixel(p: Option<u8>) -> u16 {
    match p {
        Some(b) => b as u16,
        None => 256,
    }
}

/// Draws the posts of the column at `offset` (see [`spec_column_from`]).
pub(crate) fn column_posts(lump: &[u8], offset: usize, height: u16) -> (r: Result<
    Vec<Option<u8>>,
    PictureError,
>)
    ensures
        match spec_column(lump@, offset as int, height as int) {
            None => r == Err::<Vec<Option<u8>>, PictureError>(PictureError::BadColumn),
            Some(pixels) => r matches Ok(v) && v@ == pixels,
        },
{
    let n = lump.len();
    let mut pixels: Vec<Option<u8>> = Vec::new();
    while pixels.len() < height as usize
        invariant
            pixels@.len() <= height,
            forall|k: int| 0 <= k < pixels@.len() ==> pixels@[k] == None::<u8>,
        decreases height - pixels@.len(),
    {
        pixels.push(None);
    }
    assert(pixels@ =~= blank_column(height as int));
    let mut pos = offset;
    loop
        invariant
            n == lump@.len(),
            pixels@.len() == height,
            spec_column(lump@, offset as int, height as int) == spec_column_from(
                lump@,
                pos as int,
                pixels@,
            ),
        decreases n + 1 - pos,
    {
        if pos >= n {
            return Err(PictureError::BadColumn);
        }
        let top_delta = lump[pos];
        if top_delta == 0xFF {
            return Ok(pixels);
        }
        if pos + 1 >= n {
            return Err(PictureError::BadColumn);
        }
        let post_length = lump[pos + 1] as usize;
        if post_length == 0 || n - (pos + 1) < 2 + post_length || top_delta as usize + post_length
            > pixels.len() {
            return Err(PictureError::BadColumn);
        }
        let start = pos + 3;
        let ghost before = pixels@;
        let top = top_delta as usize;
        let mut i: usize = 0;
        while i < post_length
            invariant
                n == lump@.len(),
                start + post_length <= n,
                top + post_length <= before.len(),
                before.len() == height,
                pixels@.len() == before.len(),
                i <= post_length,
                forall|k: int|
                    0 <= k < before.len() ==> pixels@[k] == (if top <= k < top + i {
                        Some(lump@[start + k - top])
                    } else {
                        before[k]
                    }),
            decreases post_length - i,
        {
            pixels.set(top + i, Some(lump[start + i]));
            i = i + 1;
        }
        assert(pixels@ =~= Seq::new(
            before.len(),
            |k: int|
                if top <= k < top + post_length {
                    Some(lump@[start + k - top])
                } else {
                    before[k]
                },
        ));
        if start + post_length >= n {
            assert(spec_column_from(lump@, (start + post_length + 1) as int, pixels@) is None);
            return Err(PictureError::BadColumn);
        }
        pos = start + post_length + 1;
    }
}

/// Decodes the column whose posts begin at `offset` into palette indices
/// (256 where no post draws).
pub fn parse_column(lump: &[u8], offset: usize, height: u16) -> (r: Result<Vec<u16>, PictureError>)
    ensures
        match spec_column(lump@, offset as int, height as int) {
            None => r == Err::<Vec<u16>, PictureError>(PictureError::BadColumn),
            Some(pixels) => r matches Ok(v) && v@ == pixels.map_values(|p: Option<u8>| patch_pixel(p)),
        },
{
    let pixels = match column_posts(lump, offset, height) {
        Ok(p) => p,
        Err(e) => return Err(e),
    };
    let mut indices: Vec<u16> = Vec::new();
    let mut i: usize = 0;
    while i < pixels.len()
        invariant
            i <= pixels@.len(),
            indices@ =~= pixels@.subrange(0, i as int).map_values(|p: Option<u8>| patch_pixel(p)),
        decreases pixels@.len() - i,
    {
        let index: u16 = match pixels[i] {
            Some(b) => b as u16,
            None => 256,
        };
        indices.push(index);
        i = i + 1;
    }
    assert(pixels@.subrange(0, pixels@.len() as int) =~= pixels@);
    Ok(indices)
}


/// The palette indices of a decodable picture, row by row: pixel `x` is row
/// `x / width` of column `x % width`.
pub open spec fn spec_patch_indices(lump: Seq<u8>) -> Seq<u16> {
    let w = le_u16(lump, 0);
    let h = le_u16(lump, 2);
    Seq::new(
        (w * h) as nat,
        |x: int| patch_pixel(spec_picture_column(lump, x % w).unwrap()[x / w]),
    )
}

/// A decoded patch holds its picture row by row: the index at row `r` and
/// column `c` is the pixel drawn at row `r` by the posts of column `c`, which
/// begin at the column's full 32-bit little-endian offset (bytes `8 + 4c` to
/// `11 + 4c`), wherever in the lump that lies; 256 where no post draws.
pub proof fn lemma_patch_pixel_at(lump: Seq<u8>, r: int, c: int)
    requires
        spec_picture_error(lump) is None,
        0 <= r < lump[2] + 256 * lump[3],
        0 <= c < lump[0] + 256 * lump[1],
    ensures
        ({
            let width = lump[0] + 256 * lump[1];
            let height = lump[2] + 256 * lump[3];
            let offset = lump[8 + 4 * c] + 256 * lump[9 + 4 * c] + 65536 * lump[10 + 4 * c]
                + 16777216 * lump[11 + 4 * c];
            spec_column(lump, offset, height) matches Some(pixels) && spec_patch_indices(lump)[r
                * width + c] == patch_pixel(pixels[r])
        }),
{
    let width = le_u16(lump, 0);
    let height = le_u16(lump, 2);
    assert(0 <= r * width + c < width * height) by (nonlinear_arith)
        requires
            0 <= r < height,
            0 <= c < width,
    ;
    vstd::arithmetic::div_mod::lemma_fundamental_div_mod_converse(r * width + c, width, r, c);
    assert(!(spec_picture_column(lump, c) is None));
}

/// A column of one post: the post's first row `top`, its length `n` (not 0),
/// a padding byte, `n` pixel bytes, another padding byte, then 0xFF. It draws
/// its pixels on rows `top` to `top + n - 1`, in order, and nothing on the
/// other rows.
pub proof fn lemma_single_post_column(lump: Seq<u8>, offset: int, height: int)
    requires
        0 <= offset,
        lump[offset] != 0xFF,
        lump[offset + 1] > 0,
        offset + lump[offset + 1] + 5 <= lump.len(),
        lump[offset + lump[offset + 1] + 4] == 0xFF,
        lump[offset] + lump[offset + 1] <= height,
    ensures
        spec_column(lump, offset, height) matches Some(pixels) && pixels.len() == height && forall|
            k: int,
        |
            0 <= k < height ==> #[trigger] pixels[k] == (if lump[offset] <= k < lump[offset]
                + lump[offset + 1] {
                Some(lump[offset + 3 + k - lump[offset]])
            } else {
                None
            }),
{
    reveal_with_fuel(spec_column_from, 2);
    let top = lump[offset] as int;
    let length = lump[offset + 1] as int;
    let drawn = Seq::new(
        blank_column(height).len(),
        |k: int|
            if top <= k < top + length {
                Some(lump[offset + 3 + k - top])
            } else {
                blank_column(height)[k]
            },
    );
    assert(spec_column_from(lump, offset + 3 + length + 1, drawn) == Some(drawn));
}

impl Patch {
    /// Decodes a picture lump: width and height (16-bit little-endian), four
    /// unused bytes, a 32-bit offset per column, and the columns' posts.
    pub fn new(lump: &[u8]) -> (r: Result<Patch, PictureError>)
        ensures
            match spec_picture_error(lump@) {
                Some(e) => r == Err::<Patch, PictureError>(e),
                None => r matches Ok(p) && p.width == le_u16(lump@, 0) && p.height == le_u16(
                    lump@,
                    2,
                ) && p.indices@ == spec_patch_indices(lump@),
            },
    {
        let n = lump.len();
        if n < 4 {
            return Err(PictureError::TooShort);
        }
        let width = read_u16_le(lump, 0);
        let height = read_u16_le(lump, 2);
        let table_end = match width.checked_mul(4) {
            Some(x) => match x.checked_add(8) {
                Some(e) => e,
                None => return Err(PictureError::SizeOverflow),
            },
            None => return Err(PictureError::SizeOverflow),
        };
        if table_end as usize > n {
            return Err(PictureError::TooShort);
        }
        let ghost w = width as int;
        let ghost h = height as int;
        let mut columns: Vec<Vec<u16>> = Vec::new();
        let mut c: u16 = 0;
        while c < width
            invariant
                n == lump@.len(),
                w == le_u16(lump@, 0),
                h == le_u16(lump@, 2),
                w == width,
                h == height,
                8 + 4 * w <= n,
                8 + 4 * w <= 0xFFFF,
                c <= width,
                columns@.len() == c,
                forall|j: int|
                    0 <= j < c ==> (#[trigger] spec_picture_column(lump@, j)) is Some
                        && columns@[j]@ == spec_picture_column(lump@, j).unwrap().map_values(
                        |p: Option<u8>| patch_pixel(p),
                    ) && columns@[j]@.len() == h,
            decreases width - c,
        {
            let at = 8 + 4 * (c as usize);
            let column_offset = read_u32_le(lump, at);
            let column = match parse_column(lump, column_offset as usize, height) {
                Ok(col) => col,
                Err(e) => {
                    assert(spec_picture_column(lump@, c as int) is None);
                    return Err(e);
                },
            };
            proof {
                lemma_column_len(lump@, column_offset as int, blank_column(h));
                assert(spec_picture_column(lump@, c as int) is Some);
            }
            columns.push(column);
            c = c + 1;
        }
        assert(forall|j: int| 0 <= j < w ==> (#[trigger] spec_picture_column(lump@, j)) is Some);
        if width.checked_mul(height).is_none() {
            return Err(PictureError::SizeOverflow);
        }
        let mut indices: Vec<u16> = Vec::new();
        let mut row: u16 = 0;
        while row < height
            invariant
                w == width,
                h == height,
                w * h <= 0xFFFF,
                row <= height,
                columns@.len() == w,
                forall|j: int|
                    0 <= j < w ==> (#[trigger] spec_picture_column(lump@, j)) is Some
                        && columns@[j]@ == spec_picture_column(lump@, j).unwrap().map_values(
                        |p: Option<u8>| patch_pixel(p),
                    ) && columns@[j]@.len() == h,
                indices@.len() == row * w,
                forall|x: int|
                    0 <= x < indices@.len() ==> #[trigger] indices@[x] == patch_pixel(
                        spec_picture_column(lump@, x % w).unwrap()[x / w],
                    ),
            decreases height - row,
        {
            let mut column: u16 = 0;
            while column < width
                invariant
                    w == width,
                    h == height,
                    w * h <= 0xFFFF,
                    row < height,
                    column <= width,
                    columns@.len() == w,
                    forall|j: int|
                        0 <= j < w ==> (#[trigger] spec_picture_column(lump@, j)) is Some
                            && columns@[j]@ == spec_picture_column(lump@, j).unwrap().map_values(
                            |p: Option<u8>| patch_pixel(p),
                        ) && columns@[j]@.len() == h,
                    indices@.len() == row * w + column,
                    forall|x: int|
                        0 <= x < indices@.len() ==> #[trigger] indices@[x] == patch_pixel(
                            spec_picture_column(lump@, x % w).unwrap()[x / w],
                        ),
                decreases width - column,
            {
                proof {
                    assert(spec_picture_column(lump@, column as int) is Some);
                    vstd::arithmetic::div_mod::lemma_fundamental_div_mod_converse(
                        row * w + column,
                        w,
                        row as int,
                        column as int,
                    );
                    assert(row * w + column < w * h) by (nonlinear_arith)
                        requires
                            row < h,
                            column < w,
                    ;
                }
                indices.push(columns[column as usize][row as usize]);
                column = column + 1;
            }
            proof {
                assert((row + 1) * w == row * w + w) by (nonlinear_arith);
            }
            row = row + 1;
        }
        assert(h * w == w * h) by (nonlinear_arith);
        let patch = Patch { width: width as u32, height: height as u32, indices };
        assert(patch.indices@ =~= spec_patch_indices(lump@));
        Ok(patch)
    }
}

} // verus!
