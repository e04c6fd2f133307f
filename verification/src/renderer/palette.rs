//! Palettes converted from RGB to RGBA for an `Rgba8UnormSrgb` texture.
use vstd::prelude::*;

verus! {

/// The RGBA bytes of RGB bytes: each whole RGB triple, followed by an opaque
/// alpha of 255; trailing bytes that make no whole triple are dropped.
pub open spec fn spec_rgb_to_rgba(rgb: Seq<u8>) -> Seq<u8> {
    Seq::new(
        ((rgb.len() / 3) * 4) as nat,
        |x: int|
            if x % 4 == 3 {
                255u8
            } else {
                rgb[(x / 4) * 3 + x % 4]
            },
    )
}

/// The 768 bytes of a palette: color after color, red, green, blue.
pub open spec fn palette_bytes_view(palette: [[u8; 3]; 256]) -> Seq<u8> {
    Seq::new(768, |x: int| palette@[x / 3]@[x % 3])
}

/// Converts RGB bytes to RGBA (see [`spec_rgb_to_rgba`]).
pub fn rgb_to_rgba(rgb_bytes: &[u8]) -> (r: Vec<u8>)
    requires
        rgb_bytes@.len() * 4 <= usize::MAX,
    ensures
        r@ == spec_rgb_to_rgba(rgb_bytes@),
{
    let n = rgb_bytes.len();
    let chunks = n / 3;
    let mut rgba_bytes: Vec<u8> = Vec::new();
    let mut i: usize = 0;
    while i < chunks
        invariant
            n == rgb_bytes@.len(),
            chunks == n / 3,
            i <= chunks,
            rgba_bytes@.len() == 4 * i,
            forall|x: int|
                0 <= x < rgba_bytes@.len() ==> #[trigger] rgba_bytes@[x] == spec_rgb_to_rgba(
                    rgb_bytes@,
                )[x],
        decreases chunks - i,
    {
        let at = 3 * i;
        rgba_bytes.push(rgb_bytes[at]);
        rgba_bytes.push(rgb_bytes[at + 1]);
        rgba_bytes.push(rgb_bytes[at + 2]);
        rgba_bytes.push(255);
        proof {
            assert forall|j: int| 0 <= j < 4 implies #[trigger] rgba_bytes@[4 * i + j]
                == spec_rgb_to_rgba(rgb_bytes@)[4 * i + j] by {
                vstd::arithmetic::div_mod::lemma_fundamental_div_mod_converse(
                    4 * i + j,
                    4,
                    i as int,
                    j,
                );
            }
            assert forall|x: int| 0 <= x < rgba_bytes@.len() implies #[trigger] rgba_bytes@[x]
                == spec_rgb_to_rgba(rgb_bytes@)[x] by {
                if x >= 4 * i {
                    assert(rgba_bytes@[4 * i + (x - 4 * i)] == spec_rgb_to_rgba(rgb_bytes@)[4 * i
                        + (x - 4 * i)]);
                }
            }
        }
        i = i + 1;
    }
    assert(rgba_bytes@ =~= spec_rgb_to_rgba(rgb_bytes@));
    rgba_bytes
}

/// Calls `bytemuck::cast_slice` to view a palette as its 768 bytes and copies
/// them: byte `x` is component `x % 3` of color `x / 3`. Casting to bytes never
/// fails.
#[verifier::external_body]
fn palette_bytes(palette: &[[u8; 3]; 256]) -> (r: Vec<u8>)
    ensures
        r@ == palette_bytes_view(*palette),
{
    bytemuck::cast_slice::<[u8; 3], u8>(&palette[..]).to_vec()
}

/// The RGBA bytes of a palette, ready for a 256-texel texture.
pub fn palette_rgba(palette: &[[u8; 3]; 256]) -> (r: Vec<u8>)
    ensures
        r@ == spec_rgb_to_rgba(palette_bytes_view(*palette)),
{
    let bytes = palette_bytes(palette);
    rgb_to_rgba(bytes.as_slice())
}


/// RGBA conversion keeps every whole RGB triple, in order, and makes each
/// color opaque; it yields four bytes per triple.
pub proof fn lemma_rgba_keeps_rgb(rgb: Seq<u8>)
    ensures
        spec_rgb_to_rgba(rgb).len() == 4 * (rgb.len() / 3),
        forall|i: int, j: int|
            0 <= i < rgb.len() / 3 && 0 <= j < 3 ==> #[trigger] spec_rgb_to_rgba(rgb)[4 * i + j]
                == rgb[3 * i + j],
        forall|i: int| 0 <= i < rgb.len() / 3 ==> #[trigger] spec_rgb_to_rgba(rgb)[4 * i + 3] == 255,
{
    assert forall|i: int, j: int| 0 <= i < rgb.len() / 3 && 0 <= j < 3 implies #[trigger] spec_rgb_to_rgba(
        rgb,
    )[4 * i + j] == rgb[3 * i + j] by {
        vstd::arithmetic::div_mod::lemma_fundamental_div_mod_converse(4 * i + j, 4, i, j);
    }
    assert forall|i: int| 0 <= i < rgb.len() / 3 implies #[trigger] spec_rgb_to_rgba(rgb)[4 * i + 3]
        == 255 by {
        vstd::arithmetic::div_mod::lemma_fundamental_div_mod_converse(4 * i + 3, 4, i, 3);
    }
}

} // verus!
