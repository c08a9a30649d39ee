//! Packing and unpacking of 4-channel 8-bit colors in a single 32-bit word.
//!
//! Layout: `(a << 24) | (b << 16) | (g << 8) | r`. Every color produced by
//! this crate is fully opaque (alpha 255).

use vstd::prelude::*;

verus! {

/// The packed 32-bit word for channels `(r, g, b, a)`:
/// `(a << 24) | (b << 16) | (g << 8) | r`.
pub open spec fn packed_color(r: u8, g: u8, b: u8, a: u8) -> u32 {
    ((a as u32) << 24) | ((b as u32) << 16) | ((g as u32) << 8) | (r as u32)
}

/// Packs three 8-bit channels and a fully opaque alpha into one 32-bit word.
pub fn pack_color(r: u8, g: u8, b: u8) -> (c: u32)
    ensures
        c == packed_color(r, g, b, 255),
{
    let a: u8 = 255;
    proof {
        assert(((a as u32) << 24) + ((b as u32) << 16) + ((g as u32) << 8) + (r as u32)
            == ((a as u32) << 24) | ((b as u32) << 16) | ((g as u32) << 8) | (r as u32))
            by (bit_vector);
        assert(((a as u32) << 24) + ((b as u32) << 16) + ((g as u32) << 8) + (r as u32)
            <= 0xffff_ffff) by (bit_vector);
    }
    ((a as u32) << 24) + ((b as u32) << 16) + ((g as u32) << 8) + (r as u32)
}

/// Extracts the four 8-bit channels `(r, g, b, a)` of a packed 32-bit color.
/// Exact inverse of the packed layout for every 32-bit value.
pub fn unpack_color(color: u32) -> (c: (u8, u8, u8, u8))
    ensures
        c.0 == (color & 0xff) as u8,
        c.1 == ((color >> 8) & 0xff) as u8,
        c.2 == ((color >> 16) & 0xff) as u8,
        c.3 == ((color >> 24) & 0xff) as u8,
        packed_color(c.0, c.1, c.2, c.3) == color,
{
    proof {
        assert((color & 255) < 256 && ((color >> 8) & 255) < 256
            && ((color >> 16) & 255) < 256 && ((color >> 24) & 255) < 256) by (bit_vector);
    }
    let r: u8 = (color & 255) as u8;
    let g: u8 = ((color >> 8) & 255) as u8;
    let b: u8 = ((color >> 16) & 255) as u8;
    let a: u8 = ((color >> 24) & 255) as u8;
    proof {
        assert(packed_color(
            ((color & 0xff) as u8),
            (((color >> 8) & 0xff) as u8),
            (((color >> 16) & 0xff) as u8),
            (((color >> 24) & 0xff) as u8),
        ) == color) by (bit_vector);
    }
    (r, g, b, a)
}

/// Flattens a packed image into the 3-bytes-per-pixel payload of a binary
/// RGB image: for each pixel in row-major order its red, green and blue
/// channels, with the alpha channel dropped.
pub fn rgb_payload(image: &Vec<u32>) -> (out: Vec<u8>)
    ensures
        out@.len() == 3 * image@.len(),
        forall|q: int|
            0 <= q < image@.len() ==> out@[3 * q] == ((#[trigger] image@[q]) & 0xff) as u8 && out@[
                3 * q + 1] == ((image@[q] >> 8) & 0xff) as u8 && out@[3 * q + 2] == ((image@[q]
                >> 16) & 0xff) as u8,
{
    let mut out: Vec<u8> = Vec::new();
    let mut k: usize = 0;
    while k < image.len()
        invariant
            k <= image@.len(),
            out@.len() == 3 * k,
            forall|q: int|
                0 <= q < k ==> out@[3 * q] == ((#[trigger] image@[q]) & 0xff) as u8 && out@[3 * q
                    + 1] == ((image@[q] >> 8) & 0xff) as u8 && out@[3 * q + 2] == ((image@[q]
                    >> 16) & 0xff) as u8,
        decreases image@.len() - k,
    {
        let (red, green, blue, _alpha) = unpack_color(image[k]);
        out.push(red);
        out.push(green);
        out.push(blue);
        k += 1;
    }
    out
}

/// Unpacking is the exact inverse of packing: for all 8-bit channels,
/// the packed word decodes back to `(r, g, b, 255)`.
pub proof fn lemma_pack_unpack_roundtrip(r: u8, g: u8, b: u8)
    ensures
        (packed_color(r, g, b, 255) & 0xff) as u8 == r,
        ((packed_color(r, g, b, 255) >> 8) & 0xff) as u8 == g,
        ((packed_color(r, g, b, 255) >> 16) & 0xff) as u8 == b,
        ((packed_color(r, g, b, 255) >> 24) & 0xff) as u8 == 255,
{
    assert((packed_color(r, g, b, 255) & 0xff) as u8 == r) by (bit_vector);
    assert(((packed_color(r, g, b, 255) >> 8) & 0xff) as u8 == g) by (bit_vector);
    assert(((packed_color(r, g, b, 255) >> 16) & 0xff) as u8 == b) by (bit_vector);
    assert(((packed_color(r, g, b, 255) >> 24) & 0xff) as u8 == 255) by (bit_vector);
}

} // verus!
