//! The material palette: one opaque packed color per material index. The
//! colors themselves come from a random generator; the palette's shape —
//! its length and the full opacity of every entry — is what this module
//! guarantees.

use vstd::prelude::*;
use crate::color::pack_color;
use crate::color::packed_color;

verus! {

/// The thread-local random generator of the `rand` crate; opaque here, only
/// carried between calls.
#[verifier::external_type_specification]
#[verifier::external_body]
pub struct ExThreadRng(rand::rngs::ThreadRng);

/// Relies on rand::Rng::gen_range over the inclusive range `lo..=hi`: the
/// sample lies within the range, and the call panics only on an empty
/// range, which the precondition rules out. Nothing more is assumed of a
/// random draw.
#[verifier::external_body]
fn random_in_byte_range(rng: &mut rand::rngs::ThreadRng, lo: u8, hi: u8) -> (r: u8)
    requires
        lo <= hi,
    ensures
        lo <= r <= hi,
{
    rand::Rng::gen_range(rng, lo..=hi)
}

/// Builds a palette of `n` randomly colored entries, one per material
/// index. Every entry is a packed color with a fully opaque alpha channel.
pub fn generate_palette(rng: &mut rand::rngs::ThreadRng, n: usize) -> (pal: Vec<u32>)
    ensures
        pal@.len() == n,
        forall|q: int| 0 <= q < n ==> ((#[trigger] pal@[q] >> 24) & 0xff) == 255,
{
    let mut pal: Vec<u32> = Vec::new();
    let mut i: usize = 0;
    while i < n
        invariant
            i <= n,
            pal@.len() == i,
            forall|q: int| 0 <= q < i ==> ((#[trigger] pal@[q] >> 24) & 0xff) == 255,
        decreases n - i,
    {
        let red = random_in_byte_range(rng, 0, 255);
        let green = random_in_byte_range(rng, 0, 255);
        let blue = random_in_byte_range(rng, 0, 255);
        let c = pack_color(red, green, blue);
        proof {
            assert(((c >> 24) & 0xff) == 255) by (bit_vector)
                requires
                    c == packed_color(red, green, blue, 255),
            ;
        }
        pal.push(c);
        i += 1;
    }
    pal
}

} // verus!
