//! Pixel-buffer conversion to raw 8-bit RGB.
//!
//! Radiance values are linear and unbounded; conversion clamps each channel
//! into `[0, 1]` and scales to `[0, 255]`, truncating. Encoding the raw
//! bytes into a file format is a collaborator's job.

use vstd::prelude::*;

use crate::fixed::FX_ONE;
use crate::math::Vec3;

verus! {

/// One channel, clamped to `[0, 1]` and scaled to an 8-bit value.
pub open spec fn spec_channel_to_raw(c: int) -> int {
    if c <= 0 {
        0
    } else if c >= FX_ONE {
        255
    } else {
        (c * 255) / (FX_ONE as int)
    }
}

/// One channel, clamped to `[0, 1]` and scaled to an 8-bit value.
pub fn channel_to_raw(chan: i64) -> (r: u8)
    ensures
        r == spec_channel_to_raw(chan as int),
{
    if chan <= 0 {
        0
    } else if chan >= FX_ONE {
        255
    } else {
        let scaled: u64 = (chan as u64) * 255 / 65536;
        proof {
            assert((chan as int) * 255 < 65536 * 256) by (nonlinear_arith)
                requires
                    0 < chan < 65536,
            ;
            assert((chan as int) * 255 / 65536 < 256) by {
                vstd::arithmetic::div_mod::lemma_multiply_divide_lt(
                    (chan as int) * 255,
                    65536,
                    256,
                );
            }
            assert((chan as int) * 255 / 65536 >= 0) by {
                vstd::arithmetic::div_mod::lemma_div_pos_is_pos((chan as int) * 255, 65536);
            }
        }
        scaled as u8
    }
}

/// Flatten a pixel buffer into row-major 8-bit RGB triples.
pub fn pixels_to_raw_rgb(pixels: &[Vec3]) -> (r: Vec<u8>)
    ensures
        r@.len() == 3 * pixels@.len(),
        forall|i: int|
            0 <= i < pixels@.len() ==> {
                &&& r@[3 * i] == spec_channel_to_raw((#[trigger] pixels@[i])@.x)
                &&& r@[3 * i + 1] == spec_channel_to_raw(pixels@[i]@.y)
                &&& r@[3 * i + 2] == spec_channel_to_raw(pixels@[i]@.z)
            },
{
    let mut raw_buf: Vec<u8> = Vec::new();
    let n = pixels.len();
    let mut i: usize = 0;
    while i < n
        invariant
            n == pixels@.len(),
            i <= n,
            raw_buf@.len() == 3 * i,
            forall|j: int|
                0 <= j < i ==> {
                    &&& raw_buf@[3 * j] == spec_channel_to_raw((#[trigger] pixels@[j])@.x)
                    &&& raw_buf@[3 * j + 1] == spec_channel_to_raw(pixels@[j]@.y)
                    &&& raw_buf@[3 * j + 2] == spec_channel_to_raw(pixels@[j]@.z)
                },
        decreases n - i,
    {
        let pixel = pixels[i];
        raw_buf.push(channel_to_raw(pixel.x));
        raw_buf.push(channel_to_raw(pixel.y));
        raw_buf.push(channel_to_raw(pixel.z));
        i = i + 1;
    }
    raw_buf
}

} // verus!
