//! Transfer-curve conversion through a lookup table, in place.
//!
//! The table maps each sample value to its converted value; alpha (the last
//! channel of a two- or four-channel pixel) is left as it is.
use crate::filter_weights::lemma_row_index;
use crate::resize_fixed_point::depth_max;
use crate::sample::{lemma_values_in_range, values, Sample};
use vstd::prelude::*;

verus! {

/// Number of leading channels of a pixel that the table converts.
pub open spec fn color_channels(channels: int) -> int {
    if channels <= 2 {
        1
    } else {
        3
    }
}

/// Sample `i` of a buffer of pixels is converted: it is a color sample of a
/// whole pixel.
pub open spec fn is_color_sample(len: int, channels: int, i: int) -> bool {
    i < (len / channels) * channels && i % channels < color_channels(channels)
}

/// `new` is `old` with every color sample `s` of a whole pixel replaced by
/// `lut[s]`.
pub open spec fn lut_applied(old: Seq<int>, new: Seq<int>, channels: int, lut: Seq<int>) -> bool {
    &&& new.len() == old.len()
    &&& forall|i: int|
        0 <= i < old.len() ==> #[trigger] new[i] == if is_color_sample(old.len() as int, channels, i) {
            lut[old[i]]
        } else {
            old[i]
        }
}

/// Every color sample of `old` indexes into a table of `lut_len` entries.
pub open spec fn lut_covers(old: Seq<int>, channels: int, lut_len: int) -> bool {
    forall|i: int|
        0 <= i < old.len() && is_color_sample(old.len() as int, channels, i) ==> #[trigger] old[i]
            < lut_len
}

#[verifier::loop_isolation(false)]
fn apply_lut<T: Sample>(in_place: &mut [T], channels: usize, lut: &[T])
    requires
        1 <= channels <= 4,
        lut_covers(values(old(in_place)@), channels as int, lut@.len() as int),
    ensures
        lut_applied(values(old(in_place)@), values(final(in_place)@), channels as int, values(lut@)),
{
    let ghost old_vals = values(in_place@);
    proof {
        lemma_values_in_range(in_place@);
        lemma_values_in_range(lut@);
    }
    let len = in_place.len();
    let n = len / channels;
    let cc: usize = if channels <= 2 {
        1
    } else {
        3
    };
    proof {
        vstd::arithmetic::div_mod::lemma_fundamental_div_mod(len as int, channels as int);
        vstd::arithmetic::div_mod::lemma_mod_pos_bound(len as int, channels as int);
        assert(n * channels == channels * n) by (nonlinear_arith);
    }
    let mut q: usize = 0;
    while q < n
        invariant
            q <= n,
            in_place@.len() == len,
            n * channels <= len,
            forall|i: int|
                0 <= i < q * channels ==> #[trigger] in_place@[i].value() == if is_color_sample(
                    len as int,
                    channels as int,
                    i,
                ) {
                    values(lut@)[old_vals[i]]
                } else {
                    old_vals[i]
                },
            forall|i: int| q * channels <= i < len ==> #[trigger] in_place@[i].value() == old_vals[i],
        decreases n - q,
    {
        proof {
            lemma_row_index(q as int, 0, channels as int, n as int);
        }
        let base = q * channels;
        let mut k: usize = 0;
        while k < cc
            invariant
                k <= cc,
                cc == color_channels(channels as int),
                in_place@.len() == len,
                base == q * channels,
                base + channels <= n * channels,
                forall|i: int|
                    0 <= i < base ==> #[trigger] in_place@[i].value() == if is_color_sample(
                        len as int,
                        channels as int,
                        i,
                    ) {
                        values(lut@)[old_vals[i]]
                    } else {
                        old_vals[i]
                    },
                forall|j: int|
                    0 <= j < k ==> #[trigger] in_place@[base + j].value() == values(lut@)[old_vals[base
                        + j]],
                forall|i: int| base + k <= i < len ==> #[trigger] in_place@[i].value() == old_vals[i],
            decreases cc - k,
        {
            proof {
                vstd::arithmetic::div_mod::lemma_fundamental_div_mod_converse(
                    base + k,
                    channels as int,
                    q as int,
                    k as int,
                );
                assert(base + k < n * channels);
                assert(base + k < (len as int / channels as int) * channels);
                assert(is_color_sample(len as int, channels as int, base + k));
                assert(old_vals[base + k] == in_place@[base + k].value());
            }
            let s = in_place[base + k].widen() as usize;
            let v = lut[s];
            proof {
                assert(v.value() == values(lut@)[s as int]);
            }
            in_place[base + k] = v;
            k = k + 1;
        }
        proof {
            assert((q + 1) * channels == base + channels) by (nonlinear_arith)
                requires
                    base == q * channels,
            ;
            assert forall|i: int| 0 <= i < (q + 1) * channels implies #[trigger] in_place@[i].value()
                == if is_color_sample(len as int, channels as int, i) {
                values(lut@)[old_vals[i]]
            } else {
                old_vals[i]
            } by {
                if i >= base {
                    let j = i - base;
                    vstd::arithmetic::div_mod::lemma_fundamental_div_mod_converse(
                        i,
                        channels as int,
                        q as int,
                        j,
                    );
                    assert(i < (len as int / channels as int) * channels);
                    if j < cc {
                        assert(in_place@[base + j].value() == values(lut@)[old_vals[base + j]]);
                    } else {
                        assert(in_place@[i].value() == old_vals[i]);
                    }
                }
            }
        }
        q = q + 1;
    }
    proof {
        lemma_values_in_range(in_place@);
        let new_vals = values(in_place@);
        assert forall|i: int| 0 <= i < len implies #[trigger] new_vals[i] == if is_color_sample(
            len as int,
            channels as int,
            i,
        ) {
            values(lut@)[old_vals[i]]
        } else {
            old_vals[i]
        } by {
            assert(in_place@[i].value() == new_vals[i]);
            if i >= n * channels {
                assert(!(i < (len as int / channels as int) * channels));
            }
        }
    }
}

/// Converts the color samples of an 8-bit image through `lut` (256 entries,
/// built from the transfer curve's linearization).
pub fn image_to_linear(in_place: &mut [u8], channels: usize, lut: &[u8])
    requires
        1 <= channels <= 4,
        lut@.len() == 256,
    ensures
        lut_applied(values(old(in_place)@), values(final(in_place)@), channels as int, values(lut@)),
{
    proof {
        lemma_values_in_range(in_place@);
    }
    apply_lut(in_place, channels, lut);
}

/// Converts the color samples of an 8-bit linear image through `lut` (256
/// entries, built from the transfer curve's gamma).
pub fn linear_to_gamma_image(in_place: &mut [u8], channels: usize, lut: &[u8])
    requires
        1 <= channels <= 4,
        lut@.len() == 256,
    ensures
        lut_applied(values(old(in_place)@), values(final(in_place)@), channels as int, values(lut@)),
{
    proof {
        lemma_values_in_range(in_place@);
    }
    apply_lut(in_place, channels, lut);
}

/// Converts the color samples of an image with `bit_depth` significant bits
/// through `lut` (`2^bit_depth` entries, built from the linearization).
pub fn image16_to_linear16(in_place: &mut [u16], channels: usize, bit_depth: u32, lut: &[u16])
    requires
        1 <= channels <= 4,
        1 <= bit_depth <= 16,
        lut@.len() == depth_max(bit_depth as int) + 1,
        lut_covers(values(old(in_place)@), channels as int, lut@.len() as int),
    ensures
        lut_applied(values(old(in_place)@), values(final(in_place)@), channels as int, values(lut@)),
{
    apply_lut(in_place, channels, lut);
}

/// Converts the color samples of a linear image with `bit_depth`
/// significant bits through `lut` (`2^bit_depth` entries, built from the
/// gamma).
pub fn linear16_to_gamma_image16(in_place: &mut [u16], channels: usize, bit_depth: u32, lut: &[u16])
    requires
        1 <= channels <= 4,
        1 <= bit_depth <= 16,
        lut@.len() == depth_max(bit_depth as int) + 1,
        lut_covers(values(old(in_place)@), channels as int, lut@.len() as int),
    ensures
        lut_applied(values(old(in_place)@), values(final(in_place)@), channels as int, values(lut@)),
{
    apply_lut(in_place, channels, lut);
}

} // verus!
