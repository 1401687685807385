//! Scans for a varying alpha channel.
use crate::filter_weights::lemma_row_index;
use crate::sample::{lemma_values_in_range, values, Sample};
use vstd::prelude::*;

verus! {

/// Some pixel of a whole row of `width` pixels has an alpha sample (channel
/// `alpha_index`) that differs from the alpha sample of the first pixel.
pub open spec fn alpha_varies(store: Seq<int>, width: int, alpha_index: int, channels: int) -> bool {
    &&& store.len() > alpha_index
    &&& exists|p: int|
        0 <= p < (store.len() as int / (width * channels)) * width && #[trigger] store[p * channels
            + alpha_index] != store[alpha_index]
}

#[verifier::loop_isolation(false)]
fn has_non_constant_alpha<T: Sample>(
    store: &[T],
    width: usize,
    alpha_index: usize,
    channels: usize,
) -> (r: bool)
    requires
        1 <= channels <= 4,
        alpha_index < channels,
        store@.len() > 0 ==> 0 < width && width * channels <= usize::MAX,
    ensures
        r == alpha_varies(values(store@), width as int, alpha_index as int, channels as int),
{
    let ghost vals = values(store@);
    proof {
        lemma_values_in_range(store@);
    }
    if store.len() <= alpha_index {
        return false;
    }
    let first = store[alpha_index].widen();
    let row = width * channels;
    proof {
        assert(row >= 1) by (nonlinear_arith)
            requires
                row == width * channels,
                0 < width,
                1 <= channels,
        ;
    }
    let rows = store.len() / row;
    proof {
        vstd::arithmetic::div_mod::lemma_fundamental_div_mod(store@.len() as int, row as int);
        vstd::arithmetic::div_mod::lemma_mod_pos_bound(store@.len() as int, row as int);
        assert(rows * row <= store@.len()) by (nonlinear_arith)
            requires
                store@.len() == row * rows + store@.len() as int % row as int,
                0 <= store@.len() as int % row as int,
        ;
        assert(rows * width * channels == rows * row) by (nonlinear_arith)
            requires
                row == width * channels,
        ;
        assert(rows * width <= rows * row) by (nonlinear_arith)
            requires
                row == width * channels,
                1 <= channels,
                0 <= rows,
        ;
    }
    let n = rows * width;
    let mut p: usize = 0;
    while p < n
        invariant
            p <= n,
            n == rows * width,
            rows * width * channels <= store@.len(),
            vals == values(store@),
            vals.len() == store@.len(),
            first == vals[alpha_index as int],
            forall|i: int| 0 <= i < store@.len() ==> #[trigger] vals[i] == store@[i].value(),
            forall|pp: int| 0 <= pp < p ==> #[trigger] vals[pp * channels + alpha_index] == first,
        decreases n - p,
    {
        proof {
            lemma_row_index(p as int, alpha_index as int, channels as int, n as int);
        }
        if store[p * channels + alpha_index].widen() != first {
            proof {
                assert(vals[p * channels + alpha_index] != vals[alpha_index as int]);
                assert((vals.len() as int / (width * channels)) * width == n);
            }
            return true;
        }
        p = p + 1;
    }
    false
}

/// Whether an RGBA image with 8 bits per sample has varying alpha.
pub fn has_non_constant_alpha_rgba8(store: &[u8], width: usize) -> (r: bool)
    requires
        store@.len() > 0 ==> 0 < width && width * 4 <= usize::MAX,
    ensures
        r == alpha_varies(values(store@), width as int, 3, 4),
{
    has_non_constant_alpha(store, width, 3, 4)
}

/// Whether a luma-alpha image with 8 bits per sample has varying alpha.
pub fn has_non_constant_alpha_la8(store: &[u8], width: usize) -> (r: bool)
    requires
        store@.len() > 0 ==> 0 < width && width * 2 <= usize::MAX,
    ensures
        r == alpha_varies(values(store@), width as int, 1, 2),
{
    has_non_constant_alpha(store, width, 1, 2)
}

/// Whether an RGBA image with 16-bit samples has varying alpha.
pub fn has_non_constant_alpha_rgba16(store: &[u16], width: usize) -> (r: bool)
    requires
        store@.len() > 0 ==> 0 < width && width * 4 <= usize::MAX,
    ensures
        r == alpha_varies(values(store@), width as int, 3, 4),
{
    has_non_constant_alpha(store, width, 3, 4)
}

/// Whether a luma-alpha image with 16-bit samples has varying alpha.
pub fn has_non_constant_alpha_la16(store: &[u16], width: usize) -> (r: bool)
    requires
        store@.len() > 0 ==> 0 < width && width * 2 <= usize::MAX,
    ensures
        r == alpha_varies(values(store@), width as int, 1, 2),
{
    has_non_constant_alpha(store, width, 1, 2)
}

} // verus!
