//! The column (vertical) pass of the fixed-point engine.
use crate::color_group::lemma_product_fits;
use crate::filter_weights::{dot, lemma_row_index, lemma_tap_sum_fits, FilterPlan};
use crate::sample::{
    in_range, lemma_values_in_range, narrow, saturate_narrow, values, Sample, ROUNDING_CONST,
};
use vstd::prelude::*;

verus! {

/// Tap `k` of flat column `xc` (pixel times channels plus channel) for a span
/// starting at input row `start`.
pub open spec fn column_taps(img: Seq<int>, start: int, stride: int, xc: int) -> spec_fn(
    int,
) -> int {
    |k: int| img[(start + k) * stride + xc]
}

/// Sample `xc` of output row `y` of the column pass over rows of `stride`
/// samples.
pub open spec fn vertical_sample(
    img: Seq<int>,
    stride: int,
    plan: FilterPlan,
    max_value: int,
    y: int,
    xc: int,
) -> int {
    narrow(
        ROUNDING_CONST + dot(
            plan.weights@,
            plan.row_base(y),
            plan.bounds@[y].size as nat,
            column_taps(img, plan.bounds@[y].start as int, stride, xc),
        ),
        max_value,
    )
}

/// Computes output row `y` of the column pass: one accumulator per sample
/// of the row, each tap of the span added to all of them in turn.
#[verifier::loop_isolation(false)]
pub fn column_handler_fixed_point<T: Sample>(
    src: &[T],
    stride: usize,
    dst: &mut Vec<T>,
    y: usize,
    plan: &FilterPlan,
    max_value: i64,
)
    requires
        plan.wf(),
        y < plan.out_size,
        0 <= max_value <= T::type_max(),
        plan.in_size * stride <= src@.len(),
        (y + 1) * stride <= old(dst)@.len(),
    ensures
        final(dst)@.len() == old(dst)@.len(),
        forall|xc: int|
            0 <= xc < stride ==> (#[trigger] final(dst)@[y * stride + xc]).value()
                == vertical_sample(values(src@), stride as int, *plan, max_value as int, y as int, xc),
        forall|i: int|
            0 <= i < old(dst)@.len() && !(y * stride <= i < y * stride + stride)
                ==> #[trigger] final(dst)@[i] == old(dst)@[i],
{
    let ghost img = values(src@);
    let wl = plan.weights.len();
    let sl = src.len();
    let dl = dst.len();
    proof {
        lemma_values_in_range(src@);
        T::lemma_type_max();
    }
    let a = plan.aligned_size;
    let b = plan.bounds[y];
    proof {
        assert(plan.bounds@[y as int] == b);
        lemma_row_index(y as int, 0, a as int, plan.out_size as int);
        lemma_row_index(y as int, 0, stride as int, (y + 1) as int);
    }
    let base = y * a;
    let mut acc: Vec<i64> = Vec::new();
    let mut xc: usize = 0;
    while xc < stride
        invariant
            xc <= stride,
            acc@.len() == xc,
            forall|j: int| 0 <= j < xc ==> #[trigger] acc@[j] == ROUNDING_CONST,
        decreases stride - xc,
    {
        acc.push(ROUNDING_CONST);
        xc = xc + 1;
    }
    let mut k: usize = 0;
    while k < b.size
        invariant
            k <= b.size,
            acc@.len() == stride,
            forall|j: int|
                0 <= j < stride ==> #[trigger] acc@[j] == ROUNDING_CONST + dot(
                    plan.weights@,
                    base as int,
                    k as nat,
                    column_taps(img, b.start as int, stride as int, j),
                ),
        decreases b.size - k,
    {
        proof {
            lemma_row_index(y as int, k as int, a as int, plan.out_size as int);
            lemma_row_index((b.start + k) as int, 0, stride as int, plan.in_size as int);
        }
        let w = plan.weights[base + k] as i64;
        let off = (b.start + k) * stride;
        let mut xc: usize = 0;
        while xc < stride
            invariant
                xc <= stride,
                acc@.len() == stride,
                off == (b.start + k) * stride,
                w == plan.weights@[base + k],
                forall|j: int|
                    0 <= j < xc ==> #[trigger] acc@[j] == ROUNDING_CONST + dot(
                        plan.weights@,
                        base as int,
                        (k + 1) as nat,
                        column_taps(img, b.start as int, stride as int, j),
                    ),
                forall|j: int|
                    xc <= j < stride ==> #[trigger] acc@[j] == ROUNDING_CONST + dot(
                        plan.weights@,
                        base as int,
                        k as nat,
                        column_taps(img, b.start as int, stride as int, j),
                    ),
            decreases stride - xc,
        {
            let v = src[off + xc].widen();
            proof {
                let taps = column_taps(img, b.start as int, stride as int, xc as int);
                assert forall|t: int| 0 <= t < k + 1 implies 0 <= #[trigger] taps(t)
                    <= T::type_max() by {
                    lemma_row_index((b.start + t) as int, xc as int, stride as int, plan.in_size as int);
                }
                assert(taps(k as int) == v);
                lemma_tap_sum_fits(
                    plan.weights@,
                    base as int,
                    b.size as nat,
                    (k + 1) as nat,
                    taps,
                    T::type_max(),
                );
                lemma_product_fits(v as int, w as int);
                assert(v * w == w * v) by (nonlinear_arith);
            }
            let cur = acc[xc];
            acc.set(xc, cur + w * v);
            xc = xc + 1;
        }
        k = k + 1;
    }
    let row = y * stride;
    let mut xc: usize = 0;
    while xc < stride
        invariant
            xc <= stride,
            row == y * stride,
            dst@.len() == old(dst)@.len(),
            forall|j: int|
                0 <= j < xc ==> (#[trigger] dst@[row + j]).value() == vertical_sample(
                    img,
                    stride as int,
                    *plan,
                    max_value as int,
                    y as int,
                    j,
                ),
            forall|i: int|
                0 <= i < old(dst)@.len() && !(row <= i < row + xc) ==> #[trigger] dst@[i]
                    == old(dst)@[i],
        decreases stride - xc,
    {
        let v = saturate_narrow(acc[xc], max_value);
        dst.set(row + xc, T::from_narrowed(v));
        xc = xc + 1;
    }
}

} // verus!
