//! Whole-image passes of the fixed-point engine.
use crate::filter_weights::{lemma_row_index, lemma_split_index, FilterPlan};
use crate::fixed_point_horizontal::{
    convolve_row_handler_fixed_point, convolve_row_handler_fixed_point_4, horizontal_sample,
};
use crate::fixed_point_vertical::{column_handler_fixed_point, vertical_sample};
use crate::sample::{values, Sample};
use vstd::prelude::*;

verus! {

/// The horizontal pass over `height` rows of `plan.in_size` pixels with
/// `channels` samples each.
pub open spec fn horizontal_pass(
    img: Seq<int>,
    height: nat,
    channels: nat,
    plan: FilterPlan,
    max_value: int,
) -> Seq<int> {
    let os = plan.out_size * channels;
    Seq::new(
        (height * os) as nat,
        |i: int|
            horizontal_sample(
                img,
                (i / os) * (plan.in_size * channels),
                channels as int,
                plan,
                max_value,
                (i % os) / channels as int,
                (i % os) % channels as int,
            ),
    )
}

/// The vertical pass over rows of `stride` samples.
pub open spec fn vertical_pass(img: Seq<int>, stride: nat, plan: FilterPlan, max_value: int) -> Seq<
    int,
> {
    Seq::new(
        (plan.out_size * stride) as nat,
        |i: int| vertical_sample(img, stride as int, plan, max_value, i / stride as int, i % stride as int),
    )
}

pub fn zeroed<T: Sample>(len: usize) -> (r: Vec<T>)
    ensures
        r@.len() == len,
{
    let mut r: Vec<T> = Vec::new();
    let mut i: usize = 0;
    while i < len
        invariant
            i <= len,
            r@.len() == i,
        decreases len - i,
    {
        proof {
            T::lemma_type_max();
        }
        r.push(T::from_narrowed(0));
        i = i + 1;
    }
    r
}

/// Applies `plan` along every row of an image of `height` rows.
pub fn convolve_row_fixed_point<T: Sample>(
    src: &[T],
    height: usize,
    channels: usize,
    plan: &FilterPlan,
    max_value: i64,
) -> (dst: Vec<T>)
    requires
        1 <= channels <= 4,
        plan.wf(),
        0 <= max_value <= T::type_max(),
        plan.in_size * channels <= usize::MAX,
        plan.out_size * channels <= usize::MAX,
        src@.len() == height * (plan.in_size * channels),
        height * (plan.out_size * channels) <= usize::MAX,
    ensures
        values(dst@) == horizontal_pass(
            values(src@),
            height as nat,
            channels as nat,
            *plan,
            max_value as int,
        ),
{
    let in_stride = plan.in_size * channels;
    let sl = src.len();
    let out_stride = plan.out_size * channels;
    let mut dst: Vec<T> = zeroed(height * out_stride);
    let ghost img = values(src@);
    let mut y: usize = 0;
    let tiles = in_stride.checked_mul(4).is_some() && out_stride.checked_mul(4).is_some();
    if tiles {
        while y < height && height - y >= 4
            invariant
                1 <= channels <= 4,
                plan.wf(),
                0 <= max_value <= T::type_max(),
                in_stride == plan.in_size * channels,
                out_stride == plan.out_size * channels,
                4 * in_stride <= usize::MAX,
                4 * out_stride <= usize::MAX,
                src@.len() == height * in_stride,
                sl == src@.len(),
                height * out_stride <= usize::MAX,
                dst@.len() == height * out_stride,
                img == values(src@),
                y <= height,
                forall|yy: int, x: int, c: int|
                    0 <= yy < y && 0 <= x < plan.out_size && 0 <= c < channels ==> (
                    #[trigger] dst@[yy * out_stride + x * channels + c]).value() == horizontal_sample(
                        img,
                        yy * in_stride,
                        channels as int,
                        *plan,
                        max_value as int,
                        x,
                        c,
                    ),
            decreases height - y,
        {
            proof {
                assert((y + 4) * in_stride <= height * in_stride) by (nonlinear_arith)
                    requires
                        y + 4 <= height,
                        0 <= in_stride,
                ;
                assert((y + 4) * out_stride <= height * out_stride) by (nonlinear_arith)
                    requires
                        y + 4 <= height,
                        0 <= out_stride,
                ;
                assert((y + 4) * in_stride == y * in_stride + 4 * in_stride) by (nonlinear_arith);
                assert((y + 4) * out_stride == y * out_stride + 4 * out_stride) by (nonlinear_arith);
            }
            let ghost before = dst@;
            convolve_row_handler_fixed_point_4(
                src,
                y * in_stride,
                in_stride,
                &mut dst,
                y * out_stride,
                out_stride,
                channels,
                plan,
                max_value,
            );
            proof {
                assert forall|yy: int, x: int, c: int|
                    0 <= yy < y + 4 && 0 <= x < plan.out_size && 0 <= c < channels implies (
                #[trigger] dst@[yy * out_stride + x * channels + c]).value() == horizontal_sample(
                    img,
                    yy * in_stride,
                    channels as int,
                    *plan,
                    max_value as int,
                    x,
                    c,
                ) by {
                    lemma_row_index(x, c, channels as int, plan.out_size as int);
                    if yy < y {
                        lemma_row_index(yy, 0, out_stride as int, y as int);
                        assert(before[yy * out_stride + x * channels + c]
                            == dst@[yy * out_stride + x * channels + c]);
                    } else {
                        let r = yy - y;
                        assert(yy * out_stride == y * out_stride + r * out_stride) by (nonlinear_arith)
                            requires
                                r == yy - y,
                        ;
                        assert(yy * in_stride == y * in_stride + r * in_stride) by (nonlinear_arith)
                            requires
                                r == yy - y,
                        ;
                    }
                }
            }
            y = y + 4;
        }
    }
    while y < height
        invariant
            1 <= channels <= 4,
            plan.wf(),
            0 <= max_value <= T::type_max(),
            in_stride == plan.in_size * channels,
            out_stride == plan.out_size * channels,
            src@.len() == height * in_stride,
            sl == src@.len(),
            height * out_stride <= usize::MAX,
            dst@.len() == height * out_stride,
            img == values(src@),
            y <= height,
            forall|yy: int, x: int, c: int|
                0 <= yy < y && 0 <= x < plan.out_size && 0 <= c < channels ==> (#[trigger] dst@[yy
                    * out_stride + x * channels + c]).value() == horizontal_sample(
                    img,
                    yy * in_stride,
                    channels as int,
                    *plan,
                    max_value as int,
                    x,
                    c,
                ),
        decreases height - y,
    {
        proof {
            lemma_row_index(y as int, 0, in_stride as int, height as int);
            lemma_row_index(y as int, 0, out_stride as int, height as int);
        }
        let ghost before = dst@;
        convolve_row_handler_fixed_point(
            src,
            y * in_stride,
            &mut dst,
            y * out_stride,
            channels,
            plan,
            max_value,
        );
        proof {
            assert forall|yy: int, x: int, c: int|
                0 <= yy < y + 1 && 0 <= x < plan.out_size && 0 <= c < channels implies (
            #[trigger] dst@[yy * out_stride + x * channels + c]).value() == horizontal_sample(
                img,
                yy * in_stride,
                channels as int,
                *plan,
                max_value as int,
                x,
                c,
            ) by {
                lemma_row_index(x, c, channels as int, plan.out_size as int);
                if yy < y {
                    lemma_row_index(yy, 0, out_stride as int, y as int);
                    assert(before[yy * out_stride + x * channels + c]
                        == dst@[yy * out_stride + x * channels + c]);
                }
            }
        }
        y = y + 1;
    }
    proof {
        let expected = horizontal_pass(img, height as nat, channels as nat, *plan, max_value as int);
        assert forall|i: int| 0 <= i < dst@.len() implies #[trigger] values(dst@)[i]
            == expected[i] by {
            crate::sample::lemma_values_in_range(dst@);
            if out_stride > 0 {
                lemma_split_index(i, out_stride as int, height as int);
                let yy = i / out_stride as int;
                let r = i % out_stride as int;
                lemma_split_index(r, channels as int, plan.out_size as int);
                let x = r / channels as int;
                let c = r % channels as int;
                assert(i == yy * out_stride + x * channels + c);
            } else {
                assert(height * out_stride == 0) by (nonlinear_arith)
                    requires
                        out_stride == 0,
                ;
            }
        }
        crate::sample::lemma_values_in_range(dst@);
        assert(values(dst@) =~= expected);
    }
    dst
}

/// Applies `plan` down every column of an image whose rows hold `stride`
/// samples.
pub fn convolve_column_fixed_point<T: Sample>(
    src: &[T],
    stride: usize,
    plan: &FilterPlan,
    max_value: i64,
) -> (dst: Vec<T>)
    requires
        plan.wf(),
        0 <= max_value <= T::type_max(),
        src@.len() == plan.in_size * stride,
        plan.out_size * stride <= usize::MAX,
    ensures
        values(dst@) == vertical_pass(values(src@), stride as nat, *plan, max_value as int),
{
    let n = plan.out_size;
    let mut dst: Vec<T> = zeroed(n * stride);
    let ghost img = values(src@);
    let mut y: usize = 0;
    while y < n
        invariant
            plan.wf(),
            0 <= max_value <= T::type_max(),
            n == plan.out_size,
            src@.len() == plan.in_size * stride,
            dst@.len() == n * stride,
            img == values(src@),
            y <= n,
            forall|yy: int, xc: int|
                0 <= yy < y && 0 <= xc < stride ==> (#[trigger] dst@[yy * stride + xc]).value()
                    == vertical_sample(img, stride as int, *plan, max_value as int, yy, xc),
        decreases n - y,
    {
        proof {
            lemma_row_index(y as int, 0, stride as int, n as int);
            assert((y + 1) * stride == y * stride + stride) by (nonlinear_arith);
        }
        let ghost before = dst@;
        column_handler_fixed_point(src, stride, &mut dst, y, plan, max_value);
        proof {
            assert forall|yy: int, xc: int|
                0 <= yy < y + 1 && 0 <= xc < stride implies (#[trigger] dst@[yy * stride
                + xc]).value() == vertical_sample(img, stride as int, *plan, max_value as int, yy, xc)
                by {
                if yy < y {
                    lemma_row_index(yy, xc, stride as int, y as int);
                    assert(before[yy * stride + xc] == dst@[yy * stride + xc]);
                }
            }
        }
        y = y + 1;
    }
    proof {
        let expected = vertical_pass(img, stride as nat, *plan, max_value as int);
        crate::sample::lemma_values_in_range(dst@);
        assert forall|i: int| 0 <= i < dst@.len() implies #[trigger] values(dst@)[i]
            == expected[i] by {
            lemma_split_index(i, stride as int, n as int);
        }
        assert(values(dst@) =~= expected);
    }
    dst
}

} // verus!
