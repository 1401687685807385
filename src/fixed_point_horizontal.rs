//! The row (horizontal) pass of the fixed-point engine.
use crate::color_group::ColorGroup;
use crate::filter_weights::{dot, lemma_row_index, lemma_tap_sum_fits, FilterPlan};
use crate::sample::{in_range, lemma_values_in_range, narrow, values, Sample, ROUNDING_CONST};
use vstd::prelude::*;

verus! {

/// Tap `k` of channel `c` for a span starting at input pixel `start` of the
/// row that begins at `row_off`.
pub open spec fn row_taps(img: Seq<int>, row_off: int, start: int, channels: int, c: int) -> spec_fn(
    int,
) -> int {
    |k: int| img[row_off + (start + k) * channels + c]
}

/// Channel `c` of output pixel `x` of the row of `img` that begins at
/// `row_off`.
pub open spec fn horizontal_sample(
    img: Seq<int>,
    row_off: int,
    channels: int,
    plan: FilterPlan,
    max_value: int,
    x: int,
    c: int,
) -> int {
    narrow(
        ROUNDING_CONST + dot(
            plan.weights@,
            plan.row_base(x),
            plan.bounds@[x].size as nat,
            row_taps(img, row_off, plan.bounds@[x].start as int, channels, c),
        ),
        max_value,
    )
}

/// Convolves the row of `src` that begins at `src_off` into the row of `dst`
/// that begins at `dst_off`.
pub fn convolve_row_handler_fixed_point<T: Sample>(
    src: &[T],
    src_off: usize,
    dst: &mut Vec<T>,
    dst_off: usize,
    channels: usize,
    plan: &FilterPlan,
    max_value: i64,
)
    requires
        1 <= channels <= 4,
        plan.wf(),
        0 <= max_value <= T::type_max(),
        src_off + plan.in_size * channels <= src@.len(),
        dst_off + plan.out_size * channels <= old(dst)@.len(),
    ensures
        final(dst)@.len() == old(dst)@.len(),
        forall|x: int, c: int|
            0 <= x < plan.out_size && 0 <= c < channels ==> (#[trigger] final(dst)@[dst_off + x
                * channels + c]).value() == horizontal_sample(
                values(src@),
                src_off as int,
                channels as int,
                *plan,
                max_value as int,
                x,
                c,
            ),
        forall|i: int|
            0 <= i < old(dst)@.len() && !(dst_off <= i < dst_off + plan.out_size * channels)
                ==> #[trigger] final(dst)@[i] == old(dst)@[i],
{
    let n = plan.out_size;
    let a = plan.aligned_size;
    let ghost img = values(src@);
    let wl = plan.weights.len();
    let sl = src.len();
    let dl = dst.len();
    proof {
        lemma_values_in_range(src@);
    }
    let mut x: usize = 0;
    while x < n
        invariant
            1 <= channels <= 4,
            plan.wf(),
            0 <= max_value <= T::type_max(),
            src_off + plan.in_size * channels <= src@.len(),
            dst_off + n * channels <= old(dst)@.len(),
            n == plan.out_size,
            a == plan.aligned_size,
            wl == plan.weights@.len(),
            sl == src@.len(),
            dl == old(dst)@.len(),
            img == values(src@),
            img.len() == src@.len(),
            in_range(img, T::type_max()),
            forall|i: int| 0 <= i < src@.len() ==> #[trigger] img[i] == src@[i].value(),
            x <= n,
            dst@.len() == old(dst)@.len(),
            forall|xx: int, c: int|
                0 <= xx < x && 0 <= c < channels ==> (#[trigger] dst@[dst_off + xx * channels
                    + c]).value() == horizontal_sample(
                    img,
                    src_off as int,
                    channels as int,
                    *plan,
                    max_value as int,
                    xx,
                    c,
                ),
            forall|i: int|
                0 <= i < old(dst)@.len() && !(dst_off <= i < dst_off + x * channels)
                    ==> #[trigger] dst@[i] == old(dst)@[i],
        decreases n - x,
    {
        let b = plan.bounds[x];
        proof {
            assert(plan.bounds@[x as int] == b);
            lemma_row_index(x as int, 0, a as int, n as int);
        }
        let base = x * a;
        let mut sums = ColorGroup::dup(ROUNDING_CONST);
        let mut k: usize = 0;
        while k < b.size
            invariant
                1 <= channels <= 4,
                plan.wf(),
                src_off + plan.in_size * channels <= src@.len(),
                n == plan.out_size,
                a == plan.aligned_size,
                wl == plan.weights@.len(),
                sl == src@.len(),
                x < n,
                b == plan.bounds@[x as int],
                base == x * a,
                img == values(src@),
                img.len() == src@.len(),
                in_range(img, T::type_max()),
                forall|i: int| 0 <= i < src@.len() ==> #[trigger] img[i] == src@[i].value(),
                k <= b.size,
                forall|c: int|
                    0 <= c < channels ==> #[trigger] sums.lane(c) == ROUNDING_CONST + dot(
                        plan.weights@,
                        base as int,
                        k as nat,
                        row_taps(img, src_off as int, b.start as int, channels as int, c),
                    ),
            decreases b.size - k,
        {
            proof {
                lemma_row_index(x as int, k as int, a as int, n as int);
                lemma_row_index((b.start + k) as int, 0, channels as int, plan.in_size as int);
            }
            let w = plan.weights[base + k] as i64;
            let px_off = src_off + (b.start + k) * channels;
            let px = ColorGroup::load(src, px_off, channels);
            proof {
                T::lemma_type_max();
                assert forall|c: int| 0 <= c < channels implies i64::MIN <= #[trigger] sums.lane(c)
                    + px.lane(c) * w <= i64::MAX && sums.lane(c) + px.lane(c) * w
                    == ROUNDING_CONST + dot(
                    plan.weights@,
                    base as int,
                    (k + 1) as nat,
                    row_taps(img, src_off as int, b.start as int, channels as int, c),
                ) by {
                    let taps = row_taps(img, src_off as int, b.start as int, channels as int, c);
                    assert forall|j: int| 0 <= j < k + 1 implies 0 <= #[trigger] taps(j)
                        <= T::type_max() by {
                        lemma_row_index((b.start + j) as int, c, channels as int, plan.in_size as int);
                    }
                    assert(taps(k as int) == px.lane(c));
                    T::lemma_type_max();
                    assert(px.lane(c) * w == w * px.lane(c)) by (nonlinear_arith);
                    lemma_tap_sum_fits(
                        plan.weights@,
                        base as int,
                        b.size as nat,
                        (k + 1) as nat,
                        taps,
                        T::type_max(),
                    );
                }
            }
            sums.mul_add(&px, w, channels);
            k = k + 1;
        }
        let narrowed = sums.saturate_narrow(max_value, channels);
        proof {
            lemma_row_index(x as int, 0, channels as int, n as int);
        }
        narrowed.store(dst, dst_off + x * channels, channels);
        proof {
            assert forall|xx: int, c: int|
                0 <= xx < x + 1 && 0 <= c < channels implies (#[trigger] dst@[dst_off + xx
                * channels + c]).value() == horizontal_sample(
                img,
                src_off as int,
                channels as int,
                *plan,
                max_value as int,
                xx,
                c,
            ) by {
                if xx < x {
                    lemma_row_index(xx, c, channels as int, x as int);
                } else {
                    assert(xx * channels + c == x * channels + c);
                }
            }
            assert forall|i: int|
                0 <= i < old(dst)@.len() && !(dst_off <= i < dst_off + (x + 1) * channels)
                implies #[trigger] dst@[i] == old(dst)@[i] by {
                assert((x + 1) * channels == x * channels + channels) by (nonlinear_arith);
            }
        }
        x = x + 1;
    }
}

/// One tap of the row pass: adding `px * w` to lanes that hold the first
/// `k` taps gives the first `k + 1` taps, within `i64`.
pub proof fn lemma_row_step<T: Sample>(
    src: Seq<T>,
    row_off: int,
    channels: int,
    plan: FilterPlan,
    x: int,
    k: int,
    sums: ColorGroup,
    px: ColorGroup,
    w: int,
)
    requires
        plan.wf(),
        1 <= channels <= 4,
        0 <= x < plan.out_size,
        0 <= k < plan.bounds@[x].size,
        0 <= row_off,
        row_off + plan.in_size * channels <= src.len(),
        w == plan.weights@[plan.row_base(x) + k],
        forall|c: int|
            0 <= c < channels ==> #[trigger] sums.lane(c) == ROUNDING_CONST + dot(
                plan.weights@,
                plan.row_base(x),
                k as nat,
                row_taps(values(src), row_off, plan.bounds@[x].start as int, channels, c),
            ),
        forall|c: int|
            0 <= c < channels ==> #[trigger] px.lane(c) == src[row_off + (plan.bounds@[x].start + k)
                * channels + c].value(),
    ensures
        forall|c: int|
            0 <= c < channels ==> i64::MIN <= #[trigger] sums.lane(c) + px.lane(c) * w <= i64::MAX
                && sums.lane(c) + px.lane(c) * w == ROUNDING_CONST + dot(
                plan.weights@,
                plan.row_base(x),
                (k + 1) as nat,
                row_taps(values(src), row_off, plan.bounds@[x].start as int, channels, c),
            ),
{
    let img = values(src);
    let b = plan.bounds@[x];
    lemma_values_in_range(src);
    T::lemma_type_max();
    assert forall|c: int| 0 <= c < channels implies i64::MIN <= #[trigger] sums.lane(c) + px.lane(c)
        * w <= i64::MAX && sums.lane(c) + px.lane(c) * w == ROUNDING_CONST + dot(
        plan.weights@,
        plan.row_base(x),
        (k + 1) as nat,
        row_taps(img, row_off, b.start as int, channels, c),
    ) by {
        let taps = row_taps(img, row_off, b.start as int, channels, c);
        assert forall|j: int| 0 <= j < k + 1 implies 0 <= #[trigger] taps(j) <= T::type_max() by {
            lemma_row_index(b.start + j, c, channels, plan.in_size as int);
        }
        lemma_row_index(b.start + k, c, channels, plan.in_size as int);
        assert(taps(k) == px.lane(c));
        assert(px.lane(c) * w == w * px.lane(c)) by (nonlinear_arith);
        lemma_tap_sum_fits(
            plan.weights@,
            plan.row_base(x),
            b.size as nat,
            (k + 1) as nat,
            taps,
            T::type_max(),
        );
    }
}

/// The four accumulators of output pixel `x` for the four rows that begin at
/// `src_off + r * src_stride`.
#[verifier::loop_isolation(false)]
fn row_tile_sums<T: Sample>(
    src: &[T],
    src_off: usize,
    src_stride: usize,
    channels: usize,
    plan: &FilterPlan,
    x: usize,
) -> (r: (ColorGroup, ColorGroup, ColorGroup, ColorGroup))
    requires
        1 <= channels <= 4,
        plan.wf(),
        x < plan.out_size,
        plan.in_size * channels <= src_stride,
        src_off + 4 * src_stride <= src@.len(),
    ensures
        forall|c: int|
            0 <= c < channels ==> #[trigger] r.0.lane(c) == ROUNDING_CONST + dot(
                plan.weights@,
                plan.row_base(x as int),
                plan.bounds@[x as int].size as nat,
                row_taps(
                    values(src@),
                    src_off as int,
                    plan.bounds@[x as int].start as int,
                    channels as int,
                    c,
                ),
            ),
        forall|c: int|
            0 <= c < channels ==> #[trigger] r.1.lane(c) == ROUNDING_CONST + dot(
                plan.weights@,
                plan.row_base(x as int),
                plan.bounds@[x as int].size as nat,
                row_taps(
                    values(src@),
                    src_off + src_stride,
                    plan.bounds@[x as int].start as int,
                    channels as int,
                    c,
                ),
            ),
        forall|c: int|
            0 <= c < channels ==> #[trigger] r.2.lane(c) == ROUNDING_CONST + dot(
                plan.weights@,
                plan.row_base(x as int),
                plan.bounds@[x as int].size as nat,
                row_taps(
                    values(src@),
                    src_off + 2 * src_stride,
                    plan.bounds@[x as int].start as int,
                    channels as int,
                    c,
                ),
            ),
        forall|c: int|
            0 <= c < channels ==> #[trigger] r.3.lane(c) == ROUNDING_CONST + dot(
                plan.weights@,
                plan.row_base(x as int),
                plan.bounds@[x as int].size as nat,
                row_taps(
                    values(src@),
                    src_off + 3 * src_stride,
                    plan.bounds@[x as int].start as int,
                    channels as int,
                    c,
                ),
            ),
{
    let n = plan.out_size;
    let a = plan.aligned_size;
    let ghost img = values(src@);
    let wl = plan.weights.len();
    let sl = src.len();
    proof {
        lemma_values_in_range(src@);
        T::lemma_type_max();
    }
        let b = plan.bounds[x];
        proof {
            assert(plan.bounds@[x as int] == b);
            lemma_row_index(x as int, 0, a as int, n as int);
        }
        let base = x * a;
        let mut s0 = ColorGroup::dup(ROUNDING_CONST);
        let mut s1 = ColorGroup::dup(ROUNDING_CONST);
        let mut s2 = ColorGroup::dup(ROUNDING_CONST);
        let mut s3 = ColorGroup::dup(ROUNDING_CONST);
        let mut k: usize = 0;
        while k < b.size
            invariant
                k <= b.size,
                forall|c: int|
                    0 <= c < channels ==> #[trigger] s0.lane(c) == ROUNDING_CONST + dot(
                        plan.weights@,
                        base as int,
                        k as nat,
                        row_taps(img, src_off as int, b.start as int, channels as int, c),
                    ),
                forall|c: int|
                    0 <= c < channels ==> #[trigger] s1.lane(c) == ROUNDING_CONST + dot(
                        plan.weights@,
                        base as int,
                        k as nat,
                        row_taps(img, src_off + src_stride, b.start as int, channels as int, c),
                    ),
                forall|c: int|
                    0 <= c < channels ==> #[trigger] s2.lane(c) == ROUNDING_CONST + dot(
                        plan.weights@,
                        base as int,
                        k as nat,
                        row_taps(img, src_off + 2 * src_stride, b.start as int, channels as int, c),
                    ),
                forall|c: int|
                    0 <= c < channels ==> #[trigger] s3.lane(c) == ROUNDING_CONST + dot(
                        plan.weights@,
                        base as int,
                        k as nat,
                        row_taps(img, src_off + 3 * src_stride, b.start as int, channels as int, c),
                    ),
            decreases b.size - k,
        {
            proof {
                lemma_row_index(x as int, k as int, a as int, n as int);
                lemma_row_index((b.start + k) as int, 0, channels as int, plan.in_size as int);
            }
            let w = plan.weights[base + k] as i64;
            let px = (b.start + k) * channels;
            let p0 = ColorGroup::load(src, src_off + px, channels);
            let p1 = ColorGroup::load(src, src_off + src_stride + px, channels);
            let p2 = ColorGroup::load(src, src_off + 2 * src_stride + px, channels);
            let p3 = ColorGroup::load(src, src_off + 3 * src_stride + px, channels);
            proof {
                lemma_row_step(
                    src@,
                    src_off as int,
                    channels as int,
                    *plan,
                    x as int,
                    k as int,
                    s0,
                    p0,
                    w as int,
                );
                lemma_row_step(
                    src@,
                    src_off + src_stride,
                    channels as int,
                    *plan,
                    x as int,
                    k as int,
                    s1,
                    p1,
                    w as int,
                );
                lemma_row_step(
                    src@,
                    src_off + 2 * src_stride,
                    channels as int,
                    *plan,
                    x as int,
                    k as int,
                    s2,
                    p2,
                    w as int,
                );
                lemma_row_step(
                    src@,
                    src_off + 3 * src_stride,
                    channels as int,
                    *plan,
                    x as int,
                    k as int,
                    s3,
                    p3,
                    w as int,
                );
            }
            s0.mul_add(&p0, w, channels);
            s1.mul_add(&p1, w, channels);
            s2.mul_add(&p2, w, channels);
            s3.mul_add(&p3, w, channels);
            k = k + 1;
        }
        (s0, s1, s2, s3)
}

/// Slots of a four-row tile are disjoint: sample `u` of row `r` falls in the
/// `channels` samples at `xo` of row `t` only when `r == t`.
pub proof fn lemma_tile_slot(r: int, u: int, t: int, stride: int, xo: int, channels: int, w: int)
    requires
        0 <= r < 4,
        0 <= t < 4,
        0 <= u < w,
        0 <= xo,
        xo + channels <= w,
        w <= stride,
    ensures
        t * stride + xo <= r * stride + u < t * stride + xo + channels ==> r == t,
{
    if t * stride + xo <= r * stride + u < t * stride + xo + channels {
        if r < t {
            assert(r * stride + stride <= t * stride) by (nonlinear_arith)
                requires
                    r < t,
                    0 <= stride,
            ;
        } else if r > t {
            assert(t * stride + stride <= r * stride) by (nonlinear_arith)
                requires
                    t < r,
                    0 <= stride,
            ;
        }
    }
}

/// `i` lies in the `channels` samples at `xo` of one of the four rows that
/// begin at `off + r * stride`.
pub open spec fn in_slots(i: int, off: int, stride: int, xo: int, channels: int) -> bool {
    ||| off + xo <= i < off + xo + channels
    ||| off + stride + xo <= i < off + stride + xo + channels
    ||| off + 2 * stride + xo <= i < off + 2 * stride + xo + channels
    ||| off + 3 * stride + xo <= i < off + 3 * stride + xo + channels
}

/// The group stored into row `r` of a tile.
pub open spec fn pick(r: int, g0: ColorGroup, g1: ColorGroup, g2: ColorGroup, g3: ColorGroup) -> ColorGroup {
    if r == 0 {
        g0
    } else if r == 1 {
        g1
    } else if r == 2 {
        g2
    } else {
        g3
    }
}

/// Stores group `r` at `off + r * stride + xo`, for the four rows of a tile.
fn store_tile<T: Sample>(
    dst: &mut Vec<T>,
    off: usize,
    stride: usize,
    xo: usize,
    channels: usize,
    w: usize,
    g0: &ColorGroup,
    g1: &ColorGroup,
    g2: &ColorGroup,
    g3: &ColorGroup,
)
    requires
        1 <= channels <= 4,
        xo + channels <= w,
        w <= stride,
        off + 4 * stride <= old(dst)@.len(),
        forall|c: int| 0 <= c < channels ==> 0 <= #[trigger] g0.lane(c) <= T::type_max(),
        forall|c: int| 0 <= c < channels ==> 0 <= #[trigger] g1.lane(c) <= T::type_max(),
        forall|c: int| 0 <= c < channels ==> 0 <= #[trigger] g2.lane(c) <= T::type_max(),
        forall|c: int| 0 <= c < channels ==> 0 <= #[trigger] g3.lane(c) <= T::type_max(),
    ensures
        final(dst)@.len() == old(dst)@.len(),
        forall|r: int, c: int|
            0 <= r < 4 && 0 <= c < channels ==> (#[trigger] final(dst)@[off + r * stride + xo + c]).value()
                == pick(r, *g0, *g1, *g2, *g3).lane(c),
        forall|i: int|
            0 <= i < old(dst)@.len() && !in_slots(i, off as int, stride as int, xo as int, channels as int)
                ==> #[trigger] final(dst)@[i] == old(dst)@[i],
{
    let _len = dst.len();
    let ghost d0 = dst@;
    g0.store(dst, off + xo, channels);
    let ghost d1 = dst@;
    g1.store(dst, off + stride + xo, channels);
    let ghost d2 = dst@;
    g2.store(dst, off + 2 * stride + xo, channels);
    let ghost d3 = dst@;
    g3.store(dst, off + 3 * stride + xo, channels);
    proof {
        assert forall|r: int, c: int| 0 <= r < 4 && 0 <= c < channels implies (#[trigger] dst@[off + r
            * stride + xo + c]).value() == pick(r, *g0, *g1, *g2, *g3).lane(c) by {
            let i = off + r * stride + xo + c;
            lemma_tile_slot(r, xo + c, 0, stride as int, xo as int, channels as int, w as int);
            lemma_tile_slot(r, xo + c, 1, stride as int, xo as int, channels as int, w as int);
            lemma_tile_slot(r, xo + c, 2, stride as int, xo as int, channels as int, w as int);
            lemma_tile_slot(r, xo + c, 3, stride as int, xo as int, channels as int, w as int);
            if r == 0 {
                assert(d1[i] == dst@[i]);
            } else if r == 1 {
                assert(d2[i] == dst@[i]);
            } else if r == 2 {
                assert(d3[i] == dst@[i]);
            }
        }
    }
}

/// `i` lies in the first `w` samples of one of the four rows that begin at
/// `off + r * stride`.
pub open spec fn in_tile(i: int, off: int, stride: int, w: int) -> bool {
    ||| off <= i < off + w
    ||| off + stride <= i < off + stride + w
    ||| off + 2 * stride <= i < off + 2 * stride + w
    ||| off + 3 * stride <= i < off + 3 * stride + w
}

/// Convolves four rows at once (the rows of `src` beginning at
/// `src_off + r * src_stride`, into those of `dst` beginning at
/// `dst_off + r * dst_stride`, for `r < 4`), loading each weight once for
/// the four rows.
#[verifier::loop_isolation(false)]
pub fn convolve_row_handler_fixed_point_4<T: Sample>(
    src: &[T],
    src_off: usize,
    src_stride: usize,
    dst: &mut Vec<T>,
    dst_off: usize,
    dst_stride: usize,
    channels: usize,
    plan: &FilterPlan,
    max_value: i64,
)
    requires
        1 <= channels <= 4,
        plan.wf(),
        0 <= max_value <= T::type_max(),
        plan.in_size * channels <= src_stride,
        plan.out_size * channels <= dst_stride,
        src_off + 4 * src_stride <= src@.len(),
        dst_off + 4 * dst_stride <= old(dst)@.len(),
    ensures
        final(dst)@.len() == old(dst)@.len(),
        forall|r: int, x: int, c: int|
            0 <= r < 4 && 0 <= x < plan.out_size && 0 <= c < channels ==> (#[trigger] final(dst)@[dst_off
                + r * dst_stride + x * channels + c]).value() == horizontal_sample(
                values(src@),
                src_off + r * src_stride,
                channels as int,
                *plan,
                max_value as int,
                x,
                c,
            ),
        forall|i: int|
            0 <= i < old(dst)@.len() && !(dst_off <= i < dst_off + 4 * dst_stride)
                ==> #[trigger] final(dst)@[i] == old(dst)@[i],
{
    let n = plan.out_size;
    let a = plan.aligned_size;
    let ghost img = values(src@);
    let wl = plan.weights.len();
    let sl = src.len();
    let dl = dst.len();
    let ow = n * channels;
    let ghost out_w = ow as int;
    proof {
        lemma_values_in_range(src@);
        T::lemma_type_max();
    }
    let mut x: usize = 0;
    while x < n
        invariant
            x <= n,
            dst@.len() == dl,
            forall|r: int, xx: int, c: int|
                0 <= r < 4 && 0 <= xx < x && 0 <= c < channels ==> (#[trigger] dst@[dst_off + r
                    * dst_stride + xx * channels + c]).value() == horizontal_sample(
                    img,
                    src_off + r * src_stride,
                    channels as int,
                    *plan,
                    max_value as int,
                    xx,
                    c,
                ),
            forall|i: int|
                0 <= i < dl && !in_tile(i, dst_off as int, dst_stride as int, x * channels)
                    ==> #[trigger] dst@[i] == old(dst)@[i],
        decreases n - x,
    {
        let (s0, s1, s2, s3) = row_tile_sums(src, src_off, src_stride, channels, plan, x);
        proof {
            lemma_row_index(x as int, 0, channels as int, n as int);
        }
        let xo = x * channels;
        let n0 = s0.saturate_narrow(max_value, channels);
        let n1 = s1.saturate_narrow(max_value, channels);
        let n2 = s2.saturate_narrow(max_value, channels);
        let n3 = s3.saturate_narrow(max_value, channels);
        let ghost d0 = dst@;
        store_tile(dst, dst_off, dst_stride, xo, channels, ow, &n0, &n1, &n2, &n3);
        proof {
            assert((x + 1) * channels == xo + channels) by (nonlinear_arith)
                requires
                    xo == x * channels,
            ;
            assert forall|r: int, xx: int, c: int|
                0 <= r < 4 && 0 <= xx < x + 1 && 0 <= c < channels implies (#[trigger] dst@[dst_off
                + r * dst_stride + xx * channels + c]).value() == horizontal_sample(
                img,
                src_off + r * src_stride,
                channels as int,
                *plan,
                max_value as int,
                xx,
                c,
            ) by {
                let u = xx * channels + c;
                let i = dst_off + r * dst_stride + u;
                lemma_row_index(xx, c, channels as int, (x + 1) as int);
                lemma_row_index(x as int, 0, channels as int, n as int);
                lemma_tile_slot(r, u, 0, dst_stride as int, xo as int, channels as int, out_w);
                lemma_tile_slot(r, u, 1, dst_stride as int, xo as int, channels as int, out_w);
                lemma_tile_slot(r, u, 2, dst_stride as int, xo as int, channels as int, out_w);
                lemma_tile_slot(r, u, 3, dst_stride as int, xo as int, channels as int, out_w);
                if xx < x {
                    lemma_row_index(xx, c, channels as int, x as int);
                    assert(!in_slots(i, dst_off as int, dst_stride as int, xo as int, channels as int));
                    assert(d0[i] == dst@[i]);
                } else {
                    assert(u == xo + c);
                }
            }
            assert forall|i: int|
                0 <= i < dl && !in_tile(i, dst_off as int, dst_stride as int, (x + 1) * channels)
                implies #[trigger] dst@[i] == old(dst)@[i] by {
                assert(x * channels <= (x + 1) * channels) by (nonlinear_arith)
                    requires
                        0 <= channels,
                ;
            }
        }
        x = x + 1;
    }
    proof {
        assert forall|i: int|
            0 <= i < dl && !(dst_off <= i < dst_off + 4 * dst_stride) implies #[trigger] dst@[i]
            == old(dst)@[i] by {
            assert(!in_tile(i, dst_off as int, dst_stride as int, n * channels));
        }
    }
}

} // verus!
