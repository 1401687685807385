//! General properties of the resize, stated over the contracts of the
//! public functions.
use crate::filter_weights::{dot, lemma_row_index, lemma_split_index, weight_sum, FilterPlan};
use crate::fixed_point_dispatch::{horizontal_pass, vertical_pass};
use crate::image_size::ImageSize;
use crate::resize_fixed_point::{convolved, depth_max, resize_error, resize_output};
use crate::resize_nearest::{nearest_coord, nearest_image};
use crate::sample::{in_range, lemma_values_in_range, lemma_values_injective, narrow, values, Sample};
use crate::sampler::ResamplingFunction;
use vstd::prelude::*;

verus! {

/// A successful resize returns `dst_width * dst_height * channels` samples.
pub proof fn law_output_dimensions<T: Sample>(
    src: Seq<T>,
    out: Seq<T>,
    source_size: ImageSize,
    destination_size: ImageSize,
    channels: int,
    bit_depth: int,
    function: ResamplingFunction,
    vertical: FilterPlan,
    horizontal: FilterPlan,
)
    requires
        resize_error::<T>(
            src.len() as int,
            source_size,
            destination_size,
            channels,
            bit_depth,
            function,
            vertical,
            horizontal,
        ) is None,
        resize_output(
            src,
            out,
            source_size,
            destination_size,
            channels,
            bit_depth,
            function,
            vertical,
            horizontal,
        ),
    ensures
        out.len() == destination_size.width * destination_size.height * channels,
{
    let sw = source_size.width as int;
    let sh = source_size.height as int;
    let dw = destination_size.width as int;
    let dh = destination_size.height as int;
    lemma_values_in_range(src);
    lemma_values_in_range(out);
    assert(dw * dh * channels == dh * (dw * channels)) by (nonlinear_arith);
    assert(dw * dh * channels == dw * channels * dh) by (nonlinear_arith);
    if source_size == destination_size {
    } else if function is Nearest {
    } else {
        let img = values(src);
        let max_value = depth_max(bit_depth);
        if sh != dh {
            assert(vertical.out_size * (sw * channels) == sw * channels * dh) by (nonlinear_arith)
                requires
                    vertical.out_size == dh,
            ;
        } else {
            assert(sw * channels * sh == sw * channels * dh);
        }
        if sw != dw {
            assert(dh * (horizontal.out_size * channels) == dh * (dw * channels));
        }
    }
}

/// Equal source and destination sizes return the input unchanged, whatever
/// the filter.
pub proof fn law_identity<T: Sample>(
    src: Seq<T>,
    out: Seq<T>,
    size: ImageSize,
    channels: int,
    bit_depth: int,
    function: ResamplingFunction,
    vertical: FilterPlan,
    horizontal: FilterPlan,
)
    requires
        resize_output(src, out, size, size, channels, bit_depth, function, vertical, horizontal),
    ensures
        out == src,
{
}

/// In a plan the resize accepts, weights past each span are zero and each
/// span lies inside the input.
pub proof fn law_support_containment(plan: FilterPlan, i: int, k: int)
    requires
        plan.wf(),
        0 <= i < plan.out_size,
    ensures
        plan.bounds@[i].start + plan.bounds@[i].size <= plan.in_size,
        plan.bounds@[i].size <= k < plan.aligned_size ==> plan.weights@[i * plan.aligned_size + k]
            == 0,
{
    assert(plan.row_base(i) == i * plan.aligned_size);
    if plan.bounds@[i].size <= k < plan.aligned_size {
        assert(plan.weights@[plan.row_base(i) + k] == 0);
    }
}

/// Every sample of the vertical pass lies in `[0, max_value]`.
pub proof fn lemma_vertical_range(img: Seq<int>, stride: nat, plan: FilterPlan, max_value: int)
    requires
        0 <= max_value,
    ensures
        in_range(vertical_pass(img, stride, plan, max_value), max_value),
{
}

/// Every sample of the horizontal pass lies in `[0, max_value]`.
pub proof fn lemma_horizontal_range(
    img: Seq<int>,
    height: nat,
    channels: nat,
    plan: FilterPlan,
    max_value: int,
)
    requires
        0 <= max_value,
    ensures
        in_range(horizontal_pass(img, height, channels, plan, max_value), max_value),
{
}

/// Every output sample lies in `[0, 2^bit_depth - 1]`; on the convolution
/// path the saturating narrow ensures it whatever the weights, and the copying
/// paths keep the source's samples.
pub proof fn law_sample_range<T: Sample>(
    src: Seq<T>,
    out: Seq<T>,
    source_size: ImageSize,
    destination_size: ImageSize,
    channels: int,
    bit_depth: int,
    function: ResamplingFunction,
    vertical: FilterPlan,
    horizontal: FilterPlan,
)
    requires
        resize_error::<T>(
            src.len() as int,
            source_size,
            destination_size,
            channels,
            bit_depth,
            function,
            vertical,
            horizontal,
        ) is None,
        resize_output(
            src,
            out,
            source_size,
            destination_size,
            channels,
            bit_depth,
            function,
            vertical,
            horizontal,
        ),
        in_range(values(src), depth_max(bit_depth)),
    ensures
        in_range(values(out), depth_max(bit_depth)),
{
    let sw = source_size.width as int;
    let sh = source_size.height as int;
    let dw = destination_size.width as int;
    let dh = destination_size.height as int;
    let m = depth_max(bit_depth);
    crate::resize_fixed_point::lemma_two_pow_split(bit_depth as nat, 0);
    lemma_values_in_range(src);
    lemma_values_in_range(out);
    if source_size == destination_size {
    } else if function is Nearest {
        assert forall|i: int| 0 <= i < values(out).len() implies 0 <= #[trigger] values(out)[i]
            <= m by {
            let ds = dw * channels;
            lemma_split_index(i, ds, dh);
            let x = (i % ds) / channels;
            let y = i / ds;
            let c = (i % ds) % channels;
            lemma_split_index(i % ds, channels, dw);
            let sx = nearest_coord(x, dw, sw);
            let sy = nearest_coord(y, dh, sh);
            crate::filter_weights::lemma_row_index(sy, 0, sw * channels, sh);
            crate::filter_weights::lemma_row_index(sx, c, channels, sw);
            assert(src.len() == sh * (sw * channels)) by (nonlinear_arith)
                requires
                    src.len() == sw * channels * sh,
            ;
            assert(values(src)[sy * (sw * channels) + sx * channels + c] == src[sy * (sw
                * channels) + sx * channels + c].value());
        }
    } else {
        let img = values(src);
        let mid = if sh != dh {
            lemma_vertical_range(img, (sw * channels) as nat, vertical, m);
            vertical_pass(img, (sw * channels) as nat, vertical, m)
        } else {
            img
        };
        if sw != dw {
            lemma_horizontal_range(mid, dh as nat, channels as nat, horizontal, m);
        }
    }
}

/// When only the height changes, the output is the vertical pass alone: the
/// horizontal pass does not run.
pub proof fn law_vertical_only<T: Sample>(
    src: Seq<T>,
    out: Seq<T>,
    source_size: ImageSize,
    destination_size: ImageSize,
    channels: int,
    bit_depth: int,
    function: ResamplingFunction,
    vertical: FilterPlan,
    horizontal: FilterPlan,
)
    requires
        !(function is Nearest),
        source_size.width == destination_size.width,
        source_size.height != destination_size.height,
        resize_output(
            src,
            out,
            source_size,
            destination_size,
            channels,
            bit_depth,
            function,
            vertical,
            horizontal,
        ),
    ensures
        values(out) == vertical_pass(
            values(src),
            (source_size.width * channels) as nat,
            vertical,
            depth_max(bit_depth),
        ),
{
}

/// Resizing `A -> A -> C` with the same filter and plans gives the one-step
/// `A -> C`: the first step is the identity.
pub proof fn law_chain_through_source<T: Sample>(
    src: Seq<T>,
    first: Seq<T>,
    second: Seq<T>,
    direct: Seq<T>,
    a: ImageSize,
    c: ImageSize,
    channels: int,
    bit_depth: int,
    function: ResamplingFunction,
    vertical: FilterPlan,
    horizontal: FilterPlan,
)
    requires
        resize_output(src, first, a, a, channels, bit_depth, function, vertical, horizontal),
        resize_output(first, second, a, c, channels, bit_depth, function, vertical, horizontal),
        resize_output(src, direct, a, c, channels, bit_depth, function, vertical, horizontal),
    ensures
        second == direct,
{
    if a != c && !(function is Nearest) {
        lemma_values_injective(second, direct);
    }
}

/// Resizing `A -> C -> C` with the same filter and plans gives the one-step
/// `A -> C`: the second step is the identity.
pub proof fn law_chain_through_destination<T: Sample>(
    src: Seq<T>,
    first: Seq<T>,
    second: Seq<T>,
    direct: Seq<T>,
    a: ImageSize,
    c: ImageSize,
    channels: int,
    bit_depth: int,
    function: ResamplingFunction,
    vertical: FilterPlan,
    horizontal: FilterPlan,
)
    requires
        resize_output(src, first, a, c, channels, bit_depth, function, vertical, horizontal),
        resize_output(first, second, c, c, channels, bit_depth, function, vertical, horizontal),
        resize_output(src, direct, a, c, channels, bit_depth, function, vertical, horizontal),
    ensures
        second == direct,
{
    if a != c && !(function is Nearest) {
        lemma_values_injective(first, direct);
    }
}

/// Every row of `plan` keeps level `v`: with the rounding bias, `v` times
/// the row's weight sum shifts back to `v`. An exactly normalized row keeps
/// every level.
pub open spec fn keeps_level(plan: FilterPlan, v: int) -> bool {
    forall|i: int|
        0 <= i < plan.out_size ==> -16384 <= v * (#[trigger] weight_sum(
            plan.weights@,
            plan.row_base(i),
            plan.bounds@[i].size as nat,
        ) - 32768) < 16384
}

/// Every sample of channel `c` of `img` equals `levels[c]`.
pub open spec fn channel_levels(img: Seq<int>, channels: int, levels: Seq<int>) -> bool {
    forall|i: int| 0 <= i < img.len() ==> #[trigger] img[i] == levels[i % channels]
}

/// Taps that all hold `v` sum to `v` times the weight sum.
pub proof fn lemma_dot_const(w: Seq<i32>, base: int, n: nat, s: spec_fn(int) -> int, v: int)
    requires
        forall|k: int| 0 <= k < n ==> #[trigger] s(k) == v,
    ensures
        dot(w, base, n, s) == v * weight_sum(w, base, n),
    decreases n,
{
    if n > 0 {
        lemma_dot_const(w, base, (n - 1) as nat, s, v);
        let x = w[base + n - 1] as int;
        let p = weight_sum(w, base, (n - 1) as nat);
        assert(v * p + x * v == v * (p + x)) by (nonlinear_arith);
    }
}

/// The narrow of a level times a row sum that keeps it gives the level back.
pub proof fn lemma_narrow_level(v: int, sum: int, max_value: int)
    requires
        0 <= v <= max_value,
        -16384 <= v * (sum - 32768) < 16384,
    ensures
        narrow(16384 + v * sum, max_value) == v,
{
    let r = 16384 + v * (sum - 32768);
    assert(16384 + v * sum == v * 32768 + r) by (nonlinear_arith)
        requires
            r == 16384 + v * (sum - 32768),
    ;
    vstd::arithmetic::div_mod::lemma_fundamental_div_mod_converse(16384 + v * sum, 32768, v, r);
}

/// The vertical pass keeps channel levels.
pub proof fn lemma_vertical_levels(
    img: Seq<int>,
    width: int,
    channels: int,
    plan: FilterPlan,
    max_value: int,
    levels: Seq<int>,
)
    requires
        plan.wf(),
        1 <= channels,
        0 <= width,
        img.len() == plan.in_size * (width * channels),
        levels.len() == channels,
        channel_levels(img, channels, levels),
        forall|c: int|
            0 <= c < channels ==> 0 <= #[trigger] levels[c] <= max_value && keeps_level(
                plan,
                levels[c],
            ),
    ensures
        channel_levels(
            vertical_pass(img, (width * channels) as nat, plan, max_value),
            channels,
            levels,
        ),
{
    let stride = width * channels;
    let out = vertical_pass(img, stride as nat, plan, max_value);
    assert forall|i: int| 0 <= i < out.len() implies #[trigger] out[i] == levels[i % channels] by {
        assert(0 <= stride) by (nonlinear_arith)
            requires
                stride == width * channels,
                0 <= width,
                1 <= channels,
        ;
        if stride == 0 {
            assert(plan.out_size * stride == 0);
        }
        lemma_split_index(i, stride, plan.out_size as int);
        let y = i / stride;
        let xc = i % stride;
        let b = plan.bounds@[y];
        let c = xc % channels;
        vstd::arithmetic::div_mod::lemma_mod_pos_bound(xc, channels);
        let v = levels[c];
        let taps = crate::fixed_point_vertical::column_taps(img, b.start as int, stride, xc);
        assert forall|k: int| 0 <= k < b.size implies #[trigger] taps(k) == v by {
            lemma_row_index(b.start + k, xc, stride, plan.in_size as int);
            let idx = (b.start + k) * stride + xc;
            assert(idx == channels * ((b.start + k) * width) + xc) by (nonlinear_arith)
                requires
                    idx == (b.start + k) * stride + xc,
                    stride == width * channels,
            ;
            vstd::arithmetic::div_mod::lemma_mod_multiples_vanish((b.start + k) * width, xc, channels);
        }
        lemma_dot_const(plan.weights@, plan.row_base(y), b.size as nat, taps, v);
        lemma_narrow_level(
            v,
            weight_sum(plan.weights@, plan.row_base(y), b.size as nat),
            max_value,
        );
        assert(i == channels * (y * width) + xc) by (nonlinear_arith)
            requires
                i == y * stride + xc,
                stride == width * channels,
        ;
        vstd::arithmetic::div_mod::lemma_mod_multiples_vanish(y * width, xc, channels);
    }
}

/// The horizontal pass keeps channel levels.
pub proof fn lemma_horizontal_levels(
    img: Seq<int>,
    height: int,
    channels: int,
    plan: FilterPlan,
    max_value: int,
    levels: Seq<int>,
)
    requires
        plan.wf(),
        1 <= channels,
        0 <= height,
        img.len() == height * (plan.in_size * channels),
        levels.len() == channels,
        channel_levels(img, channels, levels),
        forall|c: int|
            0 <= c < channels ==> 0 <= #[trigger] levels[c] <= max_value && keeps_level(
                plan,
                levels[c],
            ),
    ensures
        channel_levels(
            horizontal_pass(img, height as nat, channels as nat, plan, max_value),
            channels,
            levels,
        ),
{
    let os = plan.out_size * channels;
    let is = plan.in_size * channels;
    let out = horizontal_pass(img, height as nat, channels as nat, plan, max_value);
    assert forall|i: int| 0 <= i < out.len() implies #[trigger] out[i] == levels[i % channels] by {
        assert(0 <= os) by (nonlinear_arith)
            requires
                os == plan.out_size * channels,
                1 <= channels,
        ;
        if os == 0 {
            assert(height * os == 0);
        }
        lemma_split_index(i, os, height);
        let y = i / os;
        let r = i % os;
        lemma_split_index(r, channels, plan.out_size as int);
        let x = r / channels;
        let c = r % channels;
        let b = plan.bounds@[x];
        let v = levels[c];
        let taps = crate::fixed_point_horizontal::row_taps(img, y * is, b.start as int, channels, c);
        assert forall|k: int| 0 <= k < b.size implies #[trigger] taps(k) == v by {
            lemma_row_index(b.start + k, c, channels, plan.in_size as int);
            lemma_row_index(y, 0, is, height);
            let idx = y * is + (b.start + k) * channels + c;
            assert(idx == channels * (y * plan.in_size + b.start + k) + c) by (nonlinear_arith)
                requires
                    idx == y * is + (b.start + k) * channels + c,
                    is == plan.in_size * channels,
            ;
            vstd::arithmetic::div_mod::lemma_mod_multiples_vanish(
                y * plan.in_size + b.start + k,
                c,
                channels,
            );
            vstd::arithmetic::div_mod::lemma_small_mod(c as nat, channels as nat);
        }
        lemma_dot_const(plan.weights@, plan.row_base(x), b.size as nat, taps, v);
        lemma_narrow_level(
            v,
            weight_sum(plan.weights@, plan.row_base(x), b.size as nat),
            max_value,
        );
        assert(i == channels * (y * plan.out_size + x) + c) by (nonlinear_arith)
            requires
                i == y * os + r,
                r == x * channels + c,
                os == plan.out_size * channels,
        ;
        vstd::arithmetic::div_mod::lemma_mod_multiples_vanish(y * plan.out_size + x, c, channels);
        vstd::arithmetic::div_mod::lemma_small_mod(c as nat, channels as nat);
    }
}

/// A source whose samples of each channel `c` all equal `levels[c]` resizes
/// to an output with the same property, whenever the plans that run keep
/// each level (an exactly normalized plan keeps every level).
pub proof fn law_channel_levels<T: Sample>(
    src: Seq<T>,
    out: Seq<T>,
    source_size: ImageSize,
    destination_size: ImageSize,
    channels: int,
    bit_depth: int,
    function: ResamplingFunction,
    vertical: FilterPlan,
    horizontal: FilterPlan,
    levels: Seq<int>,
)
    requires
        resize_error::<T>(
            src.len() as int,
            source_size,
            destination_size,
            channels,
            bit_depth,
            function,
            vertical,
            horizontal,
        ) is None,
        resize_output(
            src,
            out,
            source_size,
            destination_size,
            channels,
            bit_depth,
            function,
            vertical,
            horizontal,
        ),
        levels.len() == channels,
        channel_levels(values(src), channels, levels),
        forall|c: int|
            0 <= c < channels ==> 0 <= #[trigger] levels[c] <= depth_max(bit_depth) && keeps_level(
                vertical,
                levels[c],
            ) && keeps_level(horizontal, levels[c]),
    ensures
        channel_levels(values(out), channels, levels),
{
    let sw = source_size.width as int;
    let sh = source_size.height as int;
    let dw = destination_size.width as int;
    let dh = destination_size.height as int;
    let m = depth_max(bit_depth);
    lemma_values_in_range(src);
    lemma_values_in_range(out);
    if source_size == destination_size {
    } else if function is Nearest {
        assert forall|i: int| 0 <= i < values(out).len() implies #[trigger] values(out)[i]
            == levels[i % channels] by {
            let ds = dw * channels;
            lemma_split_index(i, ds, dh);
            let x = (i % ds) / channels;
            let y = i / ds;
            let c = (i % ds) % channels;
            lemma_split_index(i % ds, channels, dw);
            let sx = nearest_coord(x, dw, sw);
            let sy = nearest_coord(y, dh, sh);
            lemma_row_index(sy, 0, sw * channels, sh);
            lemma_row_index(sx, c, channels, sw);
            assert(src.len() == sh * (sw * channels)) by (nonlinear_arith)
                requires
                    src.len() == sw * channels * sh,
            ;
            let idx = sy * (sw * channels) + sx * channels + c;
            assert(values(src)[idx] == src[idx].value());
            assert(idx == channels * (sy * sw + sx) + c) by (nonlinear_arith)
                requires
                    idx == sy * (sw * channels) + sx * channels + c,
            ;
            vstd::arithmetic::div_mod::lemma_mod_multiples_vanish(sy * sw + sx, c, channels);
            vstd::arithmetic::div_mod::lemma_small_mod(c as nat, channels as nat);
            assert(i == channels * (y * dw + x) + c) by (nonlinear_arith)
                requires
                    i == y * ds + i % ds,
                    i % ds == x * channels + c,
                    ds == dw * channels,
            ;
            vstd::arithmetic::div_mod::lemma_mod_multiples_vanish(y * dw + x, c, channels);
        }
    } else {
        let img = values(src);
        crate::resize_fixed_point::lemma_two_pow_split(bit_depth as nat, 0);
        let mid = if sh != dh {
            assert(img.len() == vertical.in_size * (sw * channels)) by (nonlinear_arith)
                requires
                    img.len() == sw * channels * sh,
                    vertical.in_size == sh,
            ;
            lemma_vertical_levels(img, sw, channels, vertical, m, levels);
            vertical_pass(img, (sw * channels) as nat, vertical, m)
        } else {
            img
        };
        if sw != dw {
            assert(mid.len() == dh * (horizontal.in_size * channels)) by (nonlinear_arith)
                requires
                    mid.len() == sw * channels * dh || (mid.len() == vertical.out_size * (sw
                        * channels) && vertical.out_size == dh),
                    horizontal.in_size == sw,
            ;
            lemma_horizontal_levels(mid, dh, channels, horizontal, m, levels);
        }
    }
}

/// A source whose every sample equals `v` resizes to an output whose every
/// sample equals `v`, whenever the plans that run keep level `v`.
pub proof fn law_constant_preservation<T: Sample>(
    src: Seq<T>,
    out: Seq<T>,
    source_size: ImageSize,
    destination_size: ImageSize,
    channels: int,
    bit_depth: int,
    function: ResamplingFunction,
    vertical: FilterPlan,
    horizontal: FilterPlan,
    v: int,
)
    requires
        resize_error::<T>(
            src.len() as int,
            source_size,
            destination_size,
            channels,
            bit_depth,
            function,
            vertical,
            horizontal,
        ) is None,
        resize_output(
            src,
            out,
            source_size,
            destination_size,
            channels,
            bit_depth,
            function,
            vertical,
            horizontal,
        ),
        forall|i: int| 0 <= i < src.len() ==> #[trigger] values(src)[i] == v,
        0 <= v <= depth_max(bit_depth),
        keeps_level(vertical, v),
        keeps_level(horizontal, v),
    ensures
        forall|i: int| 0 <= i < out.len() ==> #[trigger] values(out)[i] == v,
{
    let levels = Seq::new(channels as nat, |c: int| v);
    lemma_values_in_range(src);
    lemma_values_in_range(out);
    assert forall|i: int| 0 <= i < values(src).len() implies #[trigger] values(src)[i]
        == levels[i % channels] by {
        vstd::arithmetic::div_mod::lemma_mod_pos_bound(i, channels);
    }
    law_channel_levels(
        src,
        out,
        source_size,
        destination_size,
        channels,
        bit_depth,
        function,
        vertical,
        horizontal,
        levels,
    );
    assert forall|i: int| 0 <= i < out.len() implies #[trigger] values(out)[i] == v by {
        vstd::arithmetic::div_mod::lemma_mod_pos_bound(i, channels);
    }
}

/// Resizing a one-pixel source fills every output pixel with that pixel,
/// whenever the plans that run keep each of its samples.
pub proof fn law_single_pixel_source<T: Sample>(
    src: Seq<T>,
    out: Seq<T>,
    destination_size: ImageSize,
    channels: int,
    bit_depth: int,
    function: ResamplingFunction,
    vertical: FilterPlan,
    horizontal: FilterPlan,
)
    requires
        resize_error::<T>(
            src.len() as int,
            ImageSize { width: 1, height: 1 },
            destination_size,
            channels,
            bit_depth,
            function,
            vertical,
            horizontal,
        ) is None,
        resize_output(
            src,
            out,
            ImageSize { width: 1, height: 1 },
            destination_size,
            channels,
            bit_depth,
            function,
            vertical,
            horizontal,
        ),
        forall|c: int|
            0 <= c < channels ==> 0 <= #[trigger] values(src)[c] <= depth_max(bit_depth)
                && keeps_level(vertical, values(src)[c]) && keeps_level(horizontal, values(src)[c]),
    ensures
        forall|i: int| 0 <= i < out.len() ==> #[trigger] out[i] == src[i % channels],
{
    lemma_values_in_range(src);
    lemma_values_in_range(out);
    let levels = values(src);
    assert forall|i: int| 0 <= i < values(src).len() implies #[trigger] values(src)[i]
        == levels[i % channels] by {
        vstd::arithmetic::div_mod::lemma_small_mod(i as nat, channels as nat);
    }
    law_channel_levels(
        src,
        out,
        ImageSize { width: 1, height: 1 },
        destination_size,
        channels,
        bit_depth,
        function,
        vertical,
        horizontal,
        levels,
    );
    assert forall|i: int| 0 <= i < out.len() implies #[trigger] out[i] == src[i % channels] by {
        vstd::arithmetic::div_mod::lemma_mod_pos_bound(i, channels);
        assert(values(out)[i] == levels[i % channels]);
        T::lemma_value_injective(out[i], src[i % channels]);
    }
}

/// Every weight of `plan` inside a span is non-negative and every row sums
/// to one (`1 << 15`) exactly: each output is a weighted mean of its taps.
pub open spec fn averaging(plan: FilterPlan) -> bool {
    &&& forall|i: int, k: int|
        0 <= i < plan.out_size && 0 <= k < plan.bounds@[i].size ==> 0
            <= #[trigger] plan.weights@[plan.row_base(i) + k]
    &&& forall|i: int|
        0 <= i < plan.out_size ==> #[trigger] weight_sum(
            plan.weights@,
            plan.row_base(i),
            plan.bounds@[i].size as nat,
        ) == 32768
}

/// Every entry of `img` lies in `[lo, hi]`.
pub open spec fn between(img: Seq<int>, lo: int, hi: int) -> bool {
    forall|i: int| 0 <= i < img.len() ==> lo <= #[trigger] img[i] <= hi
}

/// Non-negative weights times taps in `[lo, hi]` sum to between `lo` and
/// `hi` times the weight sum.
pub proof fn lemma_dot_between(
    w: Seq<i32>,
    base: int,
    n: nat,
    s: spec_fn(int) -> int,
    lo: int,
    hi: int,
)
    requires
        forall|k: int| 0 <= k < n ==> 0 <= #[trigger] w[base + k],
        forall|k: int| 0 <= k < n ==> lo <= #[trigger] s(k) <= hi,
    ensures
        lo * weight_sum(w, base, n) <= dot(w, base, n, s) <= hi * weight_sum(w, base, n),
    decreases n,
{
    if n > 0 {
        lemma_dot_between(w, base, (n - 1) as nat, s, lo, hi);
        let x = w[base + n - 1] as int;
        let v = s(n - 1);
        let p = weight_sum(w, base, (n - 1) as nat);
        assert(0 <= x);
        assert(lo * x <= x * v <= hi * x) by (nonlinear_arith)
            requires
                0 <= x,
                lo <= v <= hi,
        ;
        assert(lo * (p + x) == lo * p + lo * x && hi * (p + x) == hi * p + hi * x)
            by (nonlinear_arith);
    }
}

/// The narrow of a weighted mean of values in `[lo, hi]` lies in `[lo, hi]`.
pub proof fn lemma_narrow_between(sum: int, lo: int, hi: int, max_value: int)
    requires
        0 <= lo <= hi <= max_value,
        lo * 32768 <= sum <= hi * 32768,
    ensures
        lo <= narrow(16384 + sum, max_value) <= hi,
{
    let q = (16384 + sum) / 32768;
    vstd::arithmetic::div_mod::lemma_fundamental_div_mod(16384 + sum, 32768);
    vstd::arithmetic::div_mod::lemma_mod_pos_bound(16384 + sum, 32768);
    assert(lo <= q <= hi) by (nonlinear_arith)
        requires
            16384 + sum == 32768 * q + (16384 + sum) % 32768,
            0 <= (16384 + sum) % 32768 < 32768,
            lo * 32768 <= sum <= hi * 32768,
    ;
}

/// A vertical pass with an averaging plan keeps samples in `[lo, hi]`.
pub proof fn lemma_vertical_between(
    img: Seq<int>,
    stride: int,
    plan: FilterPlan,
    max_value: int,
    lo: int,
    hi: int,
)
    requires
        plan.wf(),
        averaging(plan),
        0 <= stride,
        img.len() == plan.in_size * stride,
        between(img, lo, hi),
        0 <= lo <= hi <= max_value,
    ensures
        between(vertical_pass(img, stride as nat, plan, max_value), lo, hi),
{
    let out = vertical_pass(img, stride as nat, plan, max_value);
    assert forall|i: int| 0 <= i < out.len() implies lo <= #[trigger] out[i] <= hi by {
        if stride == 0 {
            assert(plan.out_size * stride == 0);
        }
        lemma_split_index(i, stride, plan.out_size as int);
        let y = i / stride;
        let xc = i % stride;
        let b = plan.bounds@[y];
        let taps = crate::fixed_point_vertical::column_taps(img, b.start as int, stride, xc);
        assert forall|k: int| 0 <= k < b.size implies lo <= #[trigger] taps(k) <= hi by {
            lemma_row_index(b.start + k, xc, stride, plan.in_size as int);
        }
        assert forall|k: int| 0 <= k < b.size implies 0
            <= #[trigger] plan.weights@[plan.row_base(y) + k] by {
        }
        lemma_dot_between(plan.weights@, plan.row_base(y), b.size as nat, taps, lo, hi);
        lemma_narrow_between(
            dot(plan.weights@, plan.row_base(y), b.size as nat, taps),
            lo,
            hi,
            max_value,
        );
    }
}

/// A horizontal pass with an averaging plan keeps samples in `[lo, hi]`.
pub proof fn lemma_horizontal_between(
    img: Seq<int>,
    height: int,
    channels: int,
    plan: FilterPlan,
    max_value: int,
    lo: int,
    hi: int,
)
    requires
        plan.wf(),
        averaging(plan),
        1 <= channels,
        0 <= height,
        img.len() == height * (plan.in_size * channels),
        between(img, lo, hi),
        0 <= lo <= hi <= max_value,
    ensures
        between(horizontal_pass(img, height as nat, channels as nat, plan, max_value), lo, hi),
{
    let os = plan.out_size * channels;
    let is = plan.in_size * channels;
    let out = horizontal_pass(img, height as nat, channels as nat, plan, max_value);
    assert forall|i: int| 0 <= i < out.len() implies lo <= #[trigger] out[i] <= hi by {
        assert(0 <= os) by (nonlinear_arith)
            requires
                os == plan.out_size * channels,
                1 <= channels,
        ;
        if os == 0 {
            assert(height * os == 0);
        }
        lemma_split_index(i, os, height);
        let y = i / os;
        let r = i % os;
        lemma_split_index(r, channels, plan.out_size as int);
        let x = r / channels;
        let c = r % channels;
        let b = plan.bounds@[x];
        let taps = crate::fixed_point_horizontal::row_taps(img, y * is, b.start as int, channels, c);
        assert forall|k: int| 0 <= k < b.size implies lo <= #[trigger] taps(k) <= hi by {
            lemma_row_index(b.start + k, c, channels, plan.in_size as int);
            lemma_row_index(y, 0, is, height);
        }
        assert forall|k: int| 0 <= k < b.size implies 0
            <= #[trigger] plan.weights@[plan.row_base(x) + k] by {
        }
        lemma_dot_between(plan.weights@, plan.row_base(x), b.size as nat, taps, lo, hi);
        lemma_narrow_between(
            dot(plan.weights@, plan.row_base(x), b.size as nat, taps),
            lo,
            hi,
            max_value,
        );
    }
}

/// With averaging plans, every output sample is a weighted mean of source
/// samples, so it lies between the smallest and the largest of them (the
/// copying paths keep source samples).
pub proof fn law_weighted_mean_bounds<T: Sample>(
    src: Seq<T>,
    out: Seq<T>,
    source_size: ImageSize,
    destination_size: ImageSize,
    channels: int,
    bit_depth: int,
    function: ResamplingFunction,
    vertical: FilterPlan,
    horizontal: FilterPlan,
    lo: int,
    hi: int,
)
    requires
        resize_error::<T>(
            src.len() as int,
            source_size,
            destination_size,
            channels,
            bit_depth,
            function,
            vertical,
            horizontal,
        ) is None,
        resize_output(
            src,
            out,
            source_size,
            destination_size,
            channels,
            bit_depth,
            function,
            vertical,
            horizontal,
        ),
        averaging(vertical),
        averaging(horizontal),
        between(values(src), lo, hi),
        0 <= lo <= hi <= depth_max(bit_depth),
    ensures
        between(values(out), lo, hi),
{
    let sw = source_size.width as int;
    let sh = source_size.height as int;
    let dw = destination_size.width as int;
    let dh = destination_size.height as int;
    let m = depth_max(bit_depth);
    lemma_values_in_range(src);
    lemma_values_in_range(out);
    if source_size == destination_size {
    } else if function is Nearest {
        assert forall|i: int| 0 <= i < values(out).len() implies lo <= #[trigger] values(out)[i]
            <= hi by {
            let ds = dw * channels;
            lemma_split_index(i, ds, dh);
            let x = (i % ds) / channels;
            let y = i / ds;
            let c = (i % ds) % channels;
            lemma_split_index(i % ds, channels, dw);
            let sx = nearest_coord(x, dw, sw);
            let sy = nearest_coord(y, dh, sh);
            lemma_row_index(sy, 0, sw * channels, sh);
            lemma_row_index(sx, c, channels, sw);
            assert(src.len() == sh * (sw * channels)) by (nonlinear_arith)
                requires
                    src.len() == sw * channels * sh,
            ;
            assert(values(src)[sy * (sw * channels) + sx * channels + c] == src[sy * (sw
                * channels) + sx * channels + c].value());
        }
    } else {
        let img = values(src);
        let mid = if sh != dh {
            assert(img.len() == vertical.in_size * (sw * channels)) by (nonlinear_arith)
                requires
                    img.len() == sw * channels * sh,
                    vertical.in_size == sh,
            ;
            assert(0 <= sw * channels) by (nonlinear_arith)
                requires
                    0 <= sw,
                    1 <= channels,
            ;
            lemma_vertical_between(img, sw * channels, vertical, m, lo, hi);
            vertical_pass(img, (sw * channels) as nat, vertical, m)
        } else {
            img
        };
        if sw != dw {
            assert(mid.len() == dh * (horizontal.in_size * channels)) by (nonlinear_arith)
                requires
                    mid.len() == sw * channels * dh || (mid.len() == vertical.out_size * (sw
                        * channels) && vertical.out_size == dh),
                    horizontal.in_size == sw,
            ;
            lemma_horizontal_between(mid, dh, channels, horizontal, m, lo, hi);
        }
    }
}

} // verus!
