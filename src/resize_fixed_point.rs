//! Validation and the plan-to-pipeline driver of the fixed-point path.
use crate::filter_weights::FilterPlan;
use crate::fixed_point_dispatch::{
    convolve_column_fixed_point, convolve_row_fixed_point, horizontal_pass, vertical_pass,
};
use crate::image_size::ImageSize;
use crate::resize_nearest::{nearest_image, resize_nearest};
use crate::sample::{values, Sample};
use crate::sampler::ResamplingFunction;
use vstd::prelude::*;

verus! {

/// Why a resize was refused.
#[derive(Clone, Copy, Debug, PartialEq, Eq)]
pub enum ResizeError {
    /// The channel count is not one of 1, 2, 3, 4.
    InvalidChannelCount,
    /// The source holds `actual` samples where `expected` were due.
    BufferSizeMismatch(usize, usize),
    /// A stride or a buffer length does not fit the platform word.
    DimensionOverflow,
    /// The bit depth is outside `1..=16` or wider than the sample type.
    InvalidBitDepth,
    /// A width or a height is zero.
    ZeroDimension,
    /// A pass is due and its plan is malformed or was built for other sizes.
    PlanMismatch,
}

/// `2^b`.
pub open spec fn two_pow(b: nat) -> int
    decreases b,
{
    if b == 0 {
        1
    } else {
        2 * two_pow((b - 1) as nat)
    }
}

/// Largest sample value at bit depth `b`.
pub open spec fn depth_max(b: int) -> int {
    two_pow(b as nat) - 1
}

/// Computes `depth_max(bit_depth)`.
pub fn max_for_bit_depth(bit_depth: u32) -> (r: i64)
    requires
        1 <= bit_depth <= 16,
    ensures
        r == depth_max(bit_depth as int),
        1 <= r <= 65535,
{
    let mut m: i64 = 1;
    let mut i: u32 = 0;
    proof {
        reveal_with_fuel(two_pow, 17);
    }
    while i < bit_depth
        invariant
            i <= bit_depth <= 16,
            m == two_pow(i as nat),
            two_pow(16) == 65536,
        decreases bit_depth - i,
    {
        proof {
            lemma_two_pow_split((i + 1) as nat, (16 - i - 1) as nat);
            lemma_two_pow_split((16 - i - 1) as nat, 0);
            assert(two_pow((i + 1) as nat) == 2 * two_pow(i as nat));
            let t = two_pow((16 - i - 1) as nat);
            assert(2 * m <= 65536) by (nonlinear_arith)
                requires
                    65536 == (2 * m) * t,
                    t >= 1,
            ;
        }
        m = m * 2;
        i = i + 1;
    }
    proof {
        lemma_two_pow_split(i as nat, (16 - i) as nat);
        lemma_two_pow_split((16 - i) as nat, 0);
    }
    m - 1
}

pub proof fn lemma_two_pow_split(a: nat, b: nat)
    ensures
        two_pow(a + b) == two_pow(a) * two_pow(b),
        two_pow(a) >= 1,
    decreases a,
{
    if a > 0 {
        lemma_two_pow_split((a - 1) as nat, b);
        assert(two_pow(a + b) == 2 * two_pow((a - 1 + b) as nat));
        assert(2 * (two_pow((a - 1) as nat) * two_pow(b)) == (2 * two_pow((a - 1) as nat))
            * two_pow(b)) by (nonlinear_arith);
    }
}

/// `plan` is well formed and maps `in_size` inputs to `out_size` outputs.
pub open spec fn plan_fits(plan: FilterPlan, in_size: int, out_size: int) -> bool {
    plan.wf() && plan.in_size == in_size && plan.out_size == out_size
}

/// The error a resize returns, or `None` when it succeeds.
pub open spec fn resize_error<T: Sample>(
    src_len: int,
    source_size: ImageSize,
    destination_size: ImageSize,
    channels: int,
    bit_depth: int,
    function: ResamplingFunction,
    vertical: FilterPlan,
    horizontal: FilterPlan,
) -> Option<ResizeError> {
    let sw = source_size.width as int;
    let sh = source_size.height as int;
    let dw = destination_size.width as int;
    let dh = destination_size.height as int;
    if !(1 <= channels <= 4) {
        Some(ResizeError::InvalidChannelCount)
    } else if !(1 <= bit_depth <= 16) || depth_max(bit_depth) > T::type_max() {
        Some(ResizeError::InvalidBitDepth)
    } else if sw == 0 || sh == 0 || dw == 0 || dh == 0 {
        Some(ResizeError::ZeroDimension)
    } else if sw * channels * sh > usize::MAX || dw * channels * dh > usize::MAX {
        Some(ResizeError::DimensionOverflow)
    } else if src_len != sw * channels * sh {
        Some(ResizeError::BufferSizeMismatch((sw * channels * sh) as usize, src_len as usize))
    } else if sw == dw && sh == dh {
        None
    } else if function is Nearest {
        if 2 * dw * sw > u128::MAX || 2 * dh * sh > u128::MAX {
            Some(ResizeError::DimensionOverflow)
        } else {
            None
        }
    } else if sh != dh && sw * channels * dh > usize::MAX {
        Some(ResizeError::DimensionOverflow)
    } else if sh != dh && !plan_fits(vertical, sh, dh) {
        Some(ResizeError::PlanMismatch)
    } else if sw != dw && !plan_fits(horizontal, sw, dw) {
        Some(ResizeError::PlanMismatch)
    } else {
        None
    }
}

/// The convolution path: the vertical pass when the heights differ, then
/// the horizontal pass when the widths differ.
pub open spec fn convolved(
    img: Seq<int>,
    source_size: ImageSize,
    destination_size: ImageSize,
    channels: int,
    vertical: FilterPlan,
    horizontal: FilterPlan,
    max_value: int,
) -> Seq<int> {
    let mid = if source_size.height != destination_size.height {
        vertical_pass(img, (source_size.width * channels) as nat, vertical, max_value)
    } else {
        img
    };
    if source_size.width != destination_size.width {
        horizontal_pass(
            mid,
            destination_size.height as nat,
            channels as nat,
            horizontal,
            max_value,
        )
    } else {
        mid
    }
}

/// What a successful resize of `src` returns.
pub open spec fn resize_output<T: Sample>(
    src: Seq<T>,
    out: Seq<T>,
    source_size: ImageSize,
    destination_size: ImageSize,
    channels: int,
    bit_depth: int,
    function: ResamplingFunction,
    vertical: FilterPlan,
    horizontal: FilterPlan,
) -> bool {
    if source_size == destination_size {
        out == src
    } else if function is Nearest {
        out == nearest_image(
            src,
            source_size.width as int,
            source_size.height as int,
            destination_size.width as int,
            destination_size.height as int,
            channels,
        )
    } else {
        values(out) == convolved(
            values(src),
            source_size,
            destination_size,
            channels,
            vertical,
            horizontal,
            depth_max(bit_depth),
        )
    }
}

fn copy_samples<T: Copy>(src: &[T]) -> (r: Vec<T>)
    ensures
        r@ == src@,
{
    let mut r: Vec<T> = Vec::new();
    let mut i: usize = 0;
    while i < src.len()
        invariant
            i <= src@.len(),
            r@ == src@.subrange(0, i as int),
        decreases src@.len() - i,
    {
        r.push(src[i]);
        i = i + 1;
        proof {
            assert(r@ =~= src@.subrange(0, i as int));
        }
    }
    proof {
        assert(r@ =~= src@);
    }
    r
}

fn plan_matches(plan: &FilterPlan, in_size: usize, out_size: usize) -> (r: bool)
    ensures
        r == plan_fits(*plan, in_size as int, out_size as int),
{
    plan.in_size == in_size && plan.out_size == out_size && plan.is_well_formed()
}

/// Resizes `src` (`source_size` pixels of `channels` samples, `bit_depth`
/// significant bits each) to `destination_size`, with the plans `vertical`
/// (source height to destination height) and `horizontal` (source width to
/// destination width) applied by the fixed-point engine. A plan is read only
/// when its pass runs; equal sizes return the input and `Nearest` copies the
/// nearest pixels.
pub fn resize_fixed_point<T: Sample>(
    src: &[T],
    source_size: ImageSize,
    destination_size: ImageSize,
    channels: usize,
    bit_depth: u32,
    resampling_function: ResamplingFunction,
    vertical: &FilterPlan,
    horizontal: &FilterPlan,
) -> (r: Result<Vec<T>, ResizeError>)
    ensures
        match resize_error::<T>(
            src@.len() as int,
            source_size,
            destination_size,
            channels as int,
            bit_depth as int,
            resampling_function,
            *vertical,
            *horizontal,
        ) {
            Some(e) => r == Err::<Vec<T>, ResizeError>(e),
            None => match r {
                Ok(out) => resize_output(
                    src@,
                    out@,
                    source_size,
                    destination_size,
                    channels as int,
                    bit_depth as int,
                    resampling_function,
                    *vertical,
                    *horizontal,
                ),
                Err(_) => false,
            },
        },
{
    let sw = source_size.width;
    let sh = source_size.height;
    let dw = destination_size.width;
    let dh = destination_size.height;
    if channels < 1 || channels > 4 {
        return Err(ResizeError::InvalidChannelCount);
    }
    if bit_depth < 1 || bit_depth > 16 {
        return Err(ResizeError::InvalidBitDepth);
    }
    let max_value = max_for_bit_depth(bit_depth);
    if max_value > T::max_of_type() {
        return Err(ResizeError::InvalidBitDepth);
    }
    if sw == 0 || sh == 0 || dw == 0 || dh == 0 {
        return Err(ResizeError::ZeroDimension);
    }
    let src_stride = match sw.checked_mul(channels) {
        Some(v) => v,
        None => {
            proof {
                assert(sw * channels * sh >= sw * channels) by (nonlinear_arith)
                    requires
                        sh >= 1,
                        sw * channels >= 0,
                ;
            }
            return Err(ResizeError::DimensionOverflow);
        },
    };
    let src_len = match src_stride.checked_mul(sh) {
        Some(v) => v,
        None => {
            return Err(ResizeError::DimensionOverflow);
        },
    };
    let dst_stride = match dw.checked_mul(channels) {
        Some(v) => v,
        None => {
            proof {
                assert(dw * channels * dh >= dw * channels) by (nonlinear_arith)
                    requires
                        dh >= 1,
                        dw * channels >= 0,
                ;
            }
            return Err(ResizeError::DimensionOverflow);
        },
    };
    let dst_len = match dst_stride.checked_mul(dh) {
        Some(v) => v,
        None => {
            return Err(ResizeError::DimensionOverflow);
        },
    };
    if src.len() != src_len {
        return Err(ResizeError::BufferSizeMismatch(src_len, src.len()));
    }
    if sw == dw && sh == dh {
        return Ok(copy_samples(src));
    }
    if resampling_function.is_nearest() {
        let x_ok = (dw as u128).checked_mul(sw as u128);
        let y_ok = (dh as u128).checked_mul(sh as u128);
        let limit: u128 = 170141183460469231731687303715884105727;
        let fits = match (x_ok, y_ok) {
            (Some(px), Some(py)) => px <= limit && py <= limit,
            _ => false,
        };
        proof {
            assert(2 * dw * sw == 2 * (dw * sw)) by (nonlinear_arith);
            assert(2 * dh * sh == 2 * (dh * sh)) by (nonlinear_arith);
        }
        if !fits {
            return Err(ResizeError::DimensionOverflow);
        }
        let mut store: Vec<T> = crate::fixed_point_dispatch::zeroed(dst_len);
        proof {
            assert(src@.len() == sh * (sw * channels)) by (nonlinear_arith)
                requires
                    src@.len() == sw * channels * sh,
            ;
            assert(store@.len() == dh * (dw * channels)) by (nonlinear_arith)
                requires
                    store@.len() == dw * channels * dh,
            ;
        }
        resize_nearest(src, sw, sh, store.as_mut_slice(), dw, dh, channels);
        return Ok(store);
    }
    let need_vertical = sh != dh;
    let need_horizontal = sw != dw;
    let mid_len = src_stride.checked_mul(dh);
    if need_vertical && mid_len.is_none() {
        return Err(ResizeError::DimensionOverflow);
    }
    if need_vertical && !plan_matches(vertical, sh, dh) {
        return Err(ResizeError::PlanMismatch);
    }
    if need_horizontal && !plan_matches(horizontal, sw, dw) {
        return Err(ResizeError::PlanMismatch);
    }
    proof {
        T::lemma_type_max();
    }
    if need_vertical {
        proof {
            assert(src@.len() == sh * src_stride) by (nonlinear_arith)
                requires
                    src@.len() == src_stride * sh,
            ;
            assert(dh * src_stride <= usize::MAX) by (nonlinear_arith)
                requires
                    src_stride * dh <= usize::MAX,
            ;
        }
        let mid = convolve_column_fixed_point(src, src_stride, vertical, max_value);
        proof {
            crate::sample::lemma_values_in_range(mid@);
        }
        if need_horizontal {
            proof {
                assert(mid@.len() == dh * (horizontal.in_size * channels)) by (nonlinear_arith)
                    requires
                        mid@.len() == dh * src_stride,
                        src_stride == horizontal.in_size * channels,
                ;
            }
            let out = convolve_row_fixed_point(mid.as_slice(), dh, channels, horizontal, max_value);
            Ok(out)
        } else {
            Ok(mid)
        }
    } else {
        proof {
            assert(src@.len() == sh * (horizontal.in_size * channels)) by (nonlinear_arith)
                requires
                    src@.len() == src_stride * sh,
                    src_stride == horizontal.in_size * channels,
            ;
            assert(sh * (horizontal.out_size * channels) <= usize::MAX) by (nonlinear_arith)
                requires
                    dst_len == dst_stride * dh,
                    dst_stride == horizontal.out_size * channels,
                    sh == dh,
                    dst_len <= usize::MAX,
            ;
        }
        let out = convolve_row_fixed_point(src, sh, channels, horizontal, max_value);
        Ok(out)
    }
}

} // verus!
