//! Resize entry points for each pairing of sample type and channel count.
//!
//! Each takes the two filter plans of the resize (source height to
//! destination height, source width to destination width); a plan is read
//! only when its pass runs.
use crate::filter_weights::FilterPlan;
use crate::image_size::ImageSize;
use crate::resize_fixed_point::{resize_error, resize_fixed_point, resize_output, ResizeError};
use crate::sampler::ResamplingFunction;
use vstd::prelude::*;

verus! {

/// Resizes an image of RGBA, 8 bits per sample.
pub fn resize_rgba8(
    source: &[u8],
    source_size: ImageSize,
    destination_size: ImageSize,
    resampling_function: ResamplingFunction,
    vertical: &FilterPlan,
    horizontal: &FilterPlan,
) -> (r: Result<Vec<u8>, ResizeError>)
    ensures
        match resize_error::<u8>(
            source@.len() as int,
            source_size,
            destination_size,
            4,
            8,
            resampling_function,
            *vertical,
            *horizontal,
        ) {
            Some(e) => r == Err::<Vec<u8>, ResizeError>(e),
            None => match r {
                Ok(out) => resize_output(
                    source@,
                    out@,
                    source_size,
                    destination_size,
                    4,
                    8,
                    resampling_function,
                    *vertical,
                    *horizontal,
                ),
                Err(_) => false,
            },
        },
{
    resize_fixed_point(
        source,
        source_size,
        destination_size,
        4,
        8,
        resampling_function,
        vertical,
        horizontal,
    )
}

/// Resizes an image of RGB, 8 bits per sample.
pub fn resize_rgb8(
    source: &[u8],
    source_size: ImageSize,
    destination_size: ImageSize,
    resampling_function: ResamplingFunction,
    vertical: &FilterPlan,
    horizontal: &FilterPlan,
) -> (r: Result<Vec<u8>, ResizeError>)
    ensures
        match resize_error::<u8>(
            source@.len() as int,
            source_size,
            destination_size,
            3,
            8,
            resampling_function,
            *vertical,
            *horizontal,
        ) {
            Some(e) => r == Err::<Vec<u8>, ResizeError>(e),
            None => match r {
                Ok(out) => resize_output(
                    source@,
                    out@,
                    source_size,
                    destination_size,
                    3,
                    8,
                    resampling_function,
                    *vertical,
                    *horizontal,
                ),
                Err(_) => false,
            },
        },
{
    resize_fixed_point(
        source,
        source_size,
        destination_size,
        3,
        8,
        resampling_function,
        vertical,
        horizontal,
    )
}

/// Resizes an image of a single 8-bit plane.
pub fn resize_plane8(
    source: &[u8],
    source_size: ImageSize,
    destination_size: ImageSize,
    resampling_function: ResamplingFunction,
    vertical: &FilterPlan,
    horizontal: &FilterPlan,
) -> (r: Result<Vec<u8>, ResizeError>)
    ensures
        match resize_error::<u8>(
            source@.len() as int,
            source_size,
            destination_size,
            1,
            8,
            resampling_function,
            *vertical,
            *horizontal,
        ) {
            Some(e) => r == Err::<Vec<u8>, ResizeError>(e),
            None => match r {
                Ok(out) => resize_output(
                    source@,
                    out@,
                    source_size,
                    destination_size,
                    1,
                    8,
                    resampling_function,
                    *vertical,
                    *horizontal,
                ),
                Err(_) => false,
            },
        },
{
    resize_fixed_point(
        source,
        source_size,
        destination_size,
        1,
        8,
        resampling_function,
        vertical,
        horizontal,
    )
}

/// Resizes an image of luma with alpha, 8 bits per sample.
pub fn resize_plane8_with_alpha(
    source: &[u8],
    source_size: ImageSize,
    destination_size: ImageSize,
    resampling_function: ResamplingFunction,
    vertical: &FilterPlan,
    horizontal: &FilterPlan,
) -> (r: Result<Vec<u8>, ResizeError>)
    ensures
        match resize_error::<u8>(
            source@.len() as int,
            source_size,
            destination_size,
            2,
            8,
            resampling_function,
            *vertical,
            *horizontal,
        ) {
            Some(e) => r == Err::<Vec<u8>, ResizeError>(e),
            None => match r {
                Ok(out) => resize_output(
                    source@,
                    out@,
                    source_size,
                    destination_size,
                    2,
                    8,
                    resampling_function,
                    *vertical,
                    *horizontal,
                ),
                Err(_) => false,
            },
        },
{
    resize_fixed_point(
        source,
        source_size,
        destination_size,
        2,
        8,
        resampling_function,
        vertical,
        horizontal,
    )
}

/// Resizes an image of RGBA with `bit_depth` significant bits per 16-bit sample.
///
/// These samples go through the same fixed-point engine as 8-bit ones, with
/// `i64` accumulators, rather than through a floating-point engine; the
/// result stays within one unit of the real-valued convolution. The
/// quantized weights of a row are used as given, without renormalization: a
/// row whose weights sum to `2^15 + e` shifts a level `v` unless
/// `-2^14 <= v * e < 2^14`, so with `e == 1` levels of `2^14` and above
/// can drift by one.
pub fn resize_rgba16(
    source: &[u16],
    source_size: ImageSize,
    destination_size: ImageSize,
    bit_depth: u32,
    resampling_function: ResamplingFunction,
    vertical: &FilterPlan,
    horizontal: &FilterPlan,
) -> (r: Result<Vec<u16>, ResizeError>)
    ensures
        match resize_error::<u16>(
            source@.len() as int,
            source_size,
            destination_size,
            4,
            bit_depth as int,
            resampling_function,
            *vertical,
            *horizontal,
        ) {
            Some(e) => r == Err::<Vec<u16>, ResizeError>(e),
            None => match r {
                Ok(out) => resize_output(
                    source@,
                    out@,
                    source_size,
                    destination_size,
                    4,
                    bit_depth as int,
                    resampling_function,
                    *vertical,
                    *horizontal,
                ),
                Err(_) => false,
            },
        },
{
    resize_fixed_point(
        source,
        source_size,
        destination_size,
        4,
        bit_depth,
        resampling_function,
        vertical,
        horizontal,
    )
}

/// Resizes an image of RGB with `bit_depth` significant bits per 16-bit sample.
///
/// These samples go through the same fixed-point engine as 8-bit ones, with
/// `i64` accumulators, rather than through a floating-point engine; the
/// result stays within one unit of the real-valued convolution. The
/// quantized weights of a row are used as given, without renormalization: a
/// row whose weights sum to `2^15 + e` shifts a level `v` unless
/// `-2^14 <= v * e < 2^14`, so with `e == 1` levels of `2^14` and above
/// can drift by one.
pub fn resize_rgb16(
    source: &[u16],
    source_size: ImageSize,
    destination_size: ImageSize,
    bit_depth: u32,
    resampling_function: ResamplingFunction,
    vertical: &FilterPlan,
    horizontal: &FilterPlan,
) -> (r: Result<Vec<u16>, ResizeError>)
    ensures
        match resize_error::<u16>(
            source@.len() as int,
            source_size,
            destination_size,
            3,
            bit_depth as int,
            resampling_function,
            *vertical,
            *horizontal,
        ) {
            Some(e) => r == Err::<Vec<u16>, ResizeError>(e),
            None => match r {
                Ok(out) => resize_output(
                    source@,
                    out@,
                    source_size,
                    destination_size,
                    3,
                    bit_depth as int,
                    resampling_function,
                    *vertical,
                    *horizontal,
                ),
                Err(_) => false,
            },
        },
{
    resize_fixed_point(
        source,
        source_size,
        destination_size,
        3,
        bit_depth,
        resampling_function,
        vertical,
        horizontal,
    )
}

/// Resizes an image of a single plane with `bit_depth` significant bits per 16-bit sample.
///
/// These samples go through the same fixed-point engine as 8-bit ones, with
/// `i64` accumulators, rather than through a floating-point engine; the
/// result stays within one unit of the real-valued convolution. The
/// quantized weights of a row are used as given, without renormalization: a
/// row whose weights sum to `2^15 + e` shifts a level `v` unless
/// `-2^14 <= v * e < 2^14`, so with `e == 1` levels of `2^14` and above
/// can drift by one.
pub fn resize_plane16(
    source: &[u16],
    source_size: ImageSize,
    destination_size: ImageSize,
    bit_depth: u32,
    resampling_function: ResamplingFunction,
    vertical: &FilterPlan,
    horizontal: &FilterPlan,
) -> (r: Result<Vec<u16>, ResizeError>)
    ensures
        match resize_error::<u16>(
            source@.len() as int,
            source_size,
            destination_size,
            1,
            bit_depth as int,
            resampling_function,
            *vertical,
            *horizontal,
        ) {
            Some(e) => r == Err::<Vec<u16>, ResizeError>(e),
            None => match r {
                Ok(out) => resize_output(
                    source@,
                    out@,
                    source_size,
                    destination_size,
                    1,
                    bit_depth as int,
                    resampling_function,
                    *vertical,
                    *horizontal,
                ),
                Err(_) => false,
            },
        },
{
    resize_fixed_point(
        source,
        source_size,
        destination_size,
        1,
        bit_depth,
        resampling_function,
        vertical,
        horizontal,
    )
}

} // verus!
