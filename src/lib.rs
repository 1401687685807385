//! Separable image resampling with a verified fixed-point convolution core.
//!
//! A resize runs a vertical pass (source height to destination height) and
//! a horizontal pass (source width to destination width), each driven by a
//! filter plan: for every output index, a clamped input span and a row of
//! weights quantized with fifteen fractional bits. Plans are checked for
//! well-formedness before use; every output sample of each pass is stated
//! exactly in the contracts, and the general properties of a resize are
//! proved in `laws`.
use vstd::prelude::*;

pub mod alpha;
pub mod alpha_check;
pub mod color_group;
pub mod filter_weights;
pub mod fixed_point_dispatch;
pub mod fixed_point_horizontal;
pub mod fixed_point_vertical;
pub mod image_size;
pub mod laws;
pub mod resize_fixed_point;
pub mod resize_nearest;
pub mod resizer;
pub mod sample;
pub mod sampler;
pub mod trc_handler;

pub use alpha::{
    premultiply_la16, premultiply_la8, premultiply_rgba16, premultiply_rgba8, unpremultiply_la16,
    unpremultiply_la8, unpremultiply_rgba16, unpremultiply_rgba8,
};
pub use alpha_check::{
    has_non_constant_alpha_la16, has_non_constant_alpha_la8, has_non_constant_alpha_rgba16,
    has_non_constant_alpha_rgba8,
};
pub use filter_weights::{FilterBounds, FilterPlan};
pub use image_size::ImageSize;
pub use resize_fixed_point::{resize_fixed_point, ResizeError};
pub use resize_nearest::resize_nearest;
pub use resizer::{
    resize_plane16, resize_plane8, resize_plane8_with_alpha, resize_rgb16, resize_rgb8,
    resize_rgba16, resize_rgba8,
};
pub use sample::{saturate_narrow, Sample, PRECISION, ROUNDING_CONST};
pub use sampler::ResamplingFunction;
pub use trc_handler::{
    image16_to_linear16, image_to_linear, linear16_to_gamma_image16, linear_to_gamma_image,
};
