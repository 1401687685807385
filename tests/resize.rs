use pic_scale_safe::filter_weights::{FilterBounds, FilterPlan};
use pic_scale_safe::image_size::ImageSize;
use pic_scale_safe::resize_fixed_point::{resize_fixed_point, ResizeError};
use pic_scale_safe::resize_nearest::resize_nearest;
use pic_scale_safe::resizer::{
    resize_plane16, resize_plane8, resize_plane8_with_alpha, resize_rgb16, resize_rgb8,
    resize_rgba16, resize_rgba8,
};
use pic_scale_safe::sampler::ResamplingFunction;

fn box_kernel(x: f64) -> f64 {
    if x.abs() <= 0.5 {
        1.0
    } else {
        0.0
    }
}

fn triangle(x: f64) -> f64 {
    let x = x.abs();
    if x < 1.0 {
        1.0 - x
    } else {
        0.0
    }
}

fn sinc(x: f64) -> f64 {
    if x == 0.0 {
        1.0
    } else {
        let px = std::f64::consts::PI * x;
        px.sin() / px
    }
}

fn lanczos3(x: f64) -> f64 {
    let x = x.abs();
    if x < 3.0 {
        sinc(x) * sinc(x / 3.0)
    } else {
        0.0
    }
}

/// Real-valued weights of one axis, following the weight-table algorithm.
fn real_weights(
    kernel: fn(f64) -> f64,
    min_kernel_size: f64,
    in_size: usize,
    out_size: usize,
) -> (usize, Vec<(usize, usize)>, Vec<f64>) {
    let scale = in_size as f64 / out_size as f64;
    let cutoff = scale.max(1.0);
    let kernel_size = (2.0 * min_kernel_size * cutoff).round() as usize;
    let radius = kernel_size as f64 / 2.0;
    let mut bounds = Vec::new();
    let mut weights = vec![0.0; kernel_size * out_size];
    for i in 0..out_size {
        let center_x = ((i as f64 + 0.5) * scale).min(in_size as f64);
        let start = (center_x - radius).floor().max(0.0) as usize;
        let end = ((center_x + radius).ceil() as usize)
            .min(in_size)
            .min(start + kernel_size);
        let center = center_x - 0.5;
        let mut local = Vec::new();
        let mut sum = 0.0;
        for k in start..end {
            let w = kernel((k as f64 - center).abs() / cutoff);
            sum += w;
            local.push(w);
        }
        let row = &mut weights[i * kernel_size..(i + 1) * kernel_size];
        if sum != 0.0 {
            for (j, w) in local.iter().enumerate() {
                row[j] = w / sum;
            }
        } else {
            row[0] = 1.0;
        }
        bounds.push((start, end - start));
    }
    (kernel_size, bounds, weights)
}

fn quantized_plan(
    kernel: fn(f64) -> f64,
    min_kernel_size: f64,
    in_size: usize,
    out_size: usize,
) -> FilterPlan {
    let (aligned, bounds, weights) = real_weights(kernel, min_kernel_size, in_size, out_size);
    FilterPlan::new(
        in_size,
        out_size,
        aligned,
        bounds.iter().map(|&(s, n)| FilterBounds::new(s, n)).collect(),
        weights.iter().map(|w| (w * 32768.0).round() as i32).collect(),
    )
}

fn unused_plan() -> FilterPlan {
    FilterPlan::new(0, 0, 0, Vec::new(), Vec::new())
}

#[test]
fn identity_returns_input() {
    let src = [10u8, 20, 30, 40];
    let size = ImageSize::new(2, 2);
    let out = resize_plane8(
        &src,
        size,
        size,
        ResamplingFunction::Bilinear,
        &unused_plan(),
        &unused_plan(),
    )
    .unwrap();
    assert_eq!(out, vec![10, 20, 30, 40]);
}

#[test]
fn identity_for_every_kernel_and_16_bit() {
    let src: Vec<u16> = (0..24).map(|i| i * 1000).collect();
    let size = ImageSize::new(2, 3);
    for index in 0..39u32 {
        let f = ResamplingFunction::from(index);
        let out = resize_rgba16(&src, size, size, 16, f, &unused_plan(), &unused_plan()).unwrap();
        assert_eq!(out, src);
    }
}

#[test]
fn box_upscale() {
    let src = [100u8, 200];
    let h = quantized_plan(box_kernel, 2.0, 2, 4);
    let out = resize_plane8(
        &src,
        ImageSize::new(2, 1),
        ImageSize::new(4, 1),
        ResamplingFunction::Box,
        &unused_plan(),
        &h,
    )
    .unwrap();
    assert_eq!(out, vec![100, 100, 200, 200]);
}

#[test]
fn bilinear_two_to_one_horizontal() {
    let src = [0u8, 255];
    let h = quantized_plan(triangle, 2.0, 2, 1);
    let out = resize_plane8(
        &src,
        ImageSize::new(2, 1),
        ImageSize::new(1, 1),
        ResamplingFunction::Bilinear,
        &unused_plan(),
        &h,
    )
    .unwrap();
    assert_eq!(out.len(), 1);
    assert!(out[0] == 127 || out[0] == 128);
    assert_eq!(out[0], 128);
}

#[test]
fn lanczos3_constant_preservation() {
    let src = vec![77u8; 16 * 16 * 3];
    let v = quantized_plan(lanczos3, 3.0, 16, 9);
    let h = quantized_plan(lanczos3, 3.0, 16, 7);
    let out = resize_rgb8(
        &src,
        ImageSize::new(16, 16),
        ImageSize::new(7, 9),
        ResamplingFunction::Lanczos3,
        &v,
        &h,
    )
    .unwrap();
    assert_eq!(out.len(), 7 * 9 * 3);
    assert!(out.iter().all(|&s| s == 77));
}

#[test]
fn area_downscale_integer() {
    let src = [0u8, 0, 255, 255];
    let h = quantized_plan(box_kernel, 2.0, 4, 2);
    let out = resize_plane8(
        &src,
        ImageSize::new(4, 1),
        ImageSize::new(2, 1),
        ResamplingFunction::Area,
        &unused_plan(),
        &h,
    )
    .unwrap();
    assert_eq!(out, vec![0, 255]);
}

#[test]
fn nearest_short_circuit() {
    let src = [1u8, 2, 3, 4, 5, 6];
    let out = resize_plane8(
        &src,
        ImageSize::new(3, 2),
        ImageSize::new(6, 4),
        ResamplingFunction::Nearest,
        &unused_plan(),
        &unused_plan(),
    )
    .unwrap();
    assert_eq!(out.len(), 24);
    for y in 0..4usize {
        for x in 0..6usize {
            let sx = ((x as f64 + 0.5) * 0.5 - 0.5).floor().max(0.0).min(2.0) as usize;
            let sy = ((y as f64 + 0.5) * 0.5 - 0.5).floor().max(0.0).min(1.0) as usize;
            assert_eq!(out[y * 6 + x], src[sy * 3 + sx]);
        }
    }
    assert_eq!(
        out,
        vec![1, 1, 1, 2, 2, 3, 1, 1, 1, 2, 2, 3, 1, 1, 1, 2, 2, 3, 4, 4, 4, 5, 5, 6]
    );
}

#[test]
fn nearest_into_slice() {
    let src = [1u8, 10, 2, 20];
    let mut dst = vec![0u8; 8];
    resize_nearest(&src, 2, 1, &mut dst, 4, 1, 2);
    assert_eq!(dst, vec![1, 10, 1, 10, 1, 10, 2, 20]);
}

#[test]
fn output_dimensions_match_destination() {
    let src: Vec<u8> = (0..5 * 4 * 4).map(|i| (i * 3 % 256) as u8).collect();
    let v = quantized_plan(triangle, 2.0, 4, 7);
    let h = quantized_plan(triangle, 2.0, 5, 3);
    let out = resize_rgba8(
        &src,
        ImageSize::new(5, 4),
        ImageSize::new(3, 7),
        ResamplingFunction::Bilinear,
        &v,
        &h,
    )
    .unwrap();
    assert_eq!(out.len(), 3 * 7 * 4);
}

#[test]
fn single_pixel_source_fills_output() {
    let src = [12u8, 200];
    let v = quantized_plan(lanczos3, 3.0, 1, 3);
    let h = quantized_plan(lanczos3, 3.0, 1, 5);
    let out = resize_plane8_with_alpha(
        &src,
        ImageSize::new(1, 1),
        ImageSize::new(5, 3),
        ResamplingFunction::Lanczos3,
        &v,
        &h,
    )
    .unwrap();
    assert_eq!(out.len(), 5 * 3 * 2);
    for px in out.chunks(2) {
        assert_eq!(px, &[12, 200]);
    }
}

#[test]
fn many_to_one_is_weighted_mean() {
    let src = [10u8, 20, 30, 40, 50, 60];
    let v = quantized_plan(box_kernel, 2.0, 2, 1);
    let h = quantized_plan(box_kernel, 2.0, 3, 1);
    let out = resize_plane8(
        &src,
        ImageSize::new(3, 2),
        ImageSize::new(1, 1),
        ResamplingFunction::Box,
        &v,
        &h,
    )
    .unwrap();
    // columns average to 25, 35, 45; their mean is 35
    assert_eq!(out, vec![35]);
}

#[test]
fn height_only_runs_column_pass() {
    let src = [0u8, 100, 200, 50];
    let v = quantized_plan(box_kernel, 2.0, 2, 1);
    let out = resize_plane8(
        &src,
        ImageSize::new(2, 2),
        ImageSize::new(2, 1),
        ResamplingFunction::Box,
        &v,
        &unused_plan(),
    )
    .unwrap();
    assert_eq!(out, vec![100, 75]);
}

#[test]
fn negative_lobes_saturate() {
    let src = [0u8, 255];
    let wide = FilterPlan::new(
        2,
        3,
        2,
        vec![
            FilterBounds::new(0, 2),
            FilterBounds::new(0, 2),
            FilterBounds::new(0, 2),
        ],
        vec![-16384, 49152, 49152, -16384, 16384, 16384],
    );
    let out = resize_plane8(
        &src,
        ImageSize::new(2, 1),
        ImageSize::new(3, 1),
        ResamplingFunction::Lanczos3,
        &unused_plan(),
        &wide,
    )
    .unwrap();
    assert_eq!(out, vec![255, 0, 128]);
}

#[test]
fn fixed_point_within_one_of_real_result() {
    let (w, h, c) = (9usize, 7usize, 3usize);
    let src: Vec<u8> = (0..w * h * c).map(|i| ((i * 37 + i / 5) % 256) as u8).collect();
    let (dw, dh) = (4usize, 11usize);
    let vp = quantized_plan(lanczos3, 3.0, h, dh);
    let hp = quantized_plan(lanczos3, 3.0, w, dw);
    let out = resize_rgb8(
        &src,
        ImageSize::new(w, h),
        ImageSize::new(dw, dh),
        ResamplingFunction::Lanczos3,
        &vp,
        &hp,
    )
    .unwrap();
    let (va, vb, vw) = real_weights(lanczos3, 3.0, h, dh);
    let (ha, hb, hw) = real_weights(lanczos3, 3.0, w, dw);
    let mut mid = vec![0u8; w * dh * c];
    for y in 0..dh {
        for xc in 0..w * c {
            let (s, n) = vb[y];
            let mut acc = 0.0;
            for k in 0..n {
                acc += vw[y * va + k] * src[(s + k) * w * c + xc] as f64;
            }
            mid[y * w * c + xc] = acc.round().clamp(0.0, 255.0) as u8;
        }
    }
    for y in 0..dh {
        for x in 0..dw {
            for ch in 0..c {
                let (s, n) = hb[x];
                let mut acc = 0.0;
                for k in 0..n {
                    acc += hw[x * ha + k] * mid[y * w * c + (s + k) * c + ch] as f64;
                }
                let real = acc.round().clamp(0.0, 255.0) as i32;
                let fixed = out[y * dw * c + x * c + ch] as i32;
                assert!((real - fixed).abs() <= 1, "{} vs {}", real, fixed);
            }
        }
    }
}

#[test]
fn chain_through_equal_size_matches_direct() {
    let src: Vec<u8> = (0..6 * 4).map(|i| (i * 11 % 256) as u8).collect();
    let a = ImageSize::new(6, 4);
    let c = ImageSize::new(3, 5);
    let v = quantized_plan(triangle, 2.0, 4, 5);
    let h = quantized_plan(triangle, 2.0, 6, 3);
    let f = ResamplingFunction::Bilinear;
    let direct = resize_plane8(&src, a, c, f, &v, &h).unwrap();
    let first = resize_plane8(&src, a, a, f, &v, &h).unwrap();
    let second = resize_plane8(&first, a, c, f, &v, &h).unwrap();
    assert_eq!(second, direct);
    let again = resize_plane8(&direct, c, c, f, &v, &h).unwrap();
    assert_eq!(again, direct);
}

#[test]
fn sixteen_bit_constant_and_range() {
    let src = vec![1000u16; 6 * 5 * 4];
    let v = quantized_plan(lanczos3, 3.0, 5, 3);
    let h = quantized_plan(lanczos3, 3.0, 6, 8);
    let out = resize_rgba16(
        &src,
        ImageSize::new(6, 5),
        ImageSize::new(8, 3),
        10,
        ResamplingFunction::Lanczos3,
        &v,
        &h,
    )
    .unwrap();
    assert_eq!(out.len(), 8 * 3 * 4);
    assert!(out.iter().all(|&s| s == 1000));
    let src: Vec<u16> = (0..4 * 3).map(|i| if i % 2 == 0 { 0 } else { 1023 }).collect();
    let h = quantized_plan(lanczos3, 3.0, 4, 9);
    let out = resize_rgb16(
        &src,
        ImageSize::new(4, 1),
        ImageSize::new(9, 1),
        10,
        ResamplingFunction::Lanczos3,
        &unused_plan(),
        &h,
    )
    .unwrap();
    assert!(out.iter().all(|&s| s <= 1023));
    let out = resize_plane16(
        &[0u16, 65535],
        ImageSize::new(2, 1),
        ImageSize::new(1, 1),
        16,
        ResamplingFunction::Bilinear,
        &unused_plan(),
        &quantized_plan(triangle, 2.0, 2, 1),
    )
    .unwrap();
    assert_eq!(out, vec![32768]);
}

#[test]
fn errors_for_each_variant() {
    let p = unused_plan();
    let s = ImageSize::new(2, 2);
    let f = ResamplingFunction::Bilinear;
    assert_eq!(
        resize_fixed_point(&[0u8; 4], s, s, 5, 8, f, &p, &p),
        Err(ResizeError::InvalidChannelCount)
    );
    assert_eq!(
        resize_fixed_point(&[0u8; 4], s, s, 0, 8, f, &p, &p),
        Err(ResizeError::InvalidChannelCount)
    );
    assert_eq!(
        resize_rgba16(&[0u16; 16], s, s, 17, f, &p, &p),
        Err(ResizeError::InvalidBitDepth)
    );
    assert_eq!(
        resize_rgba16(&[0u16; 16], s, s, 0, f, &p, &p),
        Err(ResizeError::InvalidBitDepth)
    );
    assert_eq!(
        resize_fixed_point(&[0u8; 4], s, s, 1, 9, f, &p, &p),
        Err(ResizeError::InvalidBitDepth)
    );
    assert_eq!(
        resize_plane8(&[0u8; 3], s, s, f, &p, &p),
        Err(ResizeError::BufferSizeMismatch(4, 3))
    );
    assert_eq!(
        resize_plane8(&[], ImageSize::new(0, 2), s, f, &p, &p),
        Err(ResizeError::ZeroDimension)
    );
    assert_eq!(
        resize_rgba8(&[0u8; 16], s, ImageSize::new(usize::MAX / 2, 1), f, &p, &p),
        Err(ResizeError::DimensionOverflow)
    );
    assert_eq!(
        resize_plane8(&[0u8; 4], s, ImageSize::new(3, 2), f, &p, &p),
        Err(ResizeError::PlanMismatch)
    );
    let wrong = quantized_plan(triangle, 2.0, 2, 4);
    assert_eq!(
        resize_plane8(&[0u8; 4], s, ImageSize::new(3, 2), f, &p, &wrong),
        Err(ResizeError::PlanMismatch)
    );
}

#[test]
fn malformed_plans_are_refused() {
    let good = quantized_plan(triangle, 2.0, 4, 2);
    assert!(good.is_well_formed());
    let mut outside = good.clone();
    outside.bounds[1] = FilterBounds::new(3, 2);
    assert!(!outside.is_well_formed());
    let mut padded = good.clone();
    let last = padded.weights.len() - 1;
    padded.weights[last] = 5;
    assert!(!padded.is_well_formed());
    let short = FilterPlan::new(4, 2, 2, vec![FilterBounds::new(0, 1)], vec![0; 4]);
    assert!(!short.is_well_formed());
    let heavy = FilterPlan::new(
        4,
        1,
        4,
        vec![FilterBounds::new(0, 4)],
        vec![i32::MAX, i32::MAX, i32::MAX, i32::MAX],
    );
    assert!(heavy.is_well_formed());
    let too_heavy = FilterPlan::new(
        1000,
        1,
        1000,
        vec![FilterBounds::new(0, 1000)],
        vec![i32::MAX; 1000],
    );
    assert!(!too_heavy.is_well_formed());
    let src = [1u8, 2, 3, 4];
    assert_eq!(
        resize_plane8(
            &src,
            ImageSize::new(4, 1),
            ImageSize::new(2, 1),
            ResamplingFunction::Bilinear,
            &unused_plan(),
            &outside,
        ),
        Err(ResizeError::PlanMismatch)
    );
}

#[test]
fn selector_indices() {
    assert_eq!(ResamplingFunction::from(0), ResamplingFunction::Bilinear);
    assert_eq!(ResamplingFunction::from(1), ResamplingFunction::Nearest);
    assert_eq!(ResamplingFunction::from(27), ResamplingFunction::Lanczos3);
    assert_eq!(ResamplingFunction::from(38), ResamplingFunction::Area);
    assert_eq!(ResamplingFunction::from(39), ResamplingFunction::Bilinear);
    assert_eq!(ResamplingFunction::from(u32::MAX), ResamplingFunction::Bilinear);
    for i in 0..39u32 {
        assert_eq!(ResamplingFunction::from(i).index(), i);
    }
    assert_eq!(ResamplingFunction::default(), ResamplingFunction::MitchellNetravalli);
    assert_eq!(ResamplingFunction::Lanczos3.min_kernel_size(), 3);
    assert_eq!(ResamplingFunction::Spline64.min_kernel_size(), 6);
    assert_eq!(ResamplingFunction::Bilinear.min_kernel_size(), 2);
    assert!(!ResamplingFunction::Spline36.is_resizable_kernel());
    assert!(ResamplingFunction::Lanczos3.is_resizable_kernel());
    assert!(ResamplingFunction::Area.is_area_filter());
    assert!(!ResamplingFunction::Box.is_area_filter());
    assert!(ResamplingFunction::Ginseng.has_window());
    assert!(!ResamplingFunction::Lanczos3Jinc.has_window());
}
