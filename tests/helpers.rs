use pic_scale_safe::alpha::{
    premultiply_la16, premultiply_la8, premultiply_rgba16, premultiply_rgba8, unpremultiply_la16,
    unpremultiply_la8, unpremultiply_rgba16, unpremultiply_rgba8,
};
use pic_scale_safe::alpha_check::{
    has_non_constant_alpha_la16, has_non_constant_alpha_la8, has_non_constant_alpha_rgba16,
    has_non_constant_alpha_rgba8,
};
use pic_scale_safe::trc_handler::{
    image16_to_linear16, image_to_linear, linear16_to_gamma_image16, linear_to_gamma_image,
};

#[test]
fn premultiply_rgba8_rounds_and_keeps_tail() {
    let mut px = vec![200u8, 100, 50, 128, 7, 9];
    premultiply_rgba8(&mut px);
    assert_eq!(px, vec![100, 50, 25, 128, 7, 9]);
    let mut opaque = vec![17u8, 0, 255, 255];
    premultiply_rgba8(&mut opaque);
    assert_eq!(opaque, vec![17, 0, 255, 255]);
}

#[test]
fn unpremultiply_rgba8_divides_and_skips_zero_alpha() {
    let mut px = vec![100u8, 50, 25, 128, 10, 20, 30, 0, 200, 0, 0, 100];
    unpremultiply_rgba8(&mut px);
    assert_eq!(px, vec![199, 99, 49, 128, 10, 20, 30, 0, 255, 0, 0, 100]);
}

#[test]
fn luma_alpha_8_bit() {
    let mut px = vec![100u8, 51, 255, 255];
    premultiply_la8(&mut px);
    assert_eq!(px, vec![20, 51, 255, 255]);
    let mut px = vec![20u8, 10, 3, 0];
    unpremultiply_la8(&mut px);
    assert_eq!(px, vec![255, 10, 3, 0]);
}

#[test]
fn sixteen_bit_alpha() {
    let mut px = vec![1000u16, 500, 1023, 512];
    premultiply_rgba16(&mut px, 10);
    assert_eq!(px, vec![500, 250, 512, 512]);
    unpremultiply_rgba16(&mut px, 10);
    assert_eq!(px, vec![999, 499, 1023, 512]);
    let mut la = vec![65535u16, 65535, 40000, 0];
    premultiply_la16(&mut la, 16);
    assert_eq!(la, vec![65535, 65535, 0, 0]);
    let mut la = vec![100u16, 0, 100, 200];
    unpremultiply_la16(&mut la, 8);
    assert_eq!(la, vec![100, 0, 127, 200]);
}

#[test]
fn alpha_scan() {
    assert!(!has_non_constant_alpha_rgba8(&[], 3));
    assert!(!has_non_constant_alpha_rgba8(&[5, 0, 0, 5, 1, 1, 1, 5], 2));
    assert!(has_non_constant_alpha_rgba8(&[5, 0, 0, 5, 1, 1, 1, 6], 2));
    assert!(!has_non_constant_alpha_rgba8(
        &[5, 0, 0, 5, 1, 1, 1, 5, 0, 0, 0, 9],
        2
    ));
    assert!(!has_non_constant_alpha_rgba8(&[0, 0, 0, 9, 0, 0, 0, 9], 1));
    assert!(!has_non_constant_alpha_rgba8(&[0, 0, 0, 255, 0, 0, 0, 255], 2));
    assert!(has_non_constant_alpha_rgba8(&[0, 0, 0, 255, 0, 0, 0, 254], 2));
    assert!(!has_non_constant_alpha_rgba8(&[1, 2], 1));
    assert!(!has_non_constant_alpha_la8(&[4, 4, 1, 4], 2));
    assert!(!has_non_constant_alpha_la8(&[0, 200, 9, 200], 2));
    assert!(has_non_constant_alpha_la8(&[4, 4, 1, 3], 1));
    assert!(!has_non_constant_alpha_la16(&[3, 3, 7, 3], 2));
    assert!(has_non_constant_alpha_la16(&[3, 3, 7, 4], 2));
    assert!(!has_non_constant_alpha_rgba16(&[700, 1, 2, 700], 1));
    assert!(has_non_constant_alpha_rgba16(&[700, 1, 2, 700, 0, 0, 0, 699], 1));
}

#[test]
fn lookup_tables_convert_color_only() {
    let lut: Vec<u8> = (0..256).map(|i| (255 - i) as u8).collect();
    let mut rgba = vec![10u8, 20, 30, 40];
    image_to_linear(&mut rgba, 4, &lut);
    assert_eq!(rgba, vec![245, 235, 225, 40]);
    let mut la = vec![10u8, 20];
    linear_to_gamma_image(&mut la, 2, &lut);
    assert_eq!(la, vec![245, 20]);
    let mut rgb = vec![1u8, 2, 3, 4, 5];
    image_to_linear(&mut rgb, 3, &lut);
    assert_eq!(rgb, vec![254, 253, 252, 4, 5]);
    let lut16 = vec![3u16, 2, 1, 0];
    let mut plane = vec![0u16, 1, 2, 3];
    image16_to_linear16(&mut plane, 1, 2, &lut16);
    assert_eq!(plane, vec![3, 2, 1, 0]);
    let mut la16 = vec![1u16, 9];
    linear16_to_gamma_image16(&mut la16, 2, 2, &lut16);
    assert_eq!(la16, vec![2, 9]);
}
