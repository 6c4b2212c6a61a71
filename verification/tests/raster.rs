use usvg_core::convolve::{ConvolveMatrix, EdgeMode};
use usvg_core::filters::{
    calc_diffuse_alpha, calc_specular_alpha, from_linear_rgb, into_linear_rgb, multiply_alpha, ImageRef,
    ImageRefMut, LINEAR_RGB_TO_SRGB_TABLE, RGBA8, SRGB_TO_LINEAR_RGB_TABLE,
};
use usvg_core::lighting::{surface_normal, Factor, Normal};

fn px(r: u8, g: u8, b: u8, a: u8) -> RGBA8 {
    RGBA8 { r, g, b, a }
}

#[test]
fn color_space_round_trip_of_extremes() {
    let mut data = vec![px(0, 255, 128, 7), px(255, 0, 1, 255)];
    into_linear_rgb(&mut data);
    assert_eq!(data[0], px(0, 255, SRGB_TO_LINEAR_RGB_TABLE[128], 7));
    assert_eq!(data[1], px(255, 0, SRGB_TO_LINEAR_RGB_TABLE[1], 255));
    from_linear_rgb(&mut data);
    assert_eq!(data[0].r, 0);
    assert_eq!(data[0].g, 255);
    assert_eq!(data[0].a, 7);
    assert_eq!(data[1].b, LINEAR_RGB_TO_SRGB_TABLE[SRGB_TO_LINEAR_RGB_TABLE[1] as usize]);
}

#[test]
fn color_space_tables_values() {
    assert_eq!(SRGB_TO_LINEAR_RGB_TABLE[0], 0);
    assert_eq!(SRGB_TO_LINEAR_RGB_TABLE[255], 255);
    assert_eq!(LINEAR_RGB_TO_SRGB_TABLE[0], 0);
    assert_eq!(LINEAR_RGB_TO_SRGB_TABLE[1], 13);
    assert_eq!(LINEAR_RGB_TO_SRGB_TABLE[255], 255);
}

#[test]
fn lighting_alphas() {
    assert_eq!(calc_diffuse_alpha(1, 2, 3), 255);
    assert_eq!(calc_specular_alpha(10, 200, 30), 200);
    assert_eq!(calc_specular_alpha(0, 0, 0), 0);
    assert_eq!(calc_specular_alpha(9, 3, 9), 9);
}

#[test]
fn image_refs() {
    let data = vec![px(0, 0, 0, 1), px(0, 0, 0, 2), px(0, 0, 0, 3), px(0, 0, 0, 4)];
    let img = ImageRef::new(&data, 2, 2);
    assert_eq!(img.alpha_at(1, 0), 2);
    assert_eq!(img.alpha_at(0, 1), 3);
    let mut data = data.clone();
    let mut img = ImageRefMut::new(&mut data, 2, 2);
    assert_eq!(img.pixel_at(1, 1).a, 4);
    img.pixel_at_mut(0, 1).r = 9;
    assert_eq!(data[2], px(9, 0, 0, 3));
}

fn alpha_image(alphas: &[u8]) -> Vec<RGBA8> {
    alphas.iter().map(|&a| px(0, 0, 0, a)).collect()
}

#[test]
fn flat_surface_normals_are_zero() {
    let data = alpha_image(&[100; 12]);
    let img = ImageRef::new(&data, 4, 3);
    for y in 0..3 {
        for x in 0..4 {
            let n = surface_normal(img, x, y);
            assert_eq!((n.normal_x, n.normal_y), (0, 0));
        }
    }
}

#[test]
fn surface_normal_kernels() {
    // 3 x 3, alpha rising to the right.
    let data = alpha_image(&[0, 10, 20, 0, 10, 20, 0, 10, 20]);
    let img = ImageRef::new(&data, 3, 3);
    // Interior: Sobel x = (20 - 0) + 2 * (20 - 0) + (20 - 0) = 80, y = 0.
    assert_eq!(
        surface_normal(img, 1, 1),
        Normal { factor_x: Factor::OneQuarter, factor_y: Factor::OneQuarter, normal_x: -80, normal_y: 0 }
    );
    // Top left: -2*0 + 2*10 - 0 + 10 = 30; -2*0 - 10 + 2*0 + 10 = 0.
    assert_eq!(
        surface_normal(img, 0, 0),
        Normal { factor_x: Factor::TwoThirds, factor_y: Factor::TwoThirds, normal_x: -30, normal_y: 0 }
    );
    // Top row middle: -2*0 + 2*20 - 0 + 20 = 60.
    assert_eq!(
        surface_normal(img, 1, 0),
        Normal { factor_x: Factor::OneThird, factor_y: Factor::OneHalf, normal_x: -60, normal_y: 0 }
    );
    // Left column middle: -0 + 10 - 0 + 2*10 - 0 + 10 = 40.
    assert_eq!(
        surface_normal(img, 0, 1),
        Normal { factor_x: Factor::OneHalf, factor_y: Factor::OneThird, normal_x: -40, normal_y: 0 }
    );
    assert_eq!(Normal::new(Factor::OneHalf, Factor::OneHalf, 5, -7).normal_y, 7);
}

#[test]
fn convolve_matrix_construction() {
    let values = [1, 2, 3, 4, 5, 6];
    let m = ConvolveMatrix::new(1, 0, 3, 2, &values).unwrap();
    assert_eq!((m.target_x(), m.target_y(), m.columns(), m.rows()), (1, 0, 3, 2));
    assert_eq!(*m.get(2, 1), 6);
    assert_eq!(*m.get(0, 1), 4);
    assert_eq!(m.data(), &values[..]);
    assert!(ConvolveMatrix::new(3, 0, 3, 2, &values).is_none());
    assert!(ConvolveMatrix::new(0, 2, 3, 2, &values).is_none());
    assert!(ConvolveMatrix::new(0, 0, 2, 2, &values).is_none());
}

#[test]
fn convolve_edge_modes() {
    let values = [0; 9];
    let m = ConvolveMatrix::new(1, 1, 3, 3, &values).unwrap();
    // Output pixel (0, 0) of a 4 x 4 image, cell (0, 0) reads (-1, -1).
    assert_eq!(m.source_pixel(EdgeMode::Zero, 0, 0, 0, 0, 4, 4), None);
    assert_eq!(m.source_pixel(EdgeMode::Duplicate, 0, 0, 0, 0, 4, 4), Some((0, 0)));
    assert_eq!(m.source_pixel(EdgeMode::Wrap, 0, 0, 0, 0, 4, 4), Some((3, 3)));
    assert_eq!(m.source_pixel(EdgeMode::Zero, 2, 1, 2, 2, 4, 4), Some((3, 2)));
    assert_eq!(m.source_pixel(EdgeMode::Duplicate, 3, 3, 2, 2, 4, 4), Some((3, 3)));
    assert_eq!(m.source_pixel(EdgeMode::Wrap, 3, 3, 2, 2, 4, 4), Some((0, 0)));
}

#[test]
fn premultiplying_matches_rounded_float_product() {
    for a in 0..=255u8 {
        let mut data: Vec<RGBA8> = (0..=255u8).map(|c| px(c, 255 - c, c / 2, a)).collect();
        let before = data.clone();
        multiply_alpha(&mut data);
        for (p, q) in before.iter().zip(data.iter()) {
            let af = p.a as f64 / 255.0;
            assert_eq!(q.r, (p.r as f64 * af + 0.5) as u8);
            assert_eq!(q.g, (p.g as f64 * af + 0.5) as u8);
            assert_eq!(q.b, (p.b as f64 * af + 0.5) as u8);
            assert_eq!(q.a, p.a);
            assert!(q.r <= q.a && q.g <= q.a && q.b <= q.a);
        }
    }
}
