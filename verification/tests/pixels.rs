use lbp_core::grayscale::grayscale;
use lbp_core::lbp::{lbp, local_binary_pattern};

fn gray_rgba(values: &[u8]) -> Vec<u8> {
    let mut out = Vec::new();
    for v in values {
        out.push(*v);
        out.push(*v);
        out.push(*v);
        out.push(255);
    }
    out
}

#[test]
fn test_local_binary_pattern() {
    let pixel_data = vec![
        255, 255, 255, 255, 255, 255, 255, 255, 255, 255, 255, 255, 255, 255, 255, 255, 0, 0,
        0, 255, 255, 255, 255, 255, 255, 255, 255, 255, 255, 255, 255, 255, 255, 255, 255, 255,
    ];
    let lbp_result = local_binary_pattern(pixel_data, 3, 3);

    let expected_value = 0b11111111;
    let computed_value = lbp_result[4];
    assert_eq!(
        computed_value, expected_value,
        "LBP value did not match expected."
    );
}

#[test]
fn all_brighter_neighbours_set_every_bit() {
    let gray = [255, 255, 255, 255, 0, 0, 0, 255, 255];
    let out = lbp(&gray, 3, 3);
    assert_eq!(out, vec![0, 0, 0, 0, 0b11111111, 0, 0, 0, 0]);
}

#[test]
fn mixed_neighbours_give_the_clockwise_code() {
    let gray = [48, 26, 105, 82, 56, 12, 64, 7, 32];
    let out = lbp(&gray, 3, 3);
    assert_eq!(out[4], 0b00100011);
    assert_eq!(out, vec![0, 0, 0, 0, 35, 0, 0, 0, 0]);
}

#[test]
fn a_tie_with_the_centre_sets_the_bit() {
    let gray = [7, 7, 7, 7, 7, 7, 7, 7, 7];
    let out = lbp(&gray, 3, 3);
    assert_eq!(out[4], 255);
    let gray = [6, 7, 6, 7, 7, 7, 6, 7, 6];
    let out = lbp(&gray, 3, 3);
    assert_eq!(out[4], 0b01010101);
}

#[test]
fn each_neighbour_owns_its_bit() {
    let positions = [0usize, 1, 2, 5, 8, 7, 6, 3];
    for (i, p) in positions.iter().enumerate() {
        let mut gray = [0u8; 9];
        gray[4] = 1;
        gray[*p] = 1;
        let out = lbp(&gray, 3, 3);
        assert_eq!(out[4], 1u8 << (7 - i));
    }
}

#[test]
fn wide_image_codes() {
    let gray = [
        10, 20, 30, 40, 50, 60, 70, 80, 90, 100, 5, 15, 25, 35, 45, 200, 150, 100, 50, 0,
    ];
    let out = lbp(&gray, 5, 4);
    assert_eq!(
        out,
        vec![0, 0, 0, 0, 0, 0, 16, 16, 16, 0, 0, 254, 254, 246, 0, 0, 0, 0, 0, 0]
    );
}

#[test]
fn tall_image_codes() {
    let gray = [
        11, 48, 85, 122, 159, 196, 233, 14, 51, 88, 125, 162, 199, 236, 17, 54, 91, 128, 165,
        202, 239, 20, 57, 94,
    ];
    let out = lbp(&gray, 4, 6);
    assert_eq!(
        out,
        vec![
            0, 0, 0, 0, 0, 16, 0, 0, 0, 246, 210, 0, 0, 0, 255, 0, 0, 210, 144, 0, 0, 0, 0, 0
        ]
    );
}

#[test]
fn border_cells_are_zero() {
    let (w, h) = (7u32, 5u32);
    let gray: Vec<u8> = (0..w * h).map(|i| ((i * 53 + 17) % 251) as u8).collect();
    let out = lbp(&gray, w, h);
    assert_eq!(out.len(), (w * h) as usize);
    for y in 0..h {
        for x in 0..w {
            if x == 0 || x == w - 1 || y == 0 || y == h - 1 {
                assert_eq!(out[(y * w + x) as usize], 0);
            }
        }
    }
}

#[test]
fn images_without_interior_are_all_zero() {
    for (w, h) in [(1u32, 1u32), (2, 2), (2, 9), (9, 2), (1, 5), (5, 1), (0, 0), (0, 4), (4, 0)] {
        let gray = vec![200u8; (w * h) as usize];
        let out = lbp(&gray, w, h);
        assert_eq!(out, vec![0u8; (w * h) as usize]);
        let rgba = vec![200u8; (w * h * 4) as usize];
        let out = local_binary_pattern(rgba, w, h);
        assert_eq!(out, vec![0u8; (w * h) as usize]);
    }
}

#[test]
fn lbp_leaves_the_gray_buffer_as_it_was() {
    let gray = vec![48u8, 26, 105, 82, 56, 12, 64, 7, 32];
    let before = gray.clone();
    let _ = lbp(&gray, 3, 3);
    assert_eq!(gray, before);
}

#[test]
fn luminance_of_the_primaries() {
    assert_eq!(grayscale(&[255, 0, 0, 255], 1, 1), vec![54]);
    assert_eq!(grayscale(&[0, 255, 0, 255], 1, 1), vec![182]);
    assert_eq!(grayscale(&[0, 0, 255, 255], 1, 1), vec![18]);
    assert_eq!(grayscale(&[10, 20, 30, 255], 1, 1), vec![18]);
    assert_eq!(grayscale(&[255, 255, 255, 255], 1, 1), vec![255]);
    assert_eq!(grayscale(&[254, 255, 255, 255], 1, 1), vec![254]);
    assert_eq!(grayscale(&[0, 0, 0, 0], 1, 1), vec![0]);
}

#[test]
fn luminance_ignores_alpha() {
    for a in [0u8, 1, 127, 255] {
        assert_eq!(grayscale(&[50, 93, 27, a], 1, 1), vec![79]);
    }
}

#[test]
fn luminance_of_equal_channels_is_that_value() {
    for v in 0..=255u8 {
        assert_eq!(grayscale(&[v, v, v, 9], 1, 1), vec![v]);
    }
}

#[test]
fn grayscale_keeps_row_major_order() {
    let rgba = [
        0, 3, 7, 0, 50, 93, 27, 17, 100, 183, 47, 34, 150, 17, 67, 51, 200, 107, 87, 68, 250,
        197, 107, 85,
    ];
    let expected = vec![2, 79, 155, 48, 125, 201];
    assert_eq!(grayscale(&rgba, 3, 2), expected);
    assert_eq!(grayscale(&rgba, 2, 3), expected);
    assert_eq!(grayscale(&rgba, 6, 1), expected);
    assert_eq!(grayscale(&rgba, 1, 6), expected);
}

#[test]
fn grayscale_of_an_empty_image_is_empty() {
    assert_eq!(grayscale(&[], 0, 0), Vec::<u8>::new());
    assert_eq!(grayscale(&[], 0, 7), Vec::<u8>::new());
    assert_eq!(grayscale(&[], 7, 0), Vec::<u8>::new());
}

#[test]
fn luminance_is_the_weighted_sum_rounded_down() {
    let steps: Vec<u8> = (0..=255u32).step_by(5).map(|v| v as u8).collect();
    let mut rgba = Vec::new();
    let mut expected = Vec::new();
    for r in &steps {
        for g in &steps {
            for b in &steps {
                rgba.extend_from_slice(&[*r, *g, *b, 255]);
                let sum = 2126 * (*r as u32) + 7152 * (*g as u32) + 722 * (*b as u32);
                expected.push((sum / 10000) as u8);
            }
        }
    }
    let n = steps.len() as u32;
    assert_eq!(grayscale(&rgba, n * n, n), expected);
}

#[test]
fn grayscale_agrees_with_the_image_crate() {
    let (w, h) = (5u32, 4u32);
    let rgba: Vec<u8> = (0..w * h * 4).map(|i| ((i * 97 + 31) % 256) as u8).collect();
    let img = image::RgbaImage::from_raw(w, h, rgba.clone()).unwrap();
    let mut reference = Vec::new();
    for y in 0..h {
        for x in 0..w {
            reference.push(image::Pixel::to_luma(img.get_pixel(x, y)).0[0]);
        }
    }
    assert_eq!(grayscale(&rgba, w, h), reference);
}

#[test]
fn colour_pipeline_on_a_wide_image() {
    let pixel_data = vec![
        68, 32, 130, 60, 253, 230, 241, 194, 107, 48, 249, 14, 199, 221, 1, 228, 136, 117, 52,
        162, 15, 11, 13, 4, 195, 110, 216, 14, 113, 224, 253, 119, 176, 118, 112, 235, 148, 11,
        213, 51, 95, 151, 61, 170, 216, 97, 155, 145,
    ];
    assert_eq!(
        grayscale(&pixel_data, 4, 3),
        vec![46, 235, 75, 200, 116, 11, 135, 202, 129, 54, 132, 126]
    );
    assert_eq!(
        local_binary_pattern(pixel_data, 4, 3),
        vec![0, 0, 0, 0, 0, 255, 176, 0, 0, 0, 0, 0]
    );
}

#[test]
fn pipeline_is_grayscale_then_lbp() {
    let (w, h) = (6u32, 5u32);
    let rgba: Vec<u8> = (0..w * h * 4).map(|i| ((i * 61 + 5) % 256) as u8).collect();
    let gray = grayscale(&rgba, w, h);
    assert_eq!(local_binary_pattern(rgba, w, h), lbp(&gray, w, h));
}

#[test]
fn gray_pixels_through_the_colour_pipeline() {
    let out = local_binary_pattern(gray_rgba(&[48, 26, 105, 82, 56, 12, 64, 7, 32]), 3, 3);
    assert_eq!(out, vec![0, 0, 0, 0, 0b00100011, 0, 0, 0, 0]);
}
