use halflight::{checkerboard, fir_u8, fir_u8_srgb_mapped, Filter};
use image::{imageops::FilterType as ImgFilter, ImageBuffer, Rgb};

const N: usize = 1024;
const OUT: usize = 64;
const IDEAL: f64 = 187.5;

fn interior_mean(px: &[u8], w: usize, h: usize, ch: usize, margin: usize) -> f64 {
    let (mut t, mut n) = (0f64, 0usize);
    for y in margin..h - margin {
        for x in margin..w - margin {
            for c in 0..ch {
                t += px[(y * w + x) * ch + c] as f64;
                n += 1;
            }
        }
    }
    t / n as f64
}

fn image_u8(src: &[u8], sw: usize, sh: usize, dw: usize, dh: usize) -> Vec<u8> {
    let img: ImageBuffer<Rgb<u8>, Vec<u8>> =
        ImageBuffer::from_raw(sw as u32, sh as u32, src.to_vec()).unwrap();
    image::imageops::resize(&img, dw as u32, dh as u32, ImgFilter::Lanczos3).into_raw()
}

#[test]
fn fir_mapped_path_agrees_once_you_opt_in() {
    let src = checkerboard(N, 3);
    let out = fir_u8_srgb_mapped(&src, N, N, OUT, OUT, Filter::Box);
    let m = interior_mean(&out, OUT, OUT, 3, 2);
    assert!((m - IDEAL).abs() < 1.5, "fir mapped: {m:.1}, expected ~{IDEAL}");
}

/// The incumbents' DEFAULT paths average encoded values.
#[test]
fn the_default_paths_average_encoded_values() {
    let src = checkerboard(N, 3);
    let img = interior_mean(&image_u8(&src, N, N, OUT, OUT), OUT, OUT, 3, 2);
    let fir = interior_mean(&fir_u8(&src, N, N, OUT, OUT, Filter::Box), OUT, OUT, 3, 2);
    assert!(
        (img - 127.5).abs() < 2.0,
        "image's default path read {img:.1}; if it moved toward {IDEAL} the README is out of date"
    );
    assert!((fir - 127.5).abs() < 2.0, "fast_image_resize's default path read {fir:.1}; if it moved toward {IDEAL} the README is out of date");
}

#[test]
fn fir_u8_shapes_the_output_to_the_destination() {
    let src = checkerboard(16, 3);
    for f in [Filter::Box, Filter::Lanczos3, Filter::Mitchell] {
        let out = fir_u8(&src, 16, 16, 4, 2, f);
        assert_eq!(out.len(), 4 * 2 * 3);
        let up = fir_u8(&src, 16, 16, 20, 18, f);
        assert_eq!(up.len(), 20 * 18 * 3);
    }
    assert!(fir_u8(&src, 16, 16, 0, 5, Filter::Box).is_empty());
}

#[test]
fn fir_u8_at_the_same_size_is_a_copy() {
    let src: Vec<u8> = (0..7 * 5 * 3).map(|i| (i * 37 % 251) as u8).collect();
    assert_eq!(fir_u8(&src, 7, 5, 7, 5, Filter::Lanczos3), src);
    // A longer buffer: the frame is its first 7 x 5 pixels.
    let mut longer = src.clone();
    longer.extend_from_slice(&[9, 9, 9]);
    assert_eq!(fir_u8(&longer, 7, 5, 7, 5, Filter::Box), src);
}

#[test]
fn fir_mapped_path_shapes_the_output_and_keeps_flat_fields() {
    let out = fir_u8_srgb_mapped(&checkerboard(16, 3), 16, 16, 4, 4, Filter::Box);
    assert_eq!(out.len(), 4 * 4 * 3);
    let flat = vec![200u8; 12 * 10 * 3];
    let back = fir_u8_srgb_mapped(&flat, 12, 10, 6, 5, Filter::Box);
    assert_eq!(back.len(), 6 * 5 * 3);
    assert!(back.iter().all(|&v| v.abs_diff(200) <= 1));
    let same = fir_u8_srgb_mapped(&flat, 12, 10, 12, 10, Filter::Mitchell);
    assert_eq!(same.len(), flat.len());
    assert!(same.iter().all(|&v| v.abs_diff(200) <= 1));
}

/// Through the sRGB mapper at unit scale, black stays black and white white.
#[test]
fn fir_mapped_path_keeps_black_and_white_at_unit_scale() {
    let src = checkerboard(12, 3);
    for f in [Filter::Box, Filter::Lanczos3, Filter::Mitchell] {
        assert_eq!(fir_u8_srgb_mapped(&src, 12, 12, 12, 12, f), src);
    }
}

/// A Box or Mitchell resize is a function of its arguments: the same call
/// gives the same bytes, and the filter matters.
#[test]
fn fir_u8_is_reproducible_and_follows_the_filter() {
    let src: Vec<u8> = (0..20 * 14 * 3).map(|i| (i * 53 % 256) as u8).collect();
    let a = fir_u8(&src, 20, 14, 7, 5, Filter::Box);
    let b = fir_u8(&src, 20, 14, 7, 5, Filter::Box);
    let m = fir_u8(&src, 20, 14, 7, 5, Filter::Mitchell);
    assert_eq!(a, b);
    assert_eq!(m, fir_u8(&src, 20, 14, 7, 5, Filter::Mitchell));
    assert_ne!(a, m);
    let c = fir_u8_srgb_mapped(&src, 20, 14, 7, 5, Filter::Box);
    assert_eq!(c, fir_u8_srgb_mapped(&src, 20, 14, 7, 5, Filter::Box));
    assert_ne!(a, c);
}
