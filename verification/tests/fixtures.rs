use halflight::{checkerboard, filter, fit_long_edge, parse_filter, synthetic_noise, Filter};

#[test]
fn checkerboard_alternates_black_and_white() {
    let v = checkerboard(4, 3);
    assert_eq!(v.len(), 48);
    for y in 0..4 {
        for x in 0..4 {
            let want = if (x + y) % 2 == 0 { 0 } else { 255 };
            for c in 0..3 {
                assert_eq!(v[(y * 4 + x) * 3 + c], want);
            }
        }
    }
    assert_eq!(&v[..6], &[0, 0, 0, 255, 255, 255]);
}

/// An even checkerboard is exactly half black and half white.
#[test]
fn even_checkerboard_is_exactly_half_white() {
    for (n, ch) in [(2, 1), (64, 3), (1024, 3)] {
        let v = checkerboard(n, ch);
        let white = v.iter().filter(|&&s| s == 255).count();
        let black = v.iter().filter(|&&s| s == 0).count();
        assert_eq!(white, n * n * ch / 2);
        assert_eq!(black, white);
    }
}

#[test]
fn odd_checkerboard_has_one_more_black_pixel() {
    let v = checkerboard(3, 1);
    assert_eq!(v, vec![0, 255, 0, 255, 0, 255, 0, 255, 0]);
    assert!(checkerboard(0, 3).is_empty());
    assert!(checkerboard(5, 0).is_empty());
}

fn reference_noise(count: usize) -> Vec<i8> {
    let mut s: u32 = 0x9E37_79B9;
    (0..count)
        .map(|_| {
            s ^= s << 13;
            s ^= s >> 17;
            s ^= s << 5;
            (s % 41) as i8 - 20
        })
        .collect()
}

#[test]
fn synthetic_noise_is_the_xorshift_stream() {
    let v = synthetic_noise(7, 5);
    assert_eq!(v.len(), 7 * 5 * 3);
    assert_eq!(v, reference_noise(105));
    assert!(v.iter().all(|&n| (-20..=20).contains(&n)));
    // The first state after one step from the seed.
    let mut s: u32 = 0x9E37_79B9;
    s ^= s << 13;
    s ^= s >> 17;
    s ^= s << 5;
    assert_eq!(v[0], (s % 41) as i8 - 20);
    assert!(synthetic_noise(0, 9).is_empty());
}

#[test]
fn synthetic_noise_is_deterministic_and_prefix_stable() {
    let a = synthetic_noise(16, 9);
    let b = synthetic_noise(16, 9);
    assert_eq!(a, b);
    let small = synthetic_noise(4, 3);
    assert_eq!(&a[..small.len()], &small[..]);
    assert!(a.iter().any(|&n| n != a[0]));
}

#[test]
fn filter_ids_fall_back_to_box() {
    assert_eq!(filter(0), Filter::Box);
    assert_eq!(filter(1), Filter::Lanczos3);
    assert_eq!(filter(2), Filter::Mitchell);
    for id in 3u8..=255 {
        assert_eq!(filter(id), Filter::Box);
    }
}

#[test]
fn parse_filter_reads_the_three_words() {
    assert_eq!(parse_filter("box"), Filter::Box);
    assert_eq!(parse_filter("lanczos3"), Filter::Lanczos3);
    assert_eq!(parse_filter("mitchell"), Filter::Mitchell);
}

#[test]
fn fit_long_edge_keeps_the_aspect_to_the_nearest_pixel() {
    assert_eq!(fit_long_edge(5952, 3968, 900, 600), (900, 600));
    assert_eq!(fit_long_edge(3968, 5952, 900, 600), (400, 600));
    assert_eq!(fit_long_edge(4928, 3279, 900, 600), (900, 599));
    assert_eq!(fit_long_edge(1000, 1000, 900, 600), (900, 900));
    // 3 * 900 / 4 = 675 exactly; 1 * 600 / 7 = 85.7 rounds up.
    assert_eq!(fit_long_edge(4, 3, 900, 600), (900, 675));
    assert_eq!(fit_long_edge(1, 7, 900, 600), (86, 600));
    assert_eq!(fit_long_edge(5, 0, 900, 600), (900, 0));
}

/// The short edge misses the exactly scaled one by at most half a pixel.
#[test]
fn fit_long_edge_rounds_to_the_nearest_pixel() {
    for long in [1usize, 600, 900] {
        for sw in 1usize..40 {
            for sh in 1usize..40 {
                let (dw, dh) = fit_long_edge(sw, sh, long, long);
                let (short, longer, got) = if sw >= sh {
                    assert_eq!(dw, long);
                    (sh, sw, dh)
                } else {
                    assert_eq!(dh, long);
                    (sw, sh, dw)
                };
                let (a, b) = (2 * got * longer, 2 * short * long);
                assert!(a <= b + longer && b < a + longer + 1, "{sw}x{sh} -> {dw}x{dh}");
            }
        }
    }
}
