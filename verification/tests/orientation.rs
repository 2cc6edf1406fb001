use halflight::{orient, source_sample, Orientation};

const ALL: [Orientation; 8] = [
    Orientation::Upright,
    Orientation::MirrorHorizontal,
    Orientation::Rotate180,
    Orientation::MirrorVertical,
    Orientation::Transpose,
    Orientation::Rotate90,
    Orientation::Transverse,
    Orientation::Rotate270,
];

/// The per-pixel `orient` is pinned by hand on a frame whose every sample
/// is distinct.
#[test]
fn orient_matches_hand_computed_answers() {
    // stored:  1 2 3
    //          4 5 6
    let src = [1., 2., 3., 4., 5., 6.];
    let cases: [(u8, &[f32]); 8] = [
        (1, &[1., 2., 3., 4., 5., 6.]),
        (2, &[3., 2., 1., 6., 5., 4.]),
        (3, &[6., 5., 4., 3., 2., 1.]),
        (4, &[4., 5., 6., 1., 2., 3.]),
        (5, &[1., 4., 2., 5., 3., 6.]),
        (6, &[4., 1., 5., 2., 6., 3.]),
        (7, &[6., 3., 5., 2., 4., 1.]),
        (8, &[3., 6., 2., 5., 1., 4.]),
    ];
    for (v, want) in cases {
        let o = Orientation::from_exif(v).unwrap();
        assert_eq!(orient(&src, 3, 2, 1, o), want, "orientation {v}");
    }
    assert!(Orientation::from_exif(0).is_none() && Orientation::from_exif(9).is_none());
}

#[test]
fn from_exif_names_one_to_eight_and_nothing_else() {
    for v in 0u8..=255 {
        match Orientation::from_exif(v) {
            Some(o) => {
                assert!((1..=8).contains(&v));
                assert_eq!(o.exif_value(), v);
            }
            None => assert!(v == 0 || v > 8),
        }
    }
    for (i, o) in ALL.iter().enumerate() {
        assert_eq!(o.exif_value() as usize, i + 1);
        assert_eq!(Orientation::from_exif(o.exif_value()), Some(*o));
    }
}

#[test]
fn swaps_axes_exactly_for_five_to_eight() {
    for o in ALL {
        assert_eq!(o.swaps_axes(), o.exif_value() >= 5, "{o:?}");
    }
    assert!(!Orientation::MirrorVertical.swaps_axes());
    assert!(Orientation::Transpose.swaps_axes());
}

#[test]
fn upright_size_swaps_for_the_turned_four() {
    assert_eq!(Orientation::Upright.upright_size(3, 2), (3, 2));
    assert_eq!(Orientation::Rotate180.upright_size(3, 2), (3, 2));
    assert_eq!(Orientation::Rotate90.upright_size(3, 2), (2, 3));
    assert_eq!(Orientation::Transverse.upright_size(640, 427), (427, 640));
}

#[test]
fn source_of_on_a_three_by_two_frame() {
    let (sw, sh) = (3, 2);
    assert_eq!(Orientation::Upright.source_of(1, 0, sw, sh), (1, 0));
    assert_eq!(Orientation::MirrorHorizontal.source_of(0, 1, sw, sh), (2, 1));
    assert_eq!(Orientation::Rotate180.source_of(0, 0, sw, sh), (2, 1));
    assert_eq!(Orientation::MirrorVertical.source_of(2, 0, sw, sh), (2, 1));
    assert_eq!(Orientation::Transpose.source_of(1, 2, sw, sh), (2, 1));
    assert_eq!(Orientation::Rotate90.source_of(0, 0, sw, sh), (0, 1));
    assert_eq!(Orientation::Transverse.source_of(0, 0, sw, sh), (2, 1));
    assert_eq!(Orientation::Rotate270.source_of(0, 0, sw, sh), (2, 0));
}

/// Every upright pixel shows a distinct stored pixel, and all of them are
/// shown: orienting is a permutation of pixels.
#[test]
fn source_of_is_a_bijection_onto_the_stored_frame() {
    for (sw, sh) in [(1, 1), (1, 7), (9, 1), (13, 11), (4, 4)] {
        for o in ALL {
            let (ow, oh) = o.upright_size(sw, sh);
            assert_eq!(ow * oh, sw * sh);
            let mut seen = vec![false; sw * sh];
            for y in 0..oh {
                for x in 0..ow {
                    let (sx, sy) = o.source_of(x, y, sw, sh);
                    assert!(sx < sw && sy < sh);
                    assert!(!seen[sy * sw + sx], "{o:?} shows ({sx}, {sy}) twice");
                    seen[sy * sw + sx] = true;
                }
            }
            assert!(seen.iter().all(|&s| s));
        }
    }
}

/// The stored column follows one upright axis and the stored row the other,
/// forwards or backwards.
#[test]
fn source_of_separates_into_flipped_axes() {
    let (sw, sh) = (5, 3);
    let follow = |flip: bool, n: usize, v: usize| if flip { n - 1 - v } else { v };
    for o in ALL {
        let flip_x = matches!(
            o,
            Orientation::MirrorHorizontal
                | Orientation::Rotate180
                | Orientation::Transverse
                | Orientation::Rotate270
        );
        let flip_y = matches!(
            o,
            Orientation::Rotate180
                | Orientation::MirrorVertical
                | Orientation::Rotate90
                | Orientation::Transverse
        );
        let (ow, oh) = o.upright_size(sw, sh);
        for y in 0..oh {
            for x in 0..ow {
                let want = if o.swaps_axes() {
                    (follow(flip_x, sw, y), follow(flip_y, sh, x))
                } else {
                    (follow(flip_x, sw, x), follow(flip_y, sh, y))
                };
                assert_eq!(o.source_of(x, y, sw, sh), want, "{o:?} ({x}, {y})");
            }
        }
    }
}

/// Each upright tap reads the sample of the stored pixel it shows.
#[test]
fn source_sample_reads_the_stored_pixel() {
    let (sw, sh, ch) = (5, 3, 3);
    let src: Vec<usize> = (0..sw * sh * ch).collect();
    for o in ALL {
        let (ow, oh) = o.upright_size(sw, sh);
        let up = orient(&src, sw, sh, ch, o);
        for y in 0..oh {
            for x in 0..ow {
                let (sx, sy) = o.source_of(x, y, sw, sh);
                for c in 0..ch {
                    let i = source_sample(o, x, y, c, sw, sh, ch);
                    assert_eq!(i, (sy * sw + sx) * ch + c);
                    assert_eq!(src[i], up[(y * ow + x) * ch + c], "{o:?} ({x}, {y}) {c}");
                }
            }
        }
    }
    // Rotate90 on a 3 x 2 frame: upright (0, 0) shows stored (0, 1).
    assert_eq!(source_sample(Orientation::Rotate90, 0, 0, 1, 3, 2, 2), (1 * 3 + 0) * 2 + 1);
}

#[test]
fn upright_orientation_is_the_identity() {
    let src: Vec<u32> = (0..7 * 5 * 3).collect();
    assert_eq!(orient(&src, 7, 5, 3, Orientation::Upright), src);
}

/// Orienting moves samples and invents none, channels staying together.
#[test]
fn orient_is_a_permutation_of_samples() {
    for (sw, sh) in [(1, 1), (1, 7), (9, 1), (13, 11), (6, 4)] {
        for ch in [1usize, 3, 4] {
            let src: Vec<usize> = (0..sw * sh * ch).collect();
            for o in ALL {
                let out = orient(&src, sw, sh, ch, o);
                assert_eq!(out.len(), src.len());
                let (ow, _) = o.upright_size(sw, sh);
                for (i, &s) in out.iter().enumerate() {
                    let (p, c) = (i / ch, i % ch);
                    let (sx, sy) = o.source_of(p % ow, p / ow, sw, sh);
                    assert_eq!(s, (sy * sw + sx) * ch + c);
                }
                let mut sorted = out.clone();
                sorted.sort();
                assert_eq!(sorted, src, "{o:?} {sw}x{sh} ch={ch}");
            }
        }
    }
}

#[test]
fn orient_handles_empty_and_channelless_frames() {
    let empty: [u8; 0] = [];
    for o in ALL {
        assert!(orient(&empty, 0, 5, 3, o).is_empty());
        assert!(orient(&empty, 4, 5, 0, o).is_empty());
    }
}

/// Rotate90 and Rotate270 undo each other; the other six undo themselves.
#[test]
fn orienting_twice_with_the_inverse_restores_the_frame() {
    let (sw, sh, ch) = (5, 3, 2);
    let src: Vec<u16> = (0..(sw * sh * ch) as u16).collect();
    for o in ALL {
        let inv = match o {
            Orientation::Rotate90 => Orientation::Rotate270,
            Orientation::Rotate270 => Orientation::Rotate90,
            other => other,
        };
        let (ow, oh) = o.upright_size(sw, sh);
        let once = orient(&src, sw, sh, ch, o);
        assert_eq!(orient(&once, ow, oh, ch, inv), src, "{o:?}");
    }
}
