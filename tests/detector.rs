use cv_detectors::fast::has_contiguous_arc;
use cv_detectors::ring::classify;
use cv_detectors::{
    Classification, FASTDetector, FASTDetectorParams, FastError, GrayImage, ImgCoords,
    KeypointDetector,
};

const RING: [(i32, i32); 16] = [
    (0, -3),
    (1, -3),
    (2, -2),
    (3, -1),
    (3, 0),
    (3, 1),
    (2, 2),
    (1, 3),
    (0, 3),
    (-1, 3),
    (-2, 2),
    (-3, 1),
    (-3, 0),
    (-3, -1),
    (-2, -2),
    (-1, -3),
];

/// A 9x9 image of intensity `base` whose ring positions listed in `darker`
/// around (4, 4) are `drop` lower.
fn ring_image(base: u8, drop: u8, darker: &[usize]) -> GrayImage {
    let mut data = vec![base; 81];
    for &i in darker {
        let (dx, dy) = RING[i];
        let x = (4 + dx) as usize;
        let y = (4 + dy) as usize;
        data[y * 9 + x] = base - drop;
    }
    GrayImage::from_raw(9, 9, data).unwrap()
}

fn params(threshold: u8, arc: u8, prune: bool, suppress: bool) -> FASTDetectorParams {
    FASTDetectorParams {
        threshold,
        min_contig_neighbors: arc,
        do_high_speed_test: prune,
        do_nonmax_suppression: suppress,
    }
}

fn run(d: &FASTDetector, img: &GrayImage) -> Vec<ImgCoords> {
    let mut out = Vec::new();
    d.detect(img, &mut out).unwrap();
    out
}

#[test]
fn it_works() {
    assert_eq!(2 + 2, 4);
}

#[test]
fn classify_each_class() {
    assert_eq!(classify(100, 89, 10), Classification::Darker);
    assert_eq!(classify(100, 90, 10), Classification::Similar);
    assert_eq!(classify(100, 111, 10), Classification::Brighter);
    assert_eq!(classify(100, 110, 10), Classification::Similar);
    assert_eq!(classify(0, 255, 255), Classification::Similar);
    assert_eq!(classify(255, 0, 254), Classification::Darker);
    assert_eq!(classify(0, 255, 254), Classification::Brighter);
}

#[test]
fn classify_threshold_monotone() {
    for center in (0..=255u32).step_by(17) {
        for neighbor in (0..=255u32).step_by(13) {
            let (c, n) = (center as u8, neighbor as u8);
            for low in (0..=255u32).step_by(31) {
                for high in low..=255 {
                    let a = classify(c, n, low as u8);
                    let b = classify(c, n, high as u8);
                    if a == Classification::Similar {
                        assert_eq!(b, Classification::Similar);
                    }
                    if b != Classification::Similar {
                        assert_eq!(a, b);
                    }
                }
            }
        }
    }
}

#[test]
fn detector_predicates() {
    let d = FASTDetector::default();
    assert!(d.is_black(100, 89));
    assert!(!d.is_black(100, 90));
    assert!(d.is_white(100, 111));
    assert!(!d.is_white(100, 110));
    assert!(d.within_bounds(100, 95));
    assert!(!d.within_bounds(100, 120));
    let tags = d.neighbor_tags(&vec![80, 100, 120], 100);
    assert_eq!(
        tags,
        vec![Classification::Darker, Classification::Similar, Classification::Brighter]
    );
}

#[test]
fn arc_wraps_around() {
    let mut tags = vec![Classification::Similar; 16];
    for i in [12, 13, 14, 15, 0, 1, 2] {
        tags[i] = Classification::Brighter;
    }
    assert!(has_contiguous_arc(&tags, 7));
    assert!(!has_contiguous_arc(&tags, 8));
    let all = vec![Classification::Darker; 16];
    assert!(has_contiguous_arc(&all, 16));
}

#[test]
fn default_params() {
    let p = FASTDetectorParams::default();
    assert_eq!(p.threshold, 10);
    assert_eq!(p.min_contig_neighbors, 12);
    assert!(p.do_high_speed_test);
    assert!(p.do_nonmax_suppression);
    let d = <FASTDetector as KeypointDetector>::new();
    assert_eq!(*d.get_params(), p);
}

#[test]
fn invalid_arc_length() {
    assert_eq!(
        FASTDetector::with_params(params(10, 0, true, true)).unwrap_err(),
        FastError::InvalidParameter
    );
    assert_eq!(
        FASTDetector::with_params(params(10, 17, true, true)).unwrap_err(),
        FastError::InvalidParameter
    );
    assert!(FASTDetector::with_params(params(10, 1, true, true)).is_ok());
    assert!(FASTDetector::with_params(params(10, 16, true, true)).is_ok());
}

#[test]
fn image_too_small() {
    let d = FASTDetector::default();
    let img = GrayImage::filled(6, 6, 50).unwrap();
    let mut out = vec![ImgCoords::new(1, 1)];
    assert_eq!(d.detect(&img, &mut out), Err(FastError::ImageTooSmall));
    assert_eq!(out, vec![ImgCoords::new(1, 1)]);
    let narrow = GrayImage::filled(6, 20, 50).unwrap();
    assert_eq!(d.detect(&narrow, &mut out), Err(FastError::ImageTooSmall));
    let low = GrayImage::filled(20, 6, 50).unwrap();
    assert_eq!(d.detect(&low, &mut out), Err(FastError::ImageTooSmall));
    let smallest = GrayImage::filled(7, 7, 50).unwrap();
    assert_eq!(d.detect(&smallest, &mut out), Ok(()));
}

#[test]
fn from_raw_checks_length() {
    assert!(GrayImage::from_raw(3, 2, vec![0; 5]).is_none());
    let img = GrayImage::from_raw(3, 2, vec![1, 2, 3, 4, 5, 6]).unwrap();
    assert_eq!(img.width(), 3);
    assert_eq!(img.height(), 2);
    assert_eq!(img.get(0, 1), 4);
    assert_eq!(img.get(2, 0), 3);
}

#[test]
fn uniform_image_has_no_corners() {
    for (w, h) in [(7, 7), (9, 9), (16, 11)] {
        for v in [0u8, 128, 255] {
            let img = GrayImage::filled(w, h, v).unwrap();
            for t in [0u8, 10, 255] {
                for arc in [1u8, 9, 12, 16] {
                    for prune in [false, true] {
                        let d = FASTDetector::with_params(params(t, arc, prune, true)).unwrap();
                        assert!(run(&d, &img).is_empty());
                    }
                }
            }
        }
    }
}

#[test]
fn full_dark_ring_is_a_corner() {
    let all: Vec<usize> = (0..16).collect();
    let img = ring_image(100, 11, &all);
    let d = FASTDetector::default();
    let out = run(&d, &img);
    assert!(out.contains(&ImgCoords::new(4, 4)));
    assert_eq!(d.get_score(&img, ImgCoords::new(4, 4)), 16);
    assert!(d.check_pixel(&img, ImgCoords::new(4, 4)));
    assert!(d.high_speed_test(&img, ImgCoords::new(4, 4)));
}

#[test]
fn eleven_scattered_dark_pixels_are_no_corner() {
    let some = [0, 1, 2, 4, 5, 6, 8, 9, 10, 12, 13];
    let img = ring_image(100, 11, &some);
    for prune in [false, true] {
        for suppress in [false, true] {
            let d = FASTDetector::with_params(params(10, 12, prune, suppress)).unwrap();
            assert!(!run(&d, &img).contains(&ImgCoords::new(4, 4)));
        }
    }
}

#[test]
fn threshold_edge_is_similar() {
    let all: Vec<usize> = (0..16).collect();
    let img = ring_image(100, 10, &all);
    let d = FASTDetector::default();
    assert!(!run(&d, &img).contains(&ImgCoords::new(4, 4)));
}

#[test]
fn score_sums_excess_of_dominant_class() {
    // eight darker by 30 and three brighter by 12, threshold 10
    let mut data = vec![100u8; 81];
    for (i, &(dx, dy)) in RING.iter().enumerate() {
        let x = (4 + dx) as usize;
        let y = (4 + dy) as usize;
        data[y * 9 + x] = if i < 8 {
            70
        } else if i < 11 {
            112
        } else {
            100
        };
    }
    let img = GrayImage::from_raw(9, 9, data).unwrap();
    let d = FASTDetector::default();
    assert_eq!(d.get_score(&img, ImgCoords::new(4, 4)), 8 * 20);
}

fn checker(w: u32, h: u32, cell: u32) -> GrayImage {
    let mut data = Vec::new();
    for y in 0..h {
        for x in 0..w {
            let on = ((x / cell) + (y / cell)) % 2 == 0;
            data.push(if on { 200 } else { 30 });
        }
    }
    GrayImage::from_raw(w, h, data).unwrap()
}

fn bright_square(w: u32, h: u32) -> GrayImage {
    let mut data = Vec::new();
    for y in 0..h {
        for x in 0..w {
            let inside = x >= 8 && x < 16 && y >= 6 && y < 14;
            data.push(if inside { 220 } else { 20 });
        }
    }
    GrayImage::from_raw(w, h, data).unwrap()
}

#[test]
fn suppression_leaves_no_touching_features() {
    for img in [checker(24, 20, 4), bright_square(24, 20), checker(15, 15, 3)] {
        for arc in [9u8, 12] {
            let d = FASTDetector::with_params(params(10, arc, false, true)).unwrap();
            let out = run(&d, &img);
            for a in 0..out.len() {
                for b in a + 1..out.len() {
                    let dx = (out[a].x as i64 - out[b].x as i64).abs();
                    let dy = (out[a].y as i64 - out[b].y as i64).abs();
                    assert!(dx > 1 || dy > 1);
                }
            }
            let all = FASTDetector::with_params(params(10, arc, false, false)).unwrap();
            let raw = run(&all, &img);
            for f in &out {
                assert!(raw.contains(f));
            }
        }
    }
}

#[test]
fn corner_of_square_is_found() {
    let img = bright_square(24, 20);
    let d = FASTDetector::with_params(params(10, 9, false, false)).unwrap();
    let out = run(&d, &img);
    assert!(!out.is_empty());
    assert!(out.contains(&ImgCoords::new(8, 6)));
}

#[test]
fn raw_scan_is_in_raster_order() {
    let img = checker(24, 20, 4);
    let d = FASTDetector::with_params(params(10, 9, false, false)).unwrap();
    let out = run(&d, &img);
    for w in out.windows(2) {
        assert!((w[0].y, w[0].x) < (w[1].y, w[1].x));
    }
    for f in &out {
        assert!(f.x >= 3 && f.x <= 24 - 4 && f.y >= 3 && f.y <= 20 - 4);
    }
}

#[test]
fn pruning_keeps_detection() {
    for img in [checker(24, 20, 4), bright_square(24, 20), checker(15, 15, 3)] {
        for suppress in [false, true] {
            let with_test = FASTDetector::with_params(params(10, 12, true, suppress)).unwrap();
            let without = FASTDetector::with_params(params(10, 12, false, suppress)).unwrap();
            assert_eq!(run(&with_test, &img), run(&without, &img));
        }
    }
}

/// A 7x7 image of intensity 100 whose ring around (3, 3) holds `arc` at
/// positions 2 to 13 and `up` at position 0.
fn opposite_poles(arc: u8, up: u8) -> GrayImage {
    let mut data = vec![100u8; 49];
    for k in 2..=13 {
        let (dx, dy) = RING[k];
        data[((3 + dy) * 7 + (3 + dx)) as usize] = arc;
    }
    data[3] = up;
    GrayImage::from_raw(7, 7, data).unwrap()
}

#[test]
fn quick_test_keeps_arc_with_opposite_poles() {
    let centre = ImgCoords::new(3, 3);
    for (arc, up) in [(120u8, 80u8), (80, 120)] {
        let img = opposite_poles(arc, up);
        let d = FASTDetector::default();
        assert!(d.check_pixel(&img, centre));
        assert!(d.high_speed_test(&img, centre));
        assert_eq!(run(&d, &img), vec![centre]);
        let without = FASTDetector::with_params(params(10, 12, false, true)).unwrap();
        assert_eq!(run(&without, &img), vec![centre]);
    }
}

#[test]
fn detection_is_deterministic() {
    let a = checker(24, 20, 4);
    let b = checker(24, 20, 4);
    for suppress in [false, true] {
        let d = FASTDetector::with_params(params(10, 9, true, suppress)).unwrap();
        assert_eq!(run(&d, &a), run(&d, &a));
        assert_eq!(run(&d, &a), run(&d, &b));
    }
}

#[test]
fn existing_features_are_kept() {
    let all: Vec<usize> = (0..16).collect();
    let img = ring_image(100, 11, &all);
    let d = FASTDetector::default();
    let mut out = vec![ImgCoords::new(4, 4), ImgCoords::new(100, 100)];
    d.detect(&img, &mut out).unwrap();
    assert_eq!(out[0], ImgCoords::new(4, 4));
    assert_eq!(out[1], ImgCoords::new(100, 100));
    assert!(out[2..].contains(&ImgCoords::new(4, 4)));
}

#[test]
fn trait_detect_matches_inherent() {
    let all: Vec<usize> = (0..16).collect();
    let img = ring_image(100, 11, &all);
    let d = <FASTDetector as KeypointDetector>::new();
    let mut through_trait = Vec::new();
    KeypointDetector::detect(&d, &img, &mut through_trait).unwrap();
    assert_eq!(through_trait, run(&d, &img));
    let tiny = GrayImage::filled(5, 9, 0).unwrap();
    let mut out = Vec::new();
    assert_eq!(KeypointDetector::detect(&d, &tiny, &mut out), Err(FastError::ImageTooSmall));
}
