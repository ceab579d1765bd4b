use vstd::prelude::*;

use crate::fast::{
    accepted, candidate, detection, is_corner, lemma_arc_passes_quick_rule, raster_scan, run_at,
    scan_cols, scan_prefix, scores_of, FASTDetectorParams,
};
use crate::gray::GrayImage;
use crate::ring::{class_of, interior, ring_offset, ring_tags, ring_values, Classification};
use crate::suppress::{
    adjacent, compare_from, compare_step, mark_from, removal_marks, suppressed, survivors,
};
use crate::utils::ImgCoords;
use vstd::arithmetic::div_mod::{lemma_div_pos_is_pos, lemma_fundamental_div_mod, lemma_mod_pos_bound};

verus! {

/// A neighbour is darker exactly when it lies more than the threshold below the
/// centre, brighter exactly when it lies more than the threshold above, and
/// similar exactly when neither holds; the first two never hold together.
pub proof fn lemma_classification_exclusive(center: u8, neighbor: u8, threshold: u8)
    ensures
        !(neighbor + threshold < center && neighbor - threshold > center),
        (class_of(center, neighbor, threshold) == Classification::Darker) <==> neighbor + threshold
            < center,
        (class_of(center, neighbor, threshold) == Classification::Brighter) <==> neighbor
            - threshold > center,
        (class_of(center, neighbor, threshold) == Classification::Similar) <==> (neighbor
            + threshold >= center && neighbor - threshold <= center),
{
}

/// Raising the threshold never turns a similar neighbour into a darker or
/// brighter one, nor a darker one into a brighter one or back.
pub proof fn lemma_threshold_monotone(center: u8, neighbor: u8, low: u8, high: u8)
    requires
        low <= high,
    ensures
        class_of(center, neighbor, low) == Classification::Similar ==> class_of(
            center,
            neighbor,
            high,
        ) == Classification::Similar,
        class_of(center, neighbor, high) != Classification::Similar ==> class_of(
            center,
            neighbor,
            high,
        ) == class_of(center, neighbor, low),
{
}

/// The quick test never changes the outcome: a pixel is accepted exactly when
/// the full arc test passes, whether or not the quick test runs first.
pub proof fn lemma_accepted_is_corner(img: GrayImage, x: int, y: int, p: FASTDetectorParams)
    ensures
        accepted(img, x, y, p) == is_corner(img, x, y, p),
{
    if p.prunes() && is_corner(img, x, y, p) {
        lemma_arc_passes_quick_rule(ring_tags(img, x, y, p.threshold));
    }
}

proof fn lemma_pruned_prefix(
    img: GrayImage,
    with_test: FASTDetectorParams,
    without_test: FASTDetectorParams,
    k: int,
)
    requires
        with_test.threshold == without_test.threshold,
        with_test.min_contig_neighbors == without_test.min_contig_neighbors,
    ensures
        scan_prefix(img, with_test, k) == scan_prefix(img, without_test, k),
    decreases k,
{
    if k > 0 {
        lemma_pruned_prefix(img, with_test, without_test, k - 1);
        let c = candidate(img, k - 1);
        lemma_accepted_is_corner(img, c.x as int, c.y as int, with_test);
        lemma_accepted_is_corner(img, c.x as int, c.y as int, without_test);
    }
}

/// Turning the quick test on or off changes neither the raster scan nor the
/// detection, for any image and any threshold and arc length.
pub proof fn lemma_pruning_keeps_scan(
    img: GrayImage,
    with_test: FASTDetectorParams,
    without_test: FASTDetectorParams,
)
    requires
        with_test.threshold == without_test.threshold,
        with_test.min_contig_neighbors == without_test.min_contig_neighbors,
        with_test.do_nonmax_suppression == without_test.do_nonmax_suppression,
    ensures
        raster_scan(img, with_test) == raster_scan(img, without_test),
        detection(img, with_test) == detection(img, without_test),
{
    lemma_pruned_prefix(
        img,
        with_test,
        without_test,
        scan_cols(img) * (img.spec_height() - 6),
    );
}

/// Every feature before `i` that touches a later one has it or itself marked.
spec fn separated_upto(c: Seq<ImgCoords>, m: Seq<bool>, i: int) -> bool {
    forall|p: int, q: int|
        0 <= p < i && p < q < c.len() && #[trigger] adjacent(c[p], c[q]) ==> m[p] || m[q]
}

/// Marks are only ever added.
spec fn grows(m1: Seq<bool>, m2: Seq<bool>) -> bool {
    m1.len() == m2.len() && forall|k: int| 0 <= k < m1.len() && m1[k] ==> #[trigger] m2[k]
}

proof fn lemma_compare_from(c: Seq<ImgCoords>, s: Seq<int>, m: Seq<bool>, i: int, j: int)
    requires
        0 <= i < j <= c.len(),
        m.len() == c.len(),
        s.len() == c.len(),
    ensures
        grows(m, compare_from(c, s, m, i, j)),
        forall|q: int|
            j <= q < c.len() && #[trigger] adjacent(c[i], c[q]) ==> compare_from(c, s, m, i, j)[i]
                || compare_from(c, s, m, i, j)[q],
    decreases c.len() - j,
{
    if j < c.len() {
        let m2 = compare_step(c, s, m, i, j);
        lemma_compare_from(c, s, m2, i, j + 1);
    }
}

proof fn lemma_mark_from(c: Seq<ImgCoords>, s: Seq<int>, m: Seq<bool>, i: int)
    requires
        0 <= i <= c.len(),
        m.len() == c.len(),
        s.len() == c.len(),
        separated_upto(c, m, i),
    ensures
        separated_upto(c, mark_from(c, s, m, i), c.len() as int),
        mark_from(c, s, m, i).len() == c.len(),
    decreases c.len() - i,
{
    if i < c.len() {
        let m2 = compare_from(c, s, m, i, i + 1);
        lemma_compare_from(c, s, m, i, i + 1);
        assert forall|p: int, q: int|
            0 <= p < i + 1 && p < q < c.len() && #[trigger] adjacent(c[p], c[q]) implies m2[p]
            || m2[q] by {
            if p < i {
                assert(m[p] || m[q]);
            }
        }
        lemma_mark_from(c, s, m2, i + 1);
    }
}

/// Positions in `c` of the features that `survivors` keeps.
spec fn survivor_index(m: Seq<bool>, k: int) -> Seq<int>
    decreases k,
{
    if k <= 0 {
        Seq::empty()
    } else if m[k - 1] {
        survivor_index(m, k - 1)
    } else {
        survivor_index(m, k - 1).push(k - 1)
    }
}

proof fn lemma_survivors(c: Seq<ImgCoords>, m: Seq<bool>, k: int)
    requires
        0 <= k <= c.len(),
        m.len() == c.len(),
    ensures
        survivors(c, m, k).len() == survivor_index(m, k).len(),
        forall|a: int|
            0 <= a < survivor_index(m, k).len() ==> {
                let p = #[trigger] survivor_index(m, k)[a];
                &&& 0 <= p < k
                &&& !m[p]
                &&& survivors(c, m, k)[a] == c[p]
            },
        forall|a: int, b: int|
            0 <= a < b < survivor_index(m, k).len() ==> #[trigger] survivor_index(m, k)[a]
                < #[trigger] survivor_index(m, k)[b],
    decreases k,
{
    if k > 0 {
        lemma_survivors(c, m, k - 1);
    }
}

/// After suppression no two remaining features touch, and each of them is
/// one of the input features.
pub proof fn lemma_suppression_separates(c: Seq<ImgCoords>, s: Seq<int>)
    requires
        s.len() == c.len(),
    ensures
        forall|a: int, b: int|
            0 <= a < b < suppressed(c, s).len() ==> !adjacent(
                #[trigger] suppressed(c, s)[a],
                #[trigger] suppressed(c, s)[b],
            ),
        forall|a: int| 0 <= a < suppressed(c, s).len() ==> c.contains(#[trigger] suppressed(c, s)[a]),
{
    let m0 = Seq::new(c.len(), |k: int| false);
    lemma_mark_from(c, s, m0, 0);
    let m = removal_marks(c, s);
    let n = c.len() as int;
    lemma_survivors(c, m, n);
    let ix = survivor_index(m, n);
    assert forall|a: int, b: int| 0 <= a < b < suppressed(c, s).len() implies !adjacent(
        #[trigger] suppressed(c, s)[a],
        #[trigger] suppressed(c, s)[b],
    ) by {
        let p = ix[a];
        let q = ix[b];
        assert(p < q);
        if adjacent(c[p], c[q]) {
            assert(m[p] || m[q]);
        }
    }
    assert forall|a: int| 0 <= a < suppressed(c, s).len() implies c.contains(
        #[trigger] suppressed(c, s)[a],
    ) by {
        assert(c[ix[a]] == suppressed(c, s)[a]);
    }
}

/// With suppression enabled, no two features that a detection adds touch.
pub proof fn lemma_detection_separated(img: GrayImage, p: FASTDetectorParams)
    requires
        p.do_nonmax_suppression,
    ensures
        forall|a: int, b: int|
            0 <= a < b < detection(img, p).len() ==> !adjacent(
                #[trigger] detection(img, p)[a],
                #[trigger] detection(img, p)[b],
            ),
{
    let found = raster_scan(img, p);
    lemma_suppression_separates(found, scores_of(img, found, p.threshold));
}

/// Two images of the same size with the same intensity at every pixel.
pub open spec fn same_pixels(a: GrayImage, b: GrayImage) -> bool {
    &&& a.spec_width() == b.spec_width()
    &&& a.spec_height() == b.spec_height()
    &&& forall|x: int, y: int|
        0 <= x < a.spec_width() && 0 <= y < a.spec_height() ==> #[trigger] a.pix(x, y) == b.pix(
            x,
            y,
        )
}

/// Every interior pixel is visited by the raster scan.
proof fn lemma_candidate_interior(img: GrayImage, k: int)
    requires
        img.spec_width() >= 7,
        img.spec_height() >= 7,
        0 <= k < scan_cols(img) * (img.spec_height() - 6),
    ensures
        interior(img, candidate(img, k).x as int, candidate(img, k).y as int),
        candidate(img, k).x == 3 + k % scan_cols(img),
        candidate(img, k).y == 3 + k / scan_cols(img),
{
    img.lemma_dims();
    let cols = scan_cols(img);
    let rows = img.spec_height() - 6;
    lemma_fundamental_div_mod(k, cols);
    lemma_mod_pos_bound(k, cols);
    lemma_div_pos_is_pos(k, cols);
    let q = k / cols;
    let r = k % cols;
    assert(q < rows) by (nonlinear_arith)
        requires
            k == cols * q + r,
            0 <= r,
            k < cols * rows,
            cols > 0,
    ;
}

/// The ring of an interior pixel lies inside the image.
proof fn lemma_ring_inside(img: GrayImage, x: int, y: int, i: int)
    requires
        interior(img, x, y),
        0 <= i < 16,
    ensures
        0 <= x + ring_offset(i).0 < img.spec_width(),
        0 <= y + ring_offset(i).1 < img.spec_height(),
{
}

/// The raster scans of two images with the same pixels agree, and every pixel
/// they hold is interior.
proof fn lemma_scan_prefix_same(a: GrayImage, b: GrayImage, p: FASTDetectorParams, k: int)
    requires
        same_pixels(a, b),
        a.spec_width() >= 7,
        a.spec_height() >= 7,
        0 <= k <= scan_cols(a) * (a.spec_height() - 6),
    ensures
        scan_prefix(a, p, k) == scan_prefix(b, p, k),
        forall|e: int|
            0 <= e < scan_prefix(a, p, k).len() ==> interior(
                a,
                #[trigger] scan_prefix(a, p, k)[e].x as int,
                scan_prefix(a, p, k)[e].y as int,
            ),
    decreases k,
{
    if k > 0 {
        lemma_scan_prefix_same(a, b, p, k - 1);
        lemma_candidate_interior(a, k - 1);
        let c = candidate(a, k - 1);
        let x = c.x as int;
        let y = c.y as int;
        assert forall|i: int| 0 <= i < 16 implies #[trigger] ring_values(a, x, y)[i] == ring_values(
            b,
            x,
            y,
        )[i] by {
            lemma_ring_inside(a, x, y, i);
        }
        assert(ring_values(a, x, y) =~= ring_values(b, x, y));
        assert(ring_tags(a, x, y, p.threshold) =~= ring_tags(b, x, y, p.threshold));
    }
}

/// A detection depends only on the image's size and intensities and on the
/// configuration: the same input always gives the same features in the same
/// order, before and after suppression.
pub proof fn lemma_detection_deterministic(a: GrayImage, b: GrayImage, p: FASTDetectorParams)
    requires
        same_pixels(a, b),
        a.spec_width() >= 7,
        a.spec_height() >= 7,
    ensures
        raster_scan(a, p) == raster_scan(b, p),
        detection(a, p) == detection(b, p),
{
    let total = scan_cols(a) * (a.spec_height() - 6);
    assert(total >= 0) by (nonlinear_arith)
        requires
            scan_cols(a) >= 1,
            a.spec_height() - 6 >= 1,
            total == scan_cols(a) * (a.spec_height() - 6),
    ;
    lemma_scan_prefix_same(a, b, p, total);
    let found = raster_scan(a, p);
    assert forall|e: int| 0 <= e < found.len() implies #[trigger] scores_of(a, found, p.threshold)[e]
        == scores_of(b, found, p.threshold)[e] by {
        let x = found[e].x as int;
        let y = found[e].y as int;
        assert forall|i: int| 0 <= i < 16 implies #[trigger] ring_values(a, x, y)[i]
            == ring_values(b, x, y)[i] by {
            lemma_ring_inside(a, x, y, i);
        }
        assert(ring_values(a, x, y) =~= ring_values(b, x, y));
    }
    assert(scores_of(a, found, p.threshold) =~= scores_of(b, found, p.threshold));
}

/// On an image of at least 7 by 7 pixels that all have the same intensity,
/// no pixel is a corner and a detection adds nothing, whatever the threshold
/// and the arc length.
pub proof fn lemma_uniform_image_has_no_corners(img: GrayImage, p: FASTDetectorParams, v: u8)
    requires
        p.valid(),
        img.spec_width() >= 7,
        img.spec_height() >= 7,
        forall|x: int, y: int|
            0 <= x < img.spec_width() && 0 <= y < img.spec_height() ==> #[trigger] img.pix(x, y)
                == v,
    ensures
        raster_scan(img, p).len() == 0,
        detection(img, p).len() == 0,
{
    let total = scan_cols(img) * (img.spec_height() - 6);
    assert(total >= 0) by (nonlinear_arith)
        requires
            scan_cols(img) >= 1,
            img.spec_height() - 6 >= 1,
            total == scan_cols(img) * (img.spec_height() - 6),
    ;
    lemma_uniform_prefix_empty(img, p, v, total);
}

proof fn lemma_uniform_prefix_empty(img: GrayImage, p: FASTDetectorParams, v: u8, k: int)
    requires
        p.valid(),
        img.spec_width() >= 7,
        img.spec_height() >= 7,
        forall|x: int, y: int|
            0 <= x < img.spec_width() && 0 <= y < img.spec_height() ==> #[trigger] img.pix(x, y)
                == v,
        0 <= k <= scan_cols(img) * (img.spec_height() - 6),
    ensures
        scan_prefix(img, p, k).len() == 0,
    decreases k,
{
    if k > 0 {
        lemma_uniform_prefix_empty(img, p, v, k - 1);
        lemma_candidate_interior(img, k - 1);
        let c = candidate(img, k - 1);
        let x = c.x as int;
        let y = c.y as int;
        let tags = ring_tags(img, x, y, p.threshold);
        assert forall|s: int| 0 <= s < 16 implies #[trigger] tags[s] == Classification::Similar by {
            lemma_ring_inside(img, x, y, s);
        }
        assert forall|s: int| 0 <= s < 16 implies !run_at(
            tags,
            s,
            p.min_contig_neighbors as int,
            Classification::Darker,
        ) && !run_at(tags, s, p.min_contig_neighbors as int, Classification::Brighter) by {
            assert(tags[(s + 0) % 16] == Classification::Similar);
        }
        assert(!is_corner(img, x, y, p));
    }
}

} // verus!
