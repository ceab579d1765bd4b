use vstd::prelude::*;

use crate::gray::GrayImage;
use crate::ring::{
    class_of, classify, interior, neighbor_vals, ring_tags, ring_values, tags_of, Classification,
    DOWN, LEFT, RIGHT, RING_LEN, UP,
};
use crate::traits::KeypointDetector;
use crate::suppress::{suppress_by_scores, suppressed};
use crate::utils::ImgCoords;
use vstd::arithmetic::div_mod::lemma_fundamental_div_mod_converse;

verus! {

/// Configuration of a [`FASTDetector`].
#[derive(Clone, Copy, Debug, PartialEq, Eq, Structural)]
pub struct FASTDetectorParams {
    /// Intensity difference a neighbour must exceed to count as darker or brighter.
    pub threshold: u8,
    /// Length of the contiguous ring arc (1 to 16) that makes a corner.
    pub min_contig_neighbors: u8,
    /// Run the four-point quick test first (only when the arc length is 12).
    pub do_high_speed_test: bool,
    /// Remove adjacent detections, keeping the strongest.
    pub do_nonmax_suppression: bool,
}

impl FASTDetectorParams {
    pub open spec fn valid(&self) -> bool {
        1 <= self.min_contig_neighbors <= 16
    }

    /// The quick test applies: it is enabled and the arc length is 12.
    pub open spec fn prunes(&self) -> bool {
        self.do_high_speed_test && self.min_contig_neighbors == 12
    }
}

impl Default for FASTDetectorParams {
    fn default() -> (r: Self)
        ensures
            r.threshold == 10,
            r.min_contig_neighbors == 12,
            r.do_high_speed_test,
            r.do_nonmax_suppression,
    {
        FASTDetectorParams {
            threshold: 10,
            min_contig_neighbors: 12,
            do_high_speed_test: true,
            do_nonmax_suppression: true,
        }
    }
}

/// Why a detector could not be built or run.
#[derive(Clone, Copy, Debug, PartialEq, Eq, Structural)]
pub enum FastError {
    /// The arc length is 0 or above 16.
    InvalidParameter,
    /// The image is narrower or lower than 7 pixels.
    ImageTooSmall,
}

/// A run of `len` ring positions from `start`, going round, all classified `c`.
pub open spec fn run_at(tags: Seq<Classification>, start: int, len: int, c: Classification) -> bool {
    forall|k: int| 0 <= k < len ==> #[trigger] tags[(start + k) % 16] == c
}

/// The ring holds a contiguous arc of at least `len` positions that are all
/// darker or all brighter.
pub open spec fn has_arc(tags: Seq<Classification>, len: int) -> bool {
    exists|s: int|
        0 <= s < 16 && (run_at(tags, s, len, Classification::Darker) || run_at(
            tags,
            s,
            len,
            Classification::Brighter,
        ))
}

/// The four-point quick test on the compass classifications.
pub open spec fn quick_rule(
    up: Classification,
    right: Classification,
    down: Classification,
    left: Classification,
) -> bool {
    let d = Classification::Darker;
    let b = Classification::Brighter;
    let s = Classification::Similar;
    if up == s && down == s {
        false
    } else if up == d && down == d {
        right == d || left == d
    } else if up == b && down == b {
        right == b || left == b
    } else if (up == d && down == b) || (up == b && down == d) {
        (right == d && left == d) || (right == b && left == b)
    } else if up == d || down == d {
        right == d && left == d
    } else if up == b || down == b {
        right == b && left == b
    } else {
        false
    }
}

/// Any arc of 12 ring positions covers three of the four compass positions,
/// so the quick test passes wherever the full test with arc length 12 does.
pub proof fn lemma_arc_passes_quick_rule(tags: Seq<Classification>)
    requires
        tags.len() == 16,
        has_arc(tags, 12),
    ensures
        quick_rule(tags[UP as int], tags[RIGHT as int], tags[DOWN as int], tags[LEFT as int]),
{
    let s = choose|s: int|
        0 <= s < 16 && (run_at(tags, s, 12, Classification::Darker) || run_at(
            tags,
            s,
            12,
            Classification::Brighter,
        ));
    let c = if run_at(tags, s, 12, Classification::Darker) {
        Classification::Darker
    } else {
        Classification::Brighter
    };
    assert(run_at(tags, s, 12, c));
    // distance from the start of the arc to each compass position
    let ku = (16 - s) % 16;
    let kr = (20 - s) % 16;
    let kd = (24 - s) % 16;
    let kl = (28 - s) % 16;
    assert((s + ku) % 16 == 0 && (s + kr) % 16 == 4 && (s + kd) % 16 == 8 && (s + kl) % 16
        == 12);
    if ku < 12 {
        assert(tags[(s + ku) % 16] == c);
    }
    if kr < 12 {
        assert(tags[(s + kr) % 16] == c);
    }
    if kd < 12 {
        assert(tags[(s + kd) % 16] == c);
    }
    if kl < 12 {
        assert(tags[(s + kl) % 16] == c);
    }
    // at most one of the four distances reaches 12
    assert((ku < 12 && kd < 12 && (kr < 12 || kl < 12)) || (kr < 12 && kl < 12 && (ku < 12
        || kd < 12)));
}

/// The quick test passes at (`x`, `y`).
pub open spec fn quick_pass(img: GrayImage, x: int, y: int, threshold: u8) -> bool {
    let t = ring_tags(img, x, y, threshold);
    quick_rule(t[UP as int], t[RIGHT as int], t[DOWN as int], t[LEFT as int])
}

/// The full arc test passes at (`x`, `y`).
pub open spec fn is_corner(img: GrayImage, x: int, y: int, p: FASTDetectorParams) -> bool {
    has_arc(ring_tags(img, x, y, p.threshold), p.min_contig_neighbors as int)
}

/// Amount by which `v` differs from `center` beyond `threshold`.
pub open spec fn excess(center: u8, v: u8, threshold: u8) -> int {
    let d = v - center;
    (if d < 0 {
        -d
    } else {
        d
    }) - threshold
}

/// Sum of the excesses of the first `k` ring values classified `c`.
pub open spec fn class_sum(
    values: Seq<u8>,
    center: u8,
    threshold: u8,
    c: Classification,
    k: int,
) -> int
    decreases k,
{
    if k <= 0 {
        0
    } else {
        class_sum(values, center, threshold, c, k - 1) + if class_of(
            center,
            values[k - 1],
            threshold,
        ) == c {
            excess(center, values[k - 1], threshold)
        } else {
            0
        }
    }
}

/// Strength of a corner: the larger of the darker and the brighter sums.
pub open spec fn score(img: GrayImage, x: int, y: int, threshold: u8) -> int {
    let v = ring_values(img, x, y);
    let c = img.pix(x, y);
    let sd = class_sum(v, c, threshold, Classification::Darker, 16);
    let sb = class_sum(v, c, threshold, Classification::Brighter, 16);
    if sd >= sb {
        sd
    } else {
        sb
    }
}

/// The pixel passes the quick test, where it applies, and the arc test.
pub open spec fn accepted(img: GrayImage, x: int, y: int, p: FASTDetectorParams) -> bool {
    (p.prunes() ==> quick_pass(img, x, y, p.threshold)) && is_corner(img, x, y, p)
}

/// Number of interior columns.
pub open spec fn scan_cols(img: GrayImage) -> int {
    img.spec_width() - 6
}

/// The `k`-th interior pixel in raster order (row by row, left to right).
pub open spec fn candidate(img: GrayImage, k: int) -> ImgCoords {
    ImgCoords { x: (3 + k % scan_cols(img)) as u32, y: (3 + k / scan_cols(img)) as u32 }
}

/// The accepted pixels among the first `k` interior pixels, in raster order.
pub open spec fn scan_prefix(img: GrayImage, p: FASTDetectorParams, k: int) -> Seq<ImgCoords>
    decreases k,
{
    if k <= 0 {
        Seq::empty()
    } else {
        let c = candidate(img, k - 1);
        if accepted(img, c.x as int, c.y as int, p) {
            scan_prefix(img, p, k - 1).push(c)
        } else {
            scan_prefix(img, p, k - 1)
        }
    }
}

/// All accepted pixels in raster order, before suppression.
pub open spec fn raster_scan(img: GrayImage, p: FASTDetectorParams) -> Seq<ImgCoords> {
    scan_prefix(img, p, scan_cols(img) * (img.spec_height() - 6))
}

/// Score of each feature.
pub open spec fn scores_of(img: GrayImage, c: Seq<ImgCoords>, threshold: u8) -> Seq<int> {
    Seq::new(c.len(), |k: int| score(img, c[k].x as int, c[k].y as int, threshold))
}

/// What a detection adds to the feature list.
pub open spec fn detection(img: GrayImage, p: FASTDetectorParams) -> Seq<ImgCoords> {
    let found = raster_scan(img, p);
    if p.do_nonmax_suppression {
        suppressed(found, scores_of(img, found, p.threshold))
    } else {
        found
    }
}

/// The FAST corner detector with a fixed, validated configuration.
#[derive(Debug)]
pub struct FASTDetector {
    params: FASTDetectorParams,
}

impl FASTDetector {
    #[verifier::type_invariant]
    spec fn inv(&self) -> bool {
        self.params.valid()
    }

    pub closed spec fn spec_params(&self) -> FASTDetectorParams {
        self.params
    }

    /// A detector with the given configuration, refused when the arc length
    /// is not between 1 and 16.
    pub fn with_params(params: FASTDetectorParams) -> (r: Result<FASTDetector, FastError>)
        ensures
            params.valid() <==> r.is_ok(),
            r matches Ok(d) ==> d.spec_params() == params,
            !params.valid() ==> r == Err::<FASTDetector, FastError>(FastError::InvalidParameter),
    {
        if params.min_contig_neighbors == 0 || params.min_contig_neighbors > 16 {
            Err(FastError::InvalidParameter)
        } else {
            Ok(FASTDetector { params })
        }
    }

    /// The detector's configuration.
    pub fn params(&self) -> (r: &FASTDetectorParams)
        ensures
            *r == self.spec_params(),
            r.valid(),
    {
        proof {
            use_type_invariant(self);
        }
        &self.params
    }

    /// Whether `pix_x` is within the threshold of `pix_p` on both sides.
    pub fn within_bounds(&self, pix_p: u8, pix_x: u8) -> (r: bool)
        ensures
            r == (class_of(pix_p, pix_x, self.spec_params().threshold) == Classification::Similar),
    {
        !self.is_black(pix_p, pix_x) && !self.is_white(pix_p, pix_x)
    }

    /// Whether `pix_x` is darker than `pix_p` by more than the threshold.
    pub fn is_black(&self, pix_p: u8, pix_x: u8) -> (r: bool)
        ensures
            r == (pix_x + self.spec_params().threshold < pix_p),
            r == (class_of(pix_p, pix_x, self.spec_params().threshold) == Classification::Darker),
    {
        (pix_x as u16) + (self.params.threshold as u16) < pix_p as u16
    }

    /// Whether `pix_x` is brighter than `pix_p` by more than the threshold.
    pub fn is_white(&self, pix_p: u8, pix_x: u8) -> (r: bool)
        ensures
            r == (pix_x - self.spec_params().threshold > pix_p),
            r == (class_of(pix_p, pix_x, self.spec_params().threshold)
                == Classification::Brighter),
    {
        (pix_x as i16) - (self.params.threshold as i16) > pix_p as i16
    }

    /// Classifies each of `neighbor_vals` against `central_pixel_val`.
    pub fn neighbor_tags(&self, neighbor_vals: &Vec<u8>, central_pixel_val: u8) -> (r: Vec<
        Classification,
    >)
        ensures
            r@ == tags_of(neighbor_vals@, central_pixel_val, self.spec_params().threshold),
    {
        let mut r: Vec<Classification> = Vec::new();
        for i in 0..neighbor_vals.len()
            invariant
                r@.len() == i,
                forall|k: int|
                    0 <= k < i ==> r@[k] == class_of(
                        central_pixel_val,
                        neighbor_vals@[k],
                        self.spec_params().threshold,
                    ),
        {
            r.push(classify(central_pixel_val, neighbor_vals[i], self.params.threshold));
        }
        assert(r@ =~= tags_of(neighbor_vals@, central_pixel_val, self.spec_params().threshold));
        r
    }
}

/// Whether `ext[start..start + len]` is all `c`.
fn window_all(ext: &Vec<Classification>, start: usize, len: usize, c: Classification) -> (r: bool)
    requires
        start + len <= ext@.len(),
    ensures
        r == forall|k: int| 0 <= k < len ==> #[trigger] ext@[start + k] == c,
{
    let total: usize = ext.len();
    for k in 0..len
        invariant
            start + len <= total,
            total == ext@.len(),
            forall|j: int| 0 <= j < k ==> #[trigger] ext@[start + j] == c,
    {
        if ext[start + k] != c {
            return false;
        }
    }
    true
}

/// A window of the extended ring is the arc that starts at the same position.
proof fn lemma_window_is_run(
    tags: Seq<Classification>,
    ext: Seq<Classification>,
    s: int,
    n: int,
    c: Classification,
)
    requires
        0 <= s < 16,
        1 <= n <= 16,
        ext.len() == 16 + n - 1,
        forall|j: int| 0 <= j < 16 + n - 1 ==> ext[j] == tags[j % 16],
    ensures
        (forall|k: int| 0 <= k < n ==> #[trigger] ext[s + k] == c) == run_at(tags, s, n, c),
{
    if forall|k: int| 0 <= k < n ==> #[trigger] ext[s + k] == c {
        assert forall|k: int| 0 <= k < n implies #[trigger] tags[(s + k) % 16] == c by {
            assert(ext[s + k] == c);
        }
    } else {
        let k = choose|k: int| 0 <= k < n && #[trigger] ext[s + k] != c;
        assert(tags[(s + k) % 16] != c);
    }
}

/// Searches the ring classifications for a contiguous arc of `len` positions,
/// all darker or all brighter, going round from the last position to the first.
pub fn has_contiguous_arc(tags: &Vec<Classification>, len: u8) -> (r: bool)
    requires
        tags@.len() == RING_LEN,
        1 <= len <= 16,
    ensures
        r == has_arc(tags@, len as int),
{
    let n: usize = len as usize;
    // the ring followed by its first `n - 1` positions, so that every arc is a
    // plain window
    let mut ext: Vec<Classification> = Vec::new();
    for i in 0..RING_LEN + n - 1
        invariant
            tags@.len() == RING_LEN,
            ext@.len() == i,
            forall|j: int| 0 <= j < i ==> ext@[j] == tags@[j % 16],
    {
        ext.push(tags[i % RING_LEN]);
    }
    for s in 0..RING_LEN
        invariant
            tags@.len() == RING_LEN,
            n == len,
            1 <= n <= 16,
            ext@.len() == RING_LEN + n - 1,
            forall|j: int| 0 <= j < RING_LEN + n - 1 ==> ext@[j] == tags@[j % 16],
            forall|s2: int|
                0 <= s2 < s ==> !run_at(tags@, s2, n as int, Classification::Darker) && !run_at(
                    tags@,
                    s2,
                    n as int,
                    Classification::Brighter,
                ),
    {
        let d = window_all(&ext, s, n, Classification::Darker);
        let b = window_all(&ext, s, n, Classification::Brighter);
        proof {
            lemma_window_is_run(tags@, ext@, s as int, n as int, Classification::Darker);
            lemma_window_is_run(tags@, ext@, s as int, n as int, Classification::Brighter);
        }
        if d || b {
            return true;
        }
    }
    false
}

impl FASTDetector {
    /// Four-point quick test at an interior pixel: a necessary condition,
    /// checked before the full arc test when the arc length is 12.
    pub fn high_speed_test(&self, img: &GrayImage, coords: ImgCoords) -> (r: bool)
        requires
            interior(*img, coords.x as int, coords.y as int),
        ensures
            r == quick_pass(*img, coords.x as int, coords.y as int, self.spec_params().threshold),
            self.spec_params().min_contig_neighbors == 12 && is_corner(
                *img,
                coords.x as int,
                coords.y as int,
                self.spec_params(),
            ) ==> r,
    {
        proof {
            img.lemma_dims();
            if self.spec_params().min_contig_neighbors == 12 && is_corner(
                *img,
                coords.x as int,
                coords.y as int,
                self.spec_params(),
            ) {
                lemma_arc_passes_quick_rule(
                    ring_tags(*img, coords.x as int, coords.y as int, self.spec_params().threshold),
                );
            }
        }
        let p: u8 = img.get(coords.x, coords.y);
        let up: u8 = img.get(coords.x, coords.y - 3);
        let right: u8 = img.get(coords.x + 3, coords.y);
        let down: u8 = img.get(coords.x, coords.y + 3);
        let left: u8 = img.get(coords.x - 3, coords.y);
        let ghost t = ring_tags(*img, coords.x as int, coords.y as int, self.spec_params().threshold);
        assert(t[UP as int] == class_of(p, up, self.spec_params().threshold));
        assert(t[RIGHT as int] == class_of(p, right, self.spec_params().threshold));
        assert(t[DOWN as int] == class_of(p, down, self.spec_params().threshold));
        assert(t[LEFT as int] == class_of(p, left, self.spec_params().threshold));

        if self.within_bounds(p, up) && self.within_bounds(p, down) {
            return false;
        } else if self.is_black(p, up) && self.is_black(p, down) {
            if self.is_black(p, right) || self.is_black(p, left) {
                return true;
            }
        } else if self.is_white(p, up) && self.is_white(p, down) {
            if self.is_white(p, right) || self.is_white(p, left) {
                return true;
            }
        } else if (self.is_black(p, up) && self.is_white(p, down)) || (self.is_white(p, up)
            && self.is_black(p, down)) {
            if (self.is_black(p, right) && self.is_black(p, left)) || (self.is_white(p, right)
                && self.is_white(p, left)) {
                return true;
            }
        } else if self.is_black(p, up) || self.is_black(p, down) {
            if self.is_black(p, right) && self.is_black(p, left) {
                return true;
            }
        } else if self.is_white(p, up) || self.is_white(p, down) {
            if self.is_white(p, right) && self.is_white(p, left) {
                return true;
            }
        }
        false
    }

    /// Full arc test at an interior pixel.
    pub fn check_pixel(&self, img: &GrayImage, coords: ImgCoords) -> (r: bool)
        requires
            interior(*img, coords.x as int, coords.y as int),
        ensures
            r == is_corner(*img, coords.x as int, coords.y as int, self.spec_params()),
    {
        proof {
            use_type_invariant(self);
        }
        let p: u8 = img.get(coords.x, coords.y);
        let vals = neighbor_vals(img, coords.x, coords.y);
        let tags = self.neighbor_tags(&vals, p);
        has_contiguous_arc(&tags, self.params.min_contig_neighbors)
    }

    /// Strength of the corner at an interior pixel.
    pub fn get_score(&self, img: &GrayImage, coords: ImgCoords) -> (r: u32)
        requires
            interior(*img, coords.x as int, coords.y as int),
        ensures
            r == score(*img, coords.x as int, coords.y as int, self.spec_params().threshold),
    {
        let p: u8 = img.get(coords.x, coords.y);
        let vals = neighbor_vals(img, coords.x, coords.y);
        let tags = self.neighbor_tags(&vals, p);
        let t: u8 = self.params.threshold;
        let mut sum_black: u32 = 0;
        let mut sum_white: u32 = 0;
        for i in 0..RING_LEN
            invariant
                vals@.len() == RING_LEN,
                tags@ == tags_of(vals@, p, t),
                t == self.spec_params().threshold,
                sum_black == class_sum(vals@, p, t, Classification::Darker, i as int),
                sum_white == class_sum(vals@, p, t, Classification::Brighter, i as int),
                sum_black <= 255 * i,
                sum_white <= 255 * i,
        {
            let v: u8 = vals[i];
            let d: i16 = if v >= p {
                v as i16 - p as i16
            } else {
                p as i16 - v as i16
            };
            if tags[i] == Classification::Darker {
                sum_black = sum_black + (d - t as i16) as u32;
            } else if tags[i] == Classification::Brighter {
                sum_white = sum_white + (d - t as i16) as u32;
            }
        }
        if sum_black >= sum_white {
            sum_black
        } else {
            sum_white
        }
    }

    /// Removes every feature that touches a stronger one (on equal scores,
    /// the later of the two), keeping the order of the rest.
    pub fn nonmax_suppression(&self, img: &GrayImage, features: &mut Vec<ImgCoords>)
        requires
            forall|k: int|
                0 <= k < old(features)@.len() ==> interior(
                    *img,
                    #[trigger] old(features)@[k].x as int,
                    old(features)@[k].y as int,
                ),
        ensures
            final(features)@ == suppressed(
                old(features)@,
                scores_of(*img, old(features)@, self.spec_params().threshold),
            ),
    {
        let mut scores: Vec<u32> = Vec::new();
        for k in 0..features.len()
            invariant
                scores@.len() == k,
                forall|q: int|
                    0 <= q < features@.len() ==> interior(
                        *img,
                        #[trigger] features@[q].x as int,
                        features@[q].y as int,
                    ),
                forall|q: int|
                    0 <= q < k ==> scores@[q] as int == scores_of(
                        *img,
                        features@,
                        self.spec_params().threshold,
                    )[q],
        {
            let sc = self.get_score(img, features[k]);
            scores.push(sc);
        }
        assert(scores@.map_values(|v: u32| v as int) =~= scores_of(
            *img,
            features@,
            self.spec_params().threshold,
        ));
        let kept = suppress_by_scores(features, &scores);
        *features = kept;
    }

    /// Appends to `features` the corners of `img` in raster order, then
    /// suppressed if the configuration asks for it; the entries already in
    /// `features` stay as they are. Refuses an image narrower or lower than
    /// 7 pixels, leaving `features` unchanged.
    pub fn detect(&self, img: &GrayImage, features: &mut Vec<ImgCoords>) -> (r: Result<
        (),
        FastError,
    >)
        ensures
            r.is_err() <==> (img.spec_width() < 7 || img.spec_height() < 7),
            r.is_err() ==> r == Err::<(), FastError>(FastError::ImageTooSmall) && final(features)@
                == old(features)@,
            r.is_ok() ==> final(features)@ == old(features)@ + detection(
                *img,
                self.spec_params(),
            ),
    {
        proof {
            use_type_invariant(self);
        }
        let w: u32 = img.width();
        let h: u32 = img.height();
        if w < 7 || h < 7 {
            return Err(FastError::ImageTooSmall);
        }
        let ghost p = self.spec_params();
        let ghost cols = scan_cols(*img);
        let prune: bool = self.params.do_high_speed_test && self.params.min_contig_neighbors == 12;
        let mut found: Vec<ImgCoords> = Vec::new();
        assert(found@ =~= scan_prefix(*img, p, 0));
        assert((3 - 3) * cols == 0);
        for row in 3..h - 3
            invariant
                w == img.spec_width(),
                h == img.spec_height(),
                w >= 7,
                h >= 7,
                p == self.spec_params(),
                cols == w - 6,
                prune == p.prunes(),
                found@ == scan_prefix(*img, p, (row - 3) * cols),
                forall|q: int|
                    0 <= q < found@.len() ==> interior(
                        *img,
                        #[trigger] found@[q].x as int,
                        found@[q].y as int,
                    ),
        {
            for col in 3..w - 3
                invariant
                    w == img.spec_width(),
                    h == img.spec_height(),
                    w >= 7,
                    3 <= row < h - 3,
                    p == self.spec_params(),
                    cols == w - 6,
                    prune == p.prunes(),
                    found@ == scan_prefix(*img, p, (row - 3) * cols + (col - 3)),
                    forall|q: int|
                        0 <= q < found@.len() ==> interior(
                            *img,
                            #[trigger] found@[q].x as int,
                            found@[q].y as int,
                        ),
            {
                let coords = ImgCoords::new(col, row);
                let ghost k = (row - 3) * cols + (col - 3);
                proof {
                    lemma_fundamental_div_mod_converse(k, cols, row - 3, col - 3);
                    assert(candidate(*img, k) == coords);
                }
                let pass: bool = if prune {
                    self.high_speed_test(img, coords)
                } else {
                    true
                };
                if pass && self.check_pixel(img, coords) {
                    found.push(coords);
                }
            }
            assert((row - 3) * cols + (w - 3 - 3) == (row + 1 - 3) * cols) by (nonlinear_arith)
                requires
                    cols == w - 6,
            ;
        }
        assert((h - 3 - 3) * cols == cols * (img.spec_height() - 6)) by (nonlinear_arith)
            requires
                h == img.spec_height(),
        ;
        assert(found@ == raster_scan(*img, p));
        if self.params.do_nonmax_suppression {
            self.nonmax_suppression(img, &mut found);
        }
        assert(found@ == detection(*img, p));
        let ghost before = features@;
        for i in 0..found.len()
            invariant
                features@ == before + found@.take(i as int),
        {
            features.push(found[i]);
            assert(found@.take(i + 1) =~= found@.take(i as int).push(found@[i as int]));
        }
        assert(found@.take(found@.len() as int) =~= found@);
        Ok(())
    }
}

impl Default for FASTDetector {
    fn default() -> (r: Self)
        ensures
            r.spec_params().threshold == 10,
            r.spec_params().min_contig_neighbors == 12,
            r.spec_params().do_high_speed_test,
            r.spec_params().do_nonmax_suppression,
    {
        FASTDetector { params: FASTDetectorParams::default() }
    }
}

impl KeypointDetector for FASTDetector {
    type Params = FASTDetectorParams;

    type ImageView = GrayImage;

    type Error = FastError;

    fn new() -> (r: Self)
        ensures
            r.spec_params().threshold == 10,
            r.spec_params().min_contig_neighbors == 12,
            r.spec_params().do_high_speed_test,
            r.spec_params().do_nonmax_suppression,
    {
        FASTDetector::default()
    }

    fn get_params(&self) -> (r: &FASTDetectorParams)
        ensures
            *r == self.spec_params(),
    {
        self.params()
    }

    fn detect(&self, img: &GrayImage, features: &mut Vec<ImgCoords>) -> (r: Result<(), FastError>)
        ensures
            r.is_err() <==> (img.spec_width() < 7 || img.spec_height() < 7),
            r.is_err() ==> r == Err::<(), FastError>(FastError::ImageTooSmall) && final(features)@
                == old(features)@,
            r.is_ok() ==> final(features)@ == old(features)@ + detection(
                *img,
                self.spec_params(),
            ),
    {
        FASTDetector::detect(self, img, features)
    }
}

} // verus!
