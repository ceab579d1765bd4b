use vstd::prelude::*;

use crate::utils::ImgCoords;

verus! {

/// Two pixels touch: they differ by at most one in each axis.
pub open spec fn adjacent(a: ImgCoords, b: ImgCoords) -> bool {
    -1 <= a.x - b.x <= 1 && -1 <= a.y - b.y <= 1
}

/// Removal marks after comparing feature `i` with the later feature `j`: a
/// source already marked compares nothing; of two touching features the lower
/// score is marked, and on a tie the later one.
pub open spec fn compare_step(
    c: Seq<ImgCoords>,
    s: Seq<int>,
    m: Seq<bool>,
    i: int,
    j: int,
) -> Seq<bool> {
    if m[i] || !adjacent(c[i], c[j]) {
        m
    } else if s[i] < s[j] {
        m.update(i, true)
    } else {
        m.update(j, true)
    }
}

/// Removal marks after comparing feature `i` with features `j`, `j + 1`, ...
pub open spec fn compare_from(
    c: Seq<ImgCoords>,
    s: Seq<int>,
    m: Seq<bool>,
    i: int,
    j: int,
) -> Seq<bool>
    decreases c.len() - j,
{
    if j < c.len() {
        compare_from(c, s, compare_step(c, s, m, i, j), i, j + 1)
    } else {
        m
    }
}

/// Removal marks after features `i`, `i + 1`, ... have each been compared
/// with every later feature.
pub open spec fn mark_from(c: Seq<ImgCoords>, s: Seq<int>, m: Seq<bool>, i: int) -> Seq<bool>
    decreases c.len() - i,
{
    if i < c.len() {
        mark_from(c, s, compare_from(c, s, m, i, i + 1), i + 1)
    } else {
        m
    }
}

/// Which features the suppression removes, given their scores `s`.
pub open spec fn removal_marks(c: Seq<ImgCoords>, s: Seq<int>) -> Seq<bool> {
    mark_from(c, s, Seq::new(c.len(), |k: int| false), 0)
}

/// The unmarked features among the first `k`, in their order.
pub open spec fn survivors(c: Seq<ImgCoords>, m: Seq<bool>, k: int) -> Seq<ImgCoords>
    decreases k,
{
    if k <= 0 {
        Seq::empty()
    } else if m[k - 1] {
        survivors(c, m, k - 1)
    } else {
        survivors(c, m, k - 1).push(c[k - 1])
    }
}

/// The features that the suppression keeps, given their scores `s`.
pub open spec fn suppressed(c: Seq<ImgCoords>, s: Seq<int>) -> Seq<ImgCoords> {
    survivors(c, removal_marks(c, s), c.len() as int)
}

/// Whether two features touch.
pub fn are_adjacent(a: ImgCoords, b: ImgCoords) -> (r: bool)
    ensures
        r == adjacent(a, b),
{
    let dx: i64 = a.x as i64 - b.x as i64;
    let dy: i64 = a.y as i64 - b.y as i64;
    -1 <= dx && dx <= 1 && -1 <= dy && dy <= 1
}

/// Keeps the features that `removal_marks` leaves unmarked.
pub fn suppress_by_scores(c: &Vec<ImgCoords>, scores: &Vec<u32>) -> (r: Vec<ImgCoords>)
    requires
        scores@.len() == c@.len(),
    ensures
        r@ == suppressed(c@, scores@.map_values(|v: u32| v as int)),
{
    let ghost s = scores@.map_values(|v: u32| v as int);
    let ghost target = removal_marks(c@, s);
    let n: usize = c.len();
    let mut marks: Vec<bool> = Vec::new();
    for k in 0..n
        invariant
            marks@.len() == k,
            forall|q: int| 0 <= q < k ==> !marks@[q],
    {
        marks.push(false);
    }
    assert(marks@ =~= Seq::new(c@.len(), |k: int| false));
    for i in 0..n
        invariant
            n == c@.len(),
            scores@.len() == n,
            s == scores@.map_values(|v: u32| v as int),
            marks@.len() == n,
            mark_from(c@, s, marks@, i as int) == target,
    {
        let ghost start = marks@;
        for j in i + 1..n
            invariant
                n == c@.len(),
                scores@.len() == n,
                s == scores@.map_values(|v: u32| v as int),
                marks@.len() == n,
                i < n,
                compare_from(c@, s, marks@, i as int, j as int) == compare_from(
                    c@,
                    s,
                    start,
                    i as int,
                    i + 1,
                ),
        {
            let ghost before = marks@;
            assert(s[i as int] == scores@[i as int] as int);
            assert(s[j as int] == scores@[j as int] as int);
            if !marks[i] && are_adjacent(c[i], c[j]) {
                if scores[i] < scores[j] {
                    marks.set(i, true);
                } else {
                    marks.set(j, true);
                }
            }
            assert(marks@ =~= compare_step(c@, s, before, i as int, j as int));
        }
    }
    let mut r: Vec<ImgCoords> = Vec::new();
    for k in 0..n
        invariant
            n == c@.len(),
            marks@ == target,
            target.len() == n,
            r@ == survivors(c@, target, k as int),
    {
        if !marks[k] {
            r.push(c[k]);
        }
    }
    r
}

} // verus!
