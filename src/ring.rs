use vstd::prelude::*;

use crate::gray::GrayImage;

verus! {

/// Number of pixels on the ring around a candidate corner.
pub const RING_LEN: usize = 16;

/// Ring positions of the four compass neighbours used by the quick test.
pub const UP: usize = 0;

pub const RIGHT: usize = 4;

pub const DOWN: usize = 8;

pub const LEFT: usize = 12;

/// How a neighbouring pixel compares with the centre pixel.
#[derive(Clone, Copy, Debug, PartialEq, Eq, Structural)]
pub enum Classification {
    Darker,
    Brighter,
    Similar,
}

/// `neighbor` is darker when it lies more than `threshold` below `center`,
/// brighter when it lies more than `threshold` above, similar otherwise.
pub open spec fn class_of(center: u8, neighbor: u8, threshold: u8) -> Classification {
    if neighbor + threshold < center {
        Classification::Darker
    } else if neighbor - threshold > center {
        Classification::Brighter
    } else {
        Classification::Similar
    }
}

/// Offset (column, row) of ring position `i`: a discrete circle of radius 3,
/// starting straight up and going clockwise.
pub open spec fn ring_offset(i: int) -> (int, int) {
    if i == 0 {
        (0, -3)
    } else if i == 1 {
        (1, -3)
    } else if i == 2 {
        (2, -2)
    } else if i == 3 {
        (3, -1)
    } else if i == 4 {
        (3, 0)
    } else if i == 5 {
        (3, 1)
    } else if i == 6 {
        (2, 2)
    } else if i == 7 {
        (1, 3)
    } else if i == 8 {
        (0, 3)
    } else if i == 9 {
        (-1, 3)
    } else if i == 10 {
        (-2, 2)
    } else if i == 11 {
        (-3, 1)
    } else if i == 12 {
        (-3, 0)
    } else if i == 13 {
        (-3, -1)
    } else if i == 14 {
        (-2, -2)
    } else {
        (-1, -3)
    }
}

/// The pixel lies at least three pixels inside every border of `img`.
pub open spec fn interior(img: GrayImage, x: int, y: int) -> bool {
    3 <= x && x + 3 < img.spec_width() && 3 <= y && y + 3 < img.spec_height()
}

/// Intensities of the ring around (`x`, `y`), in ring order.
pub open spec fn ring_values(img: GrayImage, x: int, y: int) -> Seq<u8> {
    Seq::new(16, |i: int| img.pix(x + ring_offset(i).0, y + ring_offset(i).1))
}

/// Classification of each ring value against `center`.
pub open spec fn tags_of(values: Seq<u8>, center: u8, threshold: u8) -> Seq<Classification> {
    values.map_values(|v: u8| class_of(center, v, threshold))
}

/// Classification of the ring around (`x`, `y`), in ring order.
pub open spec fn ring_tags(img: GrayImage, x: int, y: int, threshold: u8) -> Seq<Classification> {
    tags_of(ring_values(img, x, y), img.pix(x, y), threshold)
}

/// Classifies `neighbor` against `center` with the given threshold.
pub fn classify(center: u8, neighbor: u8, threshold: u8) -> (r: Classification)
    ensures
        r == class_of(center, neighbor, threshold),
{
    if (neighbor as u16) + (threshold as u16) < center as u16 {
        Classification::Darker
    } else if (neighbor as i16) - (threshold as i16) > center as i16 {
        Classification::Brighter
    } else {
        Classification::Similar
    }
}

/// Offset of ring position `i`.
pub fn ring_offset_at(i: usize) -> (r: (i8, i8))
    requires
        i < RING_LEN,
    ensures
        r.0 as int == ring_offset(i as int).0,
        r.1 as int == ring_offset(i as int).1,
        -3 <= r.0 <= 3,
        -3 <= r.1 <= 3,
{
    match i {
        0 => (0, -3),
        1 => (1, -3),
        2 => (2, -2),
        3 => (3, -1),
        4 => (3, 0),
        5 => (3, 1),
        6 => (2, 2),
        7 => (1, 3),
        8 => (0, 3),
        9 => (-1, 3),
        10 => (-2, 2),
        11 => (-3, 1),
        12 => (-3, 0),
        13 => (-3, -1),
        14 => (-2, -2),
        _ => (-1, -3),
    }
}

/// Reads the sixteen ring intensities around an interior pixel.
pub fn neighbor_vals(img: &GrayImage, x: u32, y: u32) -> (r: Vec<u8>)
    requires
        interior(*img, x as int, y as int),
    ensures
        r@ == ring_values(*img, x as int, y as int),
{
    proof {
        img.lemma_dims();
    }
    let mut r: Vec<u8> = Vec::new();
    for i in 0..RING_LEN
        invariant
            img.spec_width() <= u32::MAX,
            img.spec_height() <= u32::MAX,
            interior(*img, x as int, y as int),
            r@.len() == i,
            forall|k: int| 0 <= k < i ==> r@[k] == ring_values(*img, x as int, y as int)[k],
    {
        let off = ring_offset_at(i);
        let nx: u32 = (x as i64 + off.0 as i64) as u32;
        let ny: u32 = (y as i64 + off.1 as i64) as u32;
        assert(nx == x + ring_offset(i as int).0 && ny == y + ring_offset(i as int).1);
        let v = img.get(nx, ny);
        r.push(v);
    }
    assert(r@ =~= ring_values(*img, x as int, y as int));
    r
}

} // verus!
