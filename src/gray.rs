use vstd::prelude::*;

verus! {

/// A read-only grid of 8-bit intensities stored row by row.
pub struct GrayImage {
    width: u32,
    height: u32,
    data: Vec<u8>,
}

impl GrayImage {
    pub closed spec fn spec_width(&self) -> nat {
        self.width as nat
    }

    pub closed spec fn spec_height(&self) -> nat {
        self.height as nat
    }

    /// Both dimensions fit in a `u32`.
    pub proof fn lemma_dims(&self)
        ensures
            self.spec_width() <= u32::MAX,
            self.spec_height() <= u32::MAX,
    {
    }

    /// Intensity at column `x`, row `y`.
    pub closed spec fn pix(&self, x: int, y: int) -> u8 {
        self.data@[y * self.width + x]
    }

    #[verifier::type_invariant]
    spec fn inv(&self) -> bool {
        self.data@.len() == self.width * self.height
    }

    /// Builds an image from its rows laid end to end; `None` unless
    /// `data` holds exactly `width * height` samples.
    pub fn from_raw(width: u32, height: u32, data: Vec<u8>) -> (r: Option<GrayImage>)
        ensures
            r.is_some() <==> data@.len() == width * height,
            r matches Some(img) ==> {
                &&& img.spec_width() == width
                &&& img.spec_height() == height
                &&& forall|x: int, y: int|
                    0 <= x < width && 0 <= y < height ==> #[trigger] img.pix(x, y) == data@[y
                        * width + x]
            },
    {
        assert(width * height <= u64::MAX) by (nonlinear_arith)
            requires
                width <= u32::MAX,
                height <= u32::MAX,
        ;
        let n: u64 = width as u64 * height as u64;
        if data.len() as u64 == n {
            Some(GrayImage { width, height, data })
        } else {
            None
        }
    }

    /// An image of the given size with every sample equal to `value`.
    pub fn filled(width: u32, height: u32, value: u8) -> (r: Option<GrayImage>)
        ensures
            r.is_some() <==> width * height <= usize::MAX,
            r matches Some(img) ==> {
                &&& img.spec_width() == width
                &&& img.spec_height() == height
                &&& forall|x: int, y: int|
                    0 <= x < width && 0 <= y < height ==> #[trigger] img.pix(x, y) == value
            },
    {
        assert(width * height <= u64::MAX) by (nonlinear_arith)
            requires
                width <= u32::MAX,
                height <= u32::MAX,
        ;
        let n: u64 = width as u64 * height as u64;
        if n > usize::MAX as u64 {
            return None;
        }
        let data: Vec<u8> = vec![value; n as usize];
        let r = GrayImage { width, height, data };
        assert forall|x: int, y: int| 0 <= x < width && 0 <= y < height implies #[trigger] r.pix(
            x,
            y,
        ) == value by {
            lemma_index_in_grid(x, y, width as int, height as int);
        }
        Some(r)
    }

    pub fn width(&self) -> (r: u32)
        ensures
            r == self.spec_width(),
    {
        self.width
    }

    pub fn height(&self) -> (r: u32)
        ensures
            r == self.spec_height(),
    {
        self.height
    }

    /// Intensity at column `x`, row `y`.
    pub fn get(&self, x: u32, y: u32) -> (r: u8)
        requires
            x < self.spec_width(),
            y < self.spec_height(),
        ensures
            r == self.pix(x as int, y as int),
    {
        let len: usize = self.data.len();
        proof {
            use_type_invariant(self);
            lemma_index_in_grid(x as int, y as int, self.width as int, self.height as int);
        }
        self.data[y as usize * self.width as usize + x as usize]
    }
}

/// A cell inside a `w` by `h` grid has a row-major index below `w * h`.
pub proof fn lemma_index_in_grid(x: int, y: int, w: int, h: int)
    requires
        0 <= x < w,
        0 <= y < h,
    ensures
        0 <= y * w + x < w * h,
{
    assert(0 <= y * w) by (nonlinear_arith)
        requires
            0 <= y,
            0 <= w,
    ;
    assert(y * w + x < w * h) by (nonlinear_arith)
        requires
            0 <= x < w,
            0 <= y < h,
    ;
}

} // verus!
