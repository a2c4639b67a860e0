use vstd::prelude::*;

verus! {

/// An RGB image, three bytes per pixel, stored row by row from the top row down.
pub struct ImageTexture {
    data: Vec<u8>,
    width: u64,
    height: u64,
}

/// Index of the first byte of pixel `(i, j)` once both coordinates are clamped
/// to the last column and the last row.
pub open spec fn texel_offset(width: int, height: int, i: int, j: int) -> int {
    let ci = if i > width - 1 { width - 1 } else { i };
    let cj = if j > height - 1 { height - 1 } else { j };
    3 * ci + 3 * width * cj
}

/// The colour at column `i`, row `j` (clamped into the image), if the image
/// has that pixel.
pub open spec fn texel_spec(data: Seq<u8>, width: int, height: int, i: int, j: int) -> Option<(u8, u8, u8)> {
    let off = texel_offset(width, height, i, j);
    if width > 0 && height > 0 && off + 3 <= data.len() {
        Some((data[off], data[off + 1], data[off + 2]))
    } else {
        None
    }
}

impl ImageTexture {
    pub closed spec fn spec_data(&self) -> Seq<u8> {
        self.data@
    }

    pub closed spec fn spec_width(&self) -> nat {
        self.width as nat
    }

    pub closed spec fn spec_height(&self) -> nat {
        self.height as nat
    }

    pub fn new(data: Vec<u8>, width: u64, height: u64) -> (r: Self)
        ensures
            r.spec_data() == data@,
            r.spec_width() == width,
            r.spec_height() == height,
    {
        ImageTexture { data, width, height }
    }

    /// Whether the image holds no pixel data at all.
    pub fn is_empty(&self) -> (r: bool)
        ensures
            r == (self.spec_data().len() == 0),
    {
        self.data.len() == 0
    }

    pub fn width(&self) -> (r: u64)
        ensures
            r == self.spec_width(),
    {
        self.width
    }

    pub fn height(&self) -> (r: u64)
        ensures
            r == self.spec_height(),
    {
        self.height
    }

    /// The colour of the pixel at column `i`, row `j`, each clamped to the last
    /// column or row; `None` when the image has no such pixel.
    pub fn texel(&self, i: u64, j: u64) -> (r: Option<(u8, u8, u8)>)
        ensures
            r == texel_spec(self.spec_data(), self.spec_width() as int, self.spec_height() as int, i as int, j as int),
    {
        if self.width == 0 || self.height == 0 {
            return None;
        }
        let ci: u64 = if i > self.width - 1 { self.width - 1 } else { i };
        let cj: u64 = if j > self.height - 1 { self.height - 1 } else { j };
        let w = self.width as u128;
        proof {
            assert(w * (cj as u128) <= w * 0xffff_ffff_ffff_ffff) by (nonlinear_arith)
                requires
                    cj <= 0xffff_ffff_ffff_ffffu64,
            ;
            assert(w * 0xffff_ffff_ffff_ffff <= 0xffff_ffff_ffff_ffff * 0xffff_ffff_ffff_ffff) by (nonlinear_arith)
                requires
                    w <= 0xffff_ffff_ffff_ffff,
            ;
        }
        let row: u128 = (ci as u128) + w * (cj as u128);
        proof {
            assert(3 * row == 3 * ci + 3 * w * cj) by (nonlinear_arith)
                requires
                    row == ci + w * cj,
            ;
            assert(3 * row == texel_offset(self.width as int, self.height as int, i as int, j as int));
        }
        let len = self.data.len();
        if row >= (len / 3) as u128 {
            return None;
        }
        let o = 3 * (row as usize);
        Some((self.data[o], self.data[o + 1], self.data[o + 2]))
    }
}

} // verus!
