//! The dirty-region extractor.  A composite call reports the axis-aligned
//! rectangle of pixels it touched; this module packs exactly the bytes inside
//! that rectangle out of a row-major buffer, contiguously and row-major, so
//! that only the changed region need cross to the presentation sink.

use vstd::prelude::*;

verus! {

/// An axis-aligned rectangle of pixels, half-open on both axes: the pixel at
/// `(x, y)` lies inside when `x0 <= x < x1` and `y0 <= y < y1`.
#[derive(Clone, Copy, PartialEq, Eq, Structural, Debug)]
pub struct Rect {
    pub x0: u32,
    pub y0: u32,
    pub x1: u32,
    pub y1: u32,
}

impl Rect {
    /// An empty rectangle covers no pixel at all.
    pub open spec fn spec_is_empty(self) -> bool {
        self.x1 <= self.x0 || self.y1 <= self.y0
    }

    /// Number of pixel columns covered.
    pub open spec fn spec_width(self) -> int {
        if self.spec_is_empty() {
            0
        } else {
            self.x1 - self.x0
        }
    }

    /// Number of pixel rows covered.
    pub open spec fn spec_height(self) -> int {
        if self.spec_is_empty() {
            0
        } else {
            self.y1 - self.y0
        }
    }

    /// Number of pixel columns covered.
    pub fn width(&self) -> (w: u32)
        ensures
            w == self.spec_width(),
    {
        if self.x1 <= self.x0 || self.y1 <= self.y0 {
            0
        } else {
            self.x1 - self.x0
        }
    }

    /// Number of pixel rows covered.
    pub fn height(&self) -> (h: u32)
        ensures
            h == self.spec_height(),
    {
        if self.x1 <= self.x0 || self.y1 <= self.y0 {
            0
        } else {
            self.y1 - self.y0
        }
    }
}

/// The bytes of row `y0 + j` of `r` within a row-major buffer whose rows are
/// `w` pixels of `bpp` bytes each.
pub open spec fn row_bytes(buf: Seq<u8>, w: int, bpp: int, r: Rect, j: int) -> Seq<u8> {
    buf.subrange(((r.y0 + j) * w + r.x0) * bpp, ((r.y0 + j) * w + r.x1) * bpp)
}

/// The first `nrows` rows of `r`, packed contiguously.
pub open spec fn packed_rows(buf: Seq<u8>, w: int, bpp: int, r: Rect, nrows: int) -> Seq<u8>
    decreases nrows,
{
    if nrows <= 0 {
        Seq::empty()
    } else {
        packed_rows(buf, w, bpp, r, nrows - 1) + row_bytes(buf, w, bpp, r, nrows - 1)
    }
}

/// Everything inside `r`, packed row-major with no inter-row padding; empty
/// exactly when `r` covers no pixel.
pub open spec fn packed_bytes(buf: Seq<u8>, w: int, bpp: int, r: Rect) -> Seq<u8> {
    if r.spec_is_empty() {
        Seq::empty()
    } else {
        packed_rows(buf, w, bpp, r, r.spec_height())
    }
}

proof fn lemma_row_arith(w: int, bpp: int, y1: int, x0: int, x1: int, y: int)
    by (nonlinear_arith)
    requires
        0 <= x0 <= x1 <= w,
        1 <= bpp,
        0 <= y < y1,
    ensures
        0 <= y * w + x0 <= (y * w + x0) * bpp,
        y * w + x1 <= (y * w + x1) * bpp,
        (y * w + x0) * bpp <= (y * w + x1) * bpp,
        (y * w + x1) * bpp <= y1 * w * bpp,
        (y * w + x1) * bpp - (y * w + x0) * bpp == (x1 - x0) * bpp,
{
}

proof fn lemma_packed_rows_len(buf: Seq<u8>, w: int, bpp: int, r: Rect, n: int)
    requires
        0 <= n,
        r.x0 <= r.x1,
        r.x1 <= w,
        1 <= bpp,
        r.y0 + n <= r.y1,
        r.y1 * w * bpp <= buf.len(),
    ensures
        packed_rows(buf, w, bpp, r, n).len() == n * ((r.x1 - r.x0) * bpp),
    decreases n,
{
    if n > 0 {
        lemma_packed_rows_len(buf, w, bpp, r, n - 1);
        lemma_row_arith(w, bpp, r.y1 as int, r.x0 as int, r.x1 as int, r.y0 + n - 1);
        assert(row_bytes(buf, w, bpp, r, n - 1).len() == (r.x1 - r.x0) * bpp);
        assert(packed_rows(buf, w, bpp, r, n) == packed_rows(buf, w, bpp, r, n - 1) + row_bytes(
            buf,
            w,
            bpp,
            r,
            n - 1,
        ));
        assert(packed_rows(buf, w, bpp, r, n).len() == (n - 1) * ((r.x1 - r.x0) * bpp) + (r.x1
            - r.x0) * bpp);
        assert((n - 1) * ((r.x1 - r.x0) * bpp) + (r.x1 - r.x0) * bpp == n * ((r.x1 - r.x0) * bpp))
            by (nonlinear_arith);
    } else {
        assert(packed_rows(buf, w, bpp, r, n).len() == 0);
        assert(n * ((r.x1 - r.x0) * bpp) == 0) by (nonlinear_arith)
            requires
                n == 0,
        ;
    }
}

impl Rect {
    /// Pack the bytes inside this rectangle out of a row-major pixel buffer
    /// of `width` pixels per row and `bpp` bytes per pixel, and report the
    /// number of rows included.  An empty rectangle yields an empty byte
    /// sequence, the caller's signal to present nothing.
    pub fn pixel_range(&self, pixels: &Vec<u8>, width: usize, bpp: usize) -> (r: (Vec<u8>, u32))
        requires
            self.x1 as int <= width as int,
            1 <= bpp,
            (self.y1 as int) * (width as int) * (bpp as int) <= pixels@.len(),
        ensures
            r.0@ == packed_bytes(pixels@, width as int, bpp as int, *self),
            r.1 == self.spec_height(),
            r.0@.len() == self.spec_height() * self.spec_width() * (bpp as int),
            (r.0@.len() == 0) == self.spec_is_empty(),
    {
        if self.x1 <= self.x0 || self.y1 <= self.y0 {
            proof {
                assert(self.spec_height() * self.spec_width() * (bpp as int) == 0)
                    by (nonlinear_arith)
                    requires
                        self.spec_height() == 0,
                ;
            }
            return (Vec::new(), 0);
        }
        let total_len = pixels.len();
        let x0: usize = self.x0 as usize;
        let x1: usize = self.x1 as usize;
        let y0: usize = self.y0 as usize;
        let y1: usize = self.y1 as usize;
        let ghost wi: int = width as int;
        let ghost bi: int = bpp as int;
        let mut out: Vec<u8> = Vec::new();
        let mut y: usize = y0;
        while y < y1
            invariant
                y0 <= y <= y1,
                x0 == self.x0 && x1 == self.x1 && y0 == self.y0 && y1 == self.y1,
                x0 < x1,
                y0 < y1,
                x1 <= width,
                1 <= bpp,
                (y1 as int) * wi * bi <= pixels@.len(),
                wi == width as int && bi == bpp as int,
                total_len == pixels@.len(),
                out@ == packed_rows(pixels@, wi, bi, *self, y - y0),
            decreases y1 - y,
        {
            proof {
                lemma_row_arith(wi, bi, y1 as int, x0 as int, x1 as int, y as int);
            }
            let row_start: usize = (y * width + x0) * bpp;
            let row_end: usize = (y * width + x1) * bpp;
            let ghost prev: Seq<u8> = out@;
            let mut i: usize = row_start;
            proof {
                assert(pixels@.subrange(row_start as int, row_start as int) =~= Seq::<u8>::empty());
                assert(out@ =~= prev + pixels@.subrange(row_start as int, row_start as int));
            }
            while i < row_end
                invariant
                    row_start <= i <= row_end,
                    row_end as int <= pixels@.len(),
                    out@ == prev + pixels@.subrange(row_start as int, i as int),
                decreases row_end - i,
            {
                proof {
                    assert(pixels@.subrange(row_start as int, i as int + 1) =~= pixels@.subrange(
                        row_start as int,
                        i as int,
                    ).push(pixels@[i as int]));
                }
                out.push(pixels[i]);
                i = i + 1;
            }
            proof {
                assert(pixels@.subrange(row_start as int, row_end as int) =~= row_bytes(
                    pixels@,
                    wi,
                    bi,
                    *self,
                    y - y0,
                ));
                assert(out@ == packed_rows(pixels@, wi, bi, *self, y + 1 - y0));
            }
            y = y + 1;
        }
        proof {
            lemma_packed_rows_len(pixels@, wi, bi, *self, self.spec_height());
            assert(self.spec_height() * ((self.x1 - self.x0) * bi) == self.spec_height()
                * self.spec_width() * bi) by (nonlinear_arith)
                requires
                    self.spec_width() == self.x1 - self.x0,
            ;
            assert(self.spec_height() * self.spec_width() * bi >= 1 * 1 * 1) by (nonlinear_arith)
                requires
                    self.spec_height() >= 1,
                    self.spec_width() >= 1,
                    bi >= 1,
            ;
        }
        let rows: u32 = self.y1 - self.y0;
        (out, rows)
    }
}

} // verus!
