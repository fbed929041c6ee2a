//! The scene's frame: fixed dimensions, the current RGBA buffer and the
//! per-frame render into a fresh buffer that then replaces the current one.

use vstd::prelude::*;
use vstd::arithmetic::div_mod::lemma_fundamental_div_mod_converse;
use crate::frame::{cell_at, gray, pixel_index, rendered, shows, Cell, BYTES_PER_PIXEL, OPAQUE};

verus! {

/// Width of the rendered image, in pixels.
pub const WIDTH: usize = 640;

/// Height of the rendered image, in pixels.
pub const HEIGHT: usize = 480;

/// A fixed-size image and its current frame, which each tick replaces whole.
pub struct Scene {
    width: usize,
    height: usize,
    pixels: Vec<u8>,
}

impl View for Scene {
    type V = Seq<u8>;

    /// The current frame's RGBA bytes.
    closed spec fn view(&self) -> Seq<u8> {
        self.pixels@
    }
}

impl Scene {
    /// Width of the image, in pixels.
    pub closed spec fn spec_width(&self) -> int {
        self.width as int
    }

    /// Height of the image, in pixels.
    pub closed spec fn spec_height(&self) -> int {
        self.height as int
    }

    /// The buffer holds exactly four bytes for each pixel of the image,
    /// and its size is addressable.
    pub open spec fn wf(&self) -> bool {
        &&& self@.len() == self.spec_width() * self.spec_height() * 4
        &&& self@.len() <= usize::MAX
    }

    /// A `WIDTH` by `HEIGHT` scene whose buffer is all zero bytes.
    pub fn new() -> (r: Scene)
        ensures
            r.wf(),
            r.spec_width() == WIDTH,
            r.spec_height() == HEIGHT,
            r@ == Seq::new((WIDTH * HEIGHT * BYTES_PER_PIXEL) as nat, |i: int| 0u8),
    {
        let width: usize = WIDTH;
        let height: usize = HEIGHT;
        let pixels = vec![0u8; width * height * BYTES_PER_PIXEL];
        let r = Scene { width, height, pixels };
        assert(r@ =~= Seq::new((WIDTH * HEIGHT * BYTES_PER_PIXEL) as nat, |i: int| 0u8));
        r
    }

    pub fn width(&self) -> (r: usize)
        ensures
            r == self.spec_width(),
    {
        self.width
    }

    pub fn height(&self) -> (r: usize)
        ensures
            r == self.spec_height(),
    {
        self.height
    }

    /// The current frame: row-major, four bytes per pixel in the order
    /// red, green, blue, alpha, top row first.
    pub fn cells(&self) -> (r: &[u8])
        ensures
            r@ == self@,
    {
        self.pixels.as_slice()
    }

    fn get_index(&self, row: usize, column: usize) -> (r: usize)
        requires
            self.wf(),
            row < self.spec_height(),
            column < self.spec_width(),
        ensures
            r == pixel_index(self.spec_width(), row as int, column as int),
            r < self.spec_width() * self.spec_height(),
    {
        proof {
            let w = self.width as int;
            let h = self.height as int;
            assert(row * w + column < w * h) by (nonlinear_arith)
                requires
                    0 <= row < h,
                    0 <= column < w,
            ;
        }
        row * self.width + column
    }

    /// The pixel at `(row, column)` of the current frame.
    pub fn get_cell(&self, row: usize, column: usize) -> (r: Cell)
        requires
            self.wf(),
            row < self.spec_height(),
            column < self.spec_width(),
        ensures
            r == cell_at(self@, pixel_index(self.spec_width(), row as int, column as int)),
    {
        let i = self.get_index(row, column);
        let k = i * BYTES_PER_PIXEL;
        Cell { r: self.pixels[k], g: self.pixels[k + 1], b: self.pixels[k + 2], a: self.pixels[k + 3] }
    }

    /// Draws every pixel into `cells`, row by row: the level that `shade`
    /// gives for a pixel's column and row goes to its red, green and blue
    /// bytes, and its alpha byte is opaque. No pixel reads another.
    fn render<F: Fn(usize, usize) -> u8>(&self, shade: &F, cells: &mut Vec<u8>)
        requires
            self.wf(),
            old(cells)@.len() == self@.len(),
            forall|column: usize, row: usize|
                column < self.spec_width() && row < self.spec_height() ==> call_requires(
                    *shade,
                    (column, row),
                ),
        ensures
            rendered(*shade, self.spec_width(), self.spec_height(), final(cells)@),
    {
        let ghost w = self.spec_width();
        let ghost h = self.spec_height();
        let mut y: usize = 0;
        while y < self.height
            invariant
                self.wf(),
                w == self.spec_width(),
                h == self.spec_height(),
                y <= h,
                cells@.len() == self@.len(),
                forall|column: usize, row: usize|
                    column < w && row < h ==> call_requires(*shade, (column, row)),
                forall|i: int| 0 <= i < y * w ==> #[trigger] shows(*shade, w, cells@, i),
            decreases h - y,
        {
            let mut x: usize = 0;
            while x < self.width
                invariant
                    self.wf(),
                    w == self.spec_width(),
                    h == self.spec_height(),
                    y < h,
                    x <= w,
                    cells@.len() == self@.len(),
                    forall|column: usize, row: usize|
                        column < w && row < h ==> call_requires(*shade, (column, row)),
                    forall|i: int| 0 <= i < y * w + x ==> #[trigger] shows(*shade, w, cells@, i),
                decreases w - x,
            {
                let level = shade(x, y);
                let idx = self.get_index(y, x);
                let k = idx * BYTES_PER_PIXEL;
                let ghost before = cells@;
                cells.set(k, level);
                cells.set(k + 1, level);
                cells.set(k + 2, level);
                cells.set(k + 3, OPAQUE);
                proof {
                    lemma_fundamental_div_mod_converse(idx as int, w, y as int, x as int);
                    assert forall|i: int| 0 <= i < idx + 1 implies #[trigger] shows(
                        *shade,
                        w,
                        cells@,
                        i,
                    ) by {
                        if i < idx {
                            assert(shows(*shade, w, before, i));
                            assert(cell_at(cells@, i) == cell_at(before, i));
                        } else {
                            assert(cell_at(cells@, i) == gray(level));
                        }
                    }
                }
                x += 1;
            }
            proof {
                assert((y + 1) * w == y * w + w) by (nonlinear_arith);
            }
            y += 1;
        }
        proof {
            assert(h * w == w * h) by (nonlinear_arith);
        }
    }

    /// Renders the next frame into a fresh buffer and then makes it the
    /// current one: every pixel becomes the opaque gray of the level that
    /// `shade` gives for its column and row.
    pub fn tick<F: Fn(usize, usize) -> u8>(&mut self, shade: F)
        requires
            old(self).wf(),
            forall|column: usize, row: usize|
                column < old(self).spec_width() && row < old(self).spec_height() ==> call_requires(
                    shade,
                    (column, row),
                ),
        ensures
            final(self).wf(),
            final(self).spec_width() == old(self).spec_width(),
            final(self).spec_height() == old(self).spec_height(),
            rendered(shade, final(self).spec_width(), final(self).spec_height(), final(self)@),
    {
        let mut next = self.pixels.clone();
        self.render(&shade, &mut next);
        self.pixels = next;
    }
}

} // verus!
