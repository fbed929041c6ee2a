//! Row-major RGBA layout of an image: four bytes per pixel, in the order
//! red, green, blue, alpha, top row first.

use vstd::prelude::*;

verus! {

/// Bytes that one pixel takes in the buffer.
pub const BYTES_PER_PIXEL: usize = 4;

/// Alpha of every rendered pixel: fully opaque.
pub const OPAQUE: u8 = 255;

/// One pixel's color channels.
#[derive(Clone, Copy, Debug, PartialEq, Eq, Structural)]
pub struct Cell {
    pub a: u8,
    pub r: u8,
    pub g: u8,
    pub b: u8,
}

/// The opaque gray pixel of the given level.
pub open spec fn gray(level: u8) -> Cell {
    Cell { a: OPAQUE, r: level, g: level, b: level }
}

/// Position of the pixel at `(row, column)` in a row-major image of the
/// given width.
pub open spec fn pixel_index(width: int, row: int, column: int) -> int {
    row * width + column
}

/// The pixel stored at pixel position `i` of an RGBA buffer.
pub open spec fn cell_at(cells: Seq<u8>, i: int) -> Cell {
    Cell { r: cells[4 * i], g: cells[4 * i + 1], b: cells[4 * i + 2], a: cells[4 * i + 3] }
}

/// Pixel `i` of a row-major image of the given width is the opaque gray
/// pixel of a level that `shade` may return for its column and row.
pub open spec fn shows<F: Fn(usize, usize) -> u8>(shade: F, width: int, cells: Seq<u8>, i: int) -> bool {
    let c = cell_at(cells, i);
    &&& c == gray(c.r)
    &&& call_ensures(shade, ((i % width) as usize, (i / width) as usize), c.r)
}

/// `cells` is a whole `width` by `height` frame in which every pixel is the
/// gray level that `shade` gives for it.
pub open spec fn rendered<F: Fn(usize, usize) -> u8>(shade: F, width: int, height: int, cells: Seq<u8>) -> bool {
    &&& cells.len() == width * height * 4
    &&& forall|i: int|
        #![trigger cell_at(cells, i)]
        0 <= i < width * height ==> shows(shade, width, cells, i)
}

/// `shade` gives at most one level for each column and row.
pub open spec fn deterministic<F: Fn(usize, usize) -> u8>(shade: F) -> bool {
    forall|column: usize, row: usize, p: u8, q: u8|
        call_ensures(shade, (column, row), p) && call_ensures(shade, (column, row), q) ==> p == q
}

/// A frame is a function of its shading alone: two whole frames of one size,
/// each rendered with a shading that gives one level per pixel, are
/// byte-identical, whatever their buffers held before.
pub proof fn lemma_rendered_unique<F: Fn(usize, usize) -> u8>(
    shade: F,
    width: int,
    height: int,
    a: Seq<u8>,
    b: Seq<u8>,
)
    requires
        deterministic(shade),
        rendered(shade, width, height, a),
        rendered(shade, width, height, b),
    ensures
        a == b,
{
    assert forall|k: int| 0 <= k < a.len() implies a[k] == b[k] by {
        let i = k / 4;
        assert(0 <= i < width * height);
        assert(shows(shade, width, a, i));
        assert(shows(shade, width, b, i));
        assert(cell_at(a, i).r == cell_at(b, i).r);
    }
    assert(a =~= b);
}

/// Every byte of a rendered frame is a channel of an opaque gray pixel: the
/// alpha byte of each pixel is fully opaque, and its green and blue bytes
/// repeat its red byte.
pub proof fn lemma_rendered_bytes<F: Fn(usize, usize) -> u8>(
    shade: F,
    width: int,
    height: int,
    cells: Seq<u8>,
    k: int,
)
    requires
        rendered(shade, width, height, cells),
        0 <= k < cells.len(),
    ensures
        k % 4 == 3 ==> cells[k] == OPAQUE,
        k % 4 != 3 ==> cells[k] == cells[k - k % 4],
{
    let i = k / 4;
    assert(0 <= i < width * height);
    assert(shows(shade, width, cells, i));
}

} // verus!
