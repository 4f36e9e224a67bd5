//! The picture that a framebuffer holds, as a mathematical value.

use vstd::prelude::*;
use crate::color::{BlendMode, Color};

verus! {

/// What one pixel holds: its colour and the depth of what was drawn there.
#[derive(Debug, Clone, Copy, PartialEq, Eq, Structural)]
pub struct Cell {
    pub color: Color,
    pub depth: u32,
}

impl Cell {
    /// The same cell under another colour; the depth stays.
    pub open spec fn with_color(self, color: Color) -> Cell {
        Cell { color, depth: self.depth }
    }
}

/// A grid of cells, row by row from the top.
pub struct Frame {
    pub width: nat,
    pub height: nat,
    pub cells: Seq<Cell>,
}

impl Frame {
    pub open spec fn wf(self) -> bool {
        self.cells.len() == self.width * self.height
    }

    pub open spec fn same_shape(self, other: Frame) -> bool {
        self.width == other.width && self.height == other.height
    }

    /// Whether `(x, y)` is a pixel of the grid.
    pub open spec fn contains(self, x: int, y: int) -> bool {
        0 <= x < self.width && 0 <= y < self.height
    }

    /// The place of pixel `(x, y)` in `cells`.
    pub open spec fn index(self, x: int, y: int) -> int {
        y * self.width + x
    }

    pub open spec fn at(self, x: int, y: int) -> Cell {
        self.cells[self.index(x, y)]
    }

    /// The frame with one pixel replaced; a pixel off the grid changes
    /// nothing.
    pub open spec fn put(self, x: int, y: int, cell: Cell) -> Frame {
        if self.contains(x, y) {
            Frame { cells: self.cells.update(self.index(x, y), cell), ..self }
        } else {
            self
        }
    }

    /// An unconditional write of a colour; depth is untouched.
    pub open spec fn put_color(self, x: int, y: int, color: Color) -> Frame {
        self.put(x, y, self.at(x, y).with_color(color))
    }

    /// A write of `color` blended over what is there; depth is untouched.
    pub open spec fn put_blended(self, x: int, y: int, color: Color, mode: BlendMode) -> Frame {
        self.put_color(x, y, color.blended(self.at(x, y).color, mode))
    }

    /// Whether a write at depth `z` passes the depth test at `(x, y)`.
    pub open spec fn nearer(self, x: int, y: int, z: u32) -> bool {
        self.contains(x, y) && z < self.at(x, y).depth
    }

    /// A depth-tested write: colour and depth are both replaced where `z` is
    /// strictly nearer than what is there, and nothing changes otherwise.
    pub open spec fn put_nearer(self, x: int, y: int, z: u32, color: Color) -> Frame {
        if self.nearer(x, y, z) {
            self.put(x, y, Cell { color, depth: z })
        } else {
            self
        }
    }

    /// A frame of the given size with the same cell everywhere.
    pub open spec fn filled(width: nat, height: nat, cell: Cell) -> Frame {
        Frame { width, height, cells: Seq::new(width * height, |i: int| cell) }
    }

    /// The colours as bytes, four to a pixel: red, green, blue, alpha.
    pub open spec fn bytes(self) -> Seq<u8> {
        Seq::new(
            4 * self.cells.len(),
            |k: int|
                {
                    let c = self.cells[k / 4].color;
                    if k % 4 == 0 {
                        c.r
                    } else if k % 4 == 1 {
                        c.g
                    } else if k % 4 == 2 {
                        c.b
                    } else {
                        c.a
                    }
                },
        )
    }

    /// The depths, one to a pixel.
    pub open spec fn depths(self) -> Seq<u32> {
        Seq::new(self.cells.len(), |i: int| self.cells[i].depth)
    }
}

/// Pixels of a grid have places of their own: the place is in range, and two
/// pixels share it only if they are the same pixel.
pub proof fn lemma_index(width: nat, height: nat, x: int, y: int)
    requires
        0 <= x < width,
        0 <= y < height,
    ensures
        0 <= y * width + x < width * height,
        (y * width + x) / (width as int) == y,
        (y * width + x) % (width as int) == x,
{
    assert(0 <= y * width + x < width * height) by (nonlinear_arith)
        requires
            0 <= x < width,
            0 <= y < height,
    ;
    vstd::arithmetic::div_mod::lemma_fundamental_div_mod_converse(
        y * width + x,
        width as int,
        y,
        x,
    );
}

/// Every place in a grid belongs to exactly one of its pixels.
pub proof fn lemma_index_split(width: nat, height: nat, i: int)
    requires
        0 <= i < width * height,
    ensures
        width > 0,
        0 <= i % (width as int) < width,
        0 <= i / (width as int) < height,
        (i / (width as int)) * width + i % (width as int) == i,
{
    assert(width > 0) by (nonlinear_arith)
        requires
            0 <= i < width * height,
    ;
    let w = width as int;
    vstd::arithmetic::div_mod::lemma_fundamental_div_mod(i, w);
    let q = i / w;
    assert(0 <= q < height) by (nonlinear_arith)
        requires
            0 <= i < w * height,
            i == w * q + i % w,
            0 <= i % w < w,
            w > 0,
    ;
    assert(q * w == w * q) by (nonlinear_arith);
}

impl Frame {
    /// What a single write leaves at every pixel: the written cell at its
    /// own pixel, the old cell elsewhere.
    pub proof fn lemma_put(self, x: int, y: int, cell: Cell)
        requires
            self.wf(),
        ensures
            self.put(x, y, cell).wf(),
            self.put(x, y, cell).same_shape(self),
            forall|i: int, j: int|
                self.contains(i, j) ==> #[trigger] self.put(x, y, cell).at(i, j) == (if i == x && j
                    == y {
                    cell
                } else {
                    self.at(i, j)
                }),
    {
        if self.contains(x, y) {
            lemma_index(self.width, self.height, x, y);
            assert forall|i: int, j: int| self.contains(i, j) implies #[trigger] self.put(
                x,
                y,
                cell,
            ).at(i, j) == (if i == x && j == y {
                cell
            } else {
                self.at(i, j)
            }) by {
                lemma_index(self.width, self.height, i, j);
            }
        }
    }

    /// No write reaches beyond the picture: at a place that is not one of
    /// its pixels, a write of any kind leaves the whole frame as it is.
    pub proof fn lemma_off_picture(self, x: int, y: int, z: u32, color: Color, mode: BlendMode)
        requires
            !self.contains(x, y),
        ensures
            self.put_color(x, y, color) == self,
            self.put_blended(x, y, color, mode) == self,
            self.put_nearer(x, y, z, color) == self,
            !self.nearer(x, y, z),
    {
    }

    /// Two frames of one shape that agree at every pixel are equal.
    pub proof fn lemma_equal(self, other: Frame)
        requires
            self.wf(),
            other.wf(),
            self.same_shape(other),
            forall|i: int, j: int| self.contains(i, j) ==> self.at(i, j) == other.at(i, j),
        ensures
            self == other,
    {
        assert forall|k: int| 0 <= k < self.cells.len() implies self.cells[k] == other.cells[k] by {
            lemma_index_split(self.width, self.height, k);
            let w = self.width as int;
            assert(self.contains(k % w, k / w));
            assert(self.at(k % w, k / w) == other.at(k % w, k / w));
        }
        assert(self.cells =~= other.cells);
    }
}

} // verus!
