//! The framebuffer: interleaved RGBA bytes beside one depth per pixel, and the
//! writes of single pixels that everything else draws through.

use vstd::prelude::*;
use crate::color::{BlendMode, Color};
use crate::depth::DEPTH_CLEAR;
use crate::frame::{lemma_index, Cell, Frame};

verus! {

/// A picture to draw into. Colour and depth are kept side by side: four
/// bytes and one depth ordinal for every pixel, row by row.
pub struct Framebuffer {
    pixels: Vec<u8>,
    zbuffer: Vec<u32>,
    width: usize,
    height: usize,
}

/// The cell of a pixel that has never been drawn on.
pub open spec fn blank_cell() -> Cell {
    Cell { color: Color { r: 0, g: 0, b: 0, a: 0 }, depth: DEPTH_CLEAR }
}

/// The cell of a pixel after a clear to `color`.
pub open spec fn cleared_cell(color: Color) -> Cell {
    Cell { color, depth: DEPTH_CLEAR }
}

impl View for Framebuffer {
    type V = Frame;

    closed spec fn view(&self) -> Frame {
        Frame {
            width: self.width as nat,
            height: self.height as nat,
            cells: Seq::new(
                (self.width * self.height) as nat,
                |i: int|
                    Cell {
                        color: Color {
                            r: self.pixels@[4 * i],
                            g: self.pixels@[4 * i + 1],
                            b: self.pixels@[4 * i + 2],
                            a: self.pixels@[4 * i + 3],
                        },
                        depth: self.zbuffer@[i],
                    },
            ),
        }
    }
}

impl Framebuffer {
    /// The two buffers have the lengths that the size calls for.
    #[verifier::type_invariant]
    spec fn wf(&self) -> bool {
        &&& self.pixels@.len() == self.width * self.height * 4
        &&& self.zbuffer@.len() == self.width * self.height
        &&& self.width * self.height * 4 <= usize::MAX
    }

    /// A framebuffer holds a whole frame, of a size that the machine can
    /// count.
    pub proof fn lemma_view(&self)
        ensures
            self@.wf(),
            self@.width <= usize::MAX,
            self@.height <= usize::MAX,
    {
    }

    /// A framebuffer of the given size, every pixel transparent black at the
    /// clear depth.
    pub fn new(width: usize, height: usize) -> (fb: Framebuffer)
        requires
            width * height * 4 <= usize::MAX,
        ensures
            fb@ == Frame::filled(width as nat, height as nat, blank_cell()),
    {
        assert(width * height <= width * height * 4) by (nonlinear_arith);
        let count: usize = width * height;
        let fb = Framebuffer {
            pixels: vec![0u8; count * 4],
            zbuffer: vec![DEPTH_CLEAR; count],
            width,
            height,
        };
        assert(fb@.cells =~= Frame::filled(width as nat, height as nat, blank_cell()).cells);
        fb
    }

    /// Gives the framebuffer a new size. With the size it has, nothing
    /// happens; with another, it starts over as `new` would.
    pub fn resize(&mut self, width: usize, height: usize)
        requires
            width * height * 4 <= usize::MAX,
        ensures
            final(self)@ == (if old(self)@.width == width && old(self)@.height == height {
                old(self)@
            } else {
                Frame::filled(width as nat, height as nat, blank_cell())
            }),
    {
        if self.width != width || self.height != height {
            *self = Framebuffer::new(width, height);
        }
    }

    pub fn width(&self) -> (w: usize)
        ensures
            w == self@.width,
    {
        self.width
    }

    pub fn height(&self) -> (h: usize)
        ensures
            h == self@.height,
    {
        self.height
    }

    /// The colour bytes, for whoever shows the picture.
    pub fn pixels(&self) -> (bytes: &Vec<u8>)
        ensures
            bytes@ == self@.bytes(),
    {
        proof {
            use_type_invariant(self);
            assert(self.pixels@ =~= self@.bytes());
        }
        &self.pixels
    }

    /// The depths, one per pixel.
    pub fn zbuffer(&self) -> (depths: &Vec<u32>)
        ensures
            depths@ == self@.depths(),
    {
        proof {
            use_type_invariant(self);
            assert(self.zbuffer@ =~= self@.depths());
        }
        &self.zbuffer
    }

    /// The place of an in-range pixel in the depth buffer.
    fn offset(&self, x: usize, y: usize) -> (idx: usize)
        requires
            x < self.width,
            y < self.height,
        ensures
            idx == self@.index(x as int, y as int),
            idx < self.width * self.height,
    {
        proof {
            use_type_invariant(self);
            lemma_index(self.width as nat, self.height as nat, x as int, y as int);
            assert(0 <= y * self.width) by (nonlinear_arith)
                requires
                    0 <= y,
                    0 <= self.width,
            ;
        }
        y * self.width + x
    }

    fn load(&self, idx: usize) -> (cell: Cell)
        requires
            idx < self.width * self.height,
        ensures
            cell == self@.cells[idx as int],
    {
        proof {
            use_type_invariant(self);
        }
        Cell {
            color: Color {
                r: self.pixels[idx * 4],
                g: self.pixels[idx * 4 + 1],
                b: self.pixels[idx * 4 + 2],
                a: self.pixels[idx * 4 + 3],
            },
            depth: self.zbuffer[idx],
        }
    }

    fn store_color(&mut self, idx: usize, color: Color)
        requires
            idx < old(self).width * old(self).height,
        ensures
            final(self).width == old(self).width,
            final(self).height == old(self).height,
            final(self)@ == (Frame {
                cells: old(self)@.cells.update(
                    idx as int,
                    old(self)@.cells[idx as int].with_color(color),
                ),
                ..old(self)@
            }),
    {
        proof {
            use_type_invariant(&*self);
        }
        let base: usize = idx * 4;
        self.pixels[base] = color.r;
        self.pixels[base + 1] = color.g;
        self.pixels[base + 2] = color.b;
        self.pixels[base + 3] = color.a;
        assert(self@.cells =~= old(self)@.cells.update(
            idx as int,
            old(self)@.cells[idx as int].with_color(color),
        ));
    }

    /// What the pixel at `(x, y)` holds, if there is such a pixel.
    pub fn get(&self, x: usize, y: usize) -> (cell: Option<Cell>)
        ensures
            cell == (if self@.contains(x as int, y as int) {
                Some(self@.at(x as int, y as int))
            } else {
                None
            }),
    {
        if x < self.width && y < self.height {
            let idx = self.offset(x, y);
            Some(self.load(idx))
        } else {
            None
        }
    }

    /// Whether a write at depth `z` would be dropped at `(x, y)`: the pixel
    /// holds something at least as near, or there is no such pixel. It lets
    /// a caller skip the work of colouring a pixel that cannot show.
    pub fn is_hidden(&self, x: usize, y: usize, z: u32) -> (hidden: bool)
        ensures
            hidden == !self@.nearer(x as int, y as int, z),
    {
        if x < self.width && y < self.height {
            let idx = self.offset(x, y);
            proof {
                use_type_invariant(self);
            }
            z >= self.zbuffer[idx]
        } else {
            true
        }
    }

    /// Sets every pixel to `color` and every depth to the clear depth.
    pub fn clear(&mut self, color: Color)
        ensures
            final(self)@ == Frame::filled(
                old(self)@.width,
                old(self)@.height,
                cleared_cell(color),
            ),
    {
        proof {
            use_type_invariant(&*self);
        }
        let count: usize = self.zbuffer.len();
        let mut i: usize = 0;
        while i < count
            invariant
                self.width == old(self).width,
                self.height == old(self).height,
                count == self.width * self.height,
                count == self.zbuffer@.len(),
                i <= count,
                forall|k: int| 0 <= k < i ==> #[trigger] self@.cells[k] == cleared_cell(color),
            decreases count - i,
        {
            let ghost before = self@;
            self.store_color(i, color);
            let ghost stored = self@;
            proof {
                use_type_invariant(&*self);
            }
            self.zbuffer[i] = DEPTH_CLEAR;
            assert forall|k: int| 0 <= k < i + 1 implies #[trigger] self@.cells[k] == cleared_cell(
                color,
            ) by {
                if k < i {
                    assert(self@.cells[k] == stored.cells[k]);
                    assert(stored.cells[k] == before.cells[k]);
                } else {
                    assert(stored.cells[k].color == color);
                }
            }
            i += 1;
        }
        assert(self@.cells =~= Frame::filled(
            old(self)@.width,
            old(self)@.height,
            cleared_cell(color),
        ).cells);
    }

    /// Writes a colour at `(x, y)`. Off the picture it does nothing.
    pub fn set_pixel(&mut self, x: usize, y: usize, color: Color)
        ensures
            final(self)@ == old(self)@.put_color(x as int, y as int, color),
    {
        if x < self.width && y < self.height {
            let idx = self.offset(x, y);
            self.store_color(idx, color);
        }
    }

    /// Blends a colour over the pixel at `(x, y)`. Off the picture it does
    /// nothing.
    pub fn set_pixel_blended(&mut self, x: usize, y: usize, color: Color, mode: BlendMode)
        ensures
            final(self)@ == old(self)@.put_blended(x as int, y as int, color, mode),
    {
        if x < self.width && y < self.height {
            let idx = self.offset(x, y);
            let back = self.load(idx).color;
            self.store_color(idx, color.blend(back, mode));
        }
    }

    /// Writes colour and depth at `(x, y)` if `z` is strictly nearer than the
    /// depth held there, and says whether it did. This is the one operation
    /// through which a drawn pixel's depth changes.
    pub fn set_pixel_with_depth(&mut self, x: usize, y: usize, z: u32, color: Color) -> (written:
        bool)
        ensures
            written == old(self)@.nearer(x as int, y as int, z),
            final(self)@ == old(self)@.put_nearer(x as int, y as int, z, color),
    {
        if x < self.width && y < self.height {
            let idx = self.offset(x, y);
            proof {
                use_type_invariant(&*self);
            }
            if z < self.zbuffer[idx] {
                self.zbuffer[idx] = z;
                self.store_color(idx, color);
                assert(self@.cells =~= old(self)@.cells.update(
                    idx as int,
                    Cell { color, depth: z },
                ));
                return true;
            }
        }
        false
    }
}

} // verus!
