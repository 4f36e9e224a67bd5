//! Straight lines on the pixel grid.
//!
//! A line runs from one pixel to another. Along its longer axis it visits
//! every column (or row) between the two once; across, it takes the pixel
//! nearest to the true line. `Line::on` says which pixels those are without
//! reference to how they are found, and the drawing loops are proved to
//! visit exactly them, each once, from the first end to the second.

use vstd::prelude::*;
use crate::color::{BlendMode, Color};
use crate::frame::{Cell, Frame};
use crate::framebuffer::Framebuffer;

verus! {

/// The distance between two coordinates.
pub open spec fn span(a: int, b: int) -> int {
    if a <= b {
        b - a
    } else {
        a - b
    }
}

/// How far `p` lies from `from`, counted towards `to`.
pub open spec fn toward(from: int, to: int, p: int) -> int {
    if from < to {
        p - from
    } else {
        from - p
    }
}

/// Whether a drift lies in the half-open band, one pixel wide, round the true
/// line. The band is closed on the far side where the line is wider than tall
/// and on the near side where it is taller than wide, so that a true line
/// that passes exactly between two pixels takes the one further along.
pub open spec fn in_band(dx: int, dy: int, drift: int) -> bool {
    if dx >= dy {
        -dx < 2 * drift <= dx
    } else {
        -dy <= 2 * drift < dy
    }
}

/// A line from `(x0, y0)` to `(x1, y1)`.
pub struct Line {
    pub x0: int,
    pub y0: int,
    pub x1: int,
    pub y1: int,
}

impl Line {
    pub open spec fn dx(self) -> int {
        span(self.x0, self.x1)
    }

    pub open spec fn dy(self) -> int {
        span(self.y0, self.y1)
    }

    /// The number of steps from the first pixel to the last.
    pub open spec fn steps(self) -> int {
        if self.dx() >= self.dy() {
            self.dx()
        } else {
            self.dy()
        }
    }

    /// How far `(x, y)` lies off the true line: the cross product of the
    /// line's direction with the way from its start to the pixel, both taken
    /// towards the end. It is zero on the true line.
    pub open spec fn drift(self, x: int, y: int) -> int {
        toward(self.y0, self.y1, y) * self.dx() - toward(self.x0, self.x1, x) * self.dy()
    }

    /// The number of the step at which the line reaches the column (or, for
    /// a line taller than wide, the row) of `(x, y)`.
    pub open spec fn step_of(self, x: int, y: int) -> int {
        if self.dx() >= self.dy() {
            toward(self.x0, self.x1, x)
        } else {
            toward(self.y0, self.y1, y)
        }
    }

    /// Whether `(x, y)` is a pixel of the line.
    pub open spec fn on(self, x: int, y: int) -> bool {
        if self.dx() == 0 && self.dy() == 0 {
            x == self.x0 && y == self.y0
        } else {
            &&& 0 <= self.step_of(x, y) <= self.steps()
            &&& in_band(self.dx(), self.dy(), self.drift(x, y))
        }
    }

    /// Both ends are pixels of the line, the first at step 0 and the second
    /// at the last step.
    pub proof fn lemma_ends(self)
        ensures
            self.on(self.x0, self.y0),
            self.on(self.x1, self.y1),
            self.step_of(self.x0, self.y0) == 0,
            self.step_of(self.x1, self.y1) == self.steps(),
    {
        let dx = self.dx();
        let dy = self.dy();
        assert(dy * dx - dx * dy == 0) by (nonlinear_arith);
        assert(0 * dx - 0 * dy == 0);
    }

    /// A line has one pixel at each step: two of its pixels at the same step
    /// are the same pixel.
    pub proof fn lemma_one_per_step(self, xa: int, ya: int, xb: int, yb: int)
        requires
            self.on(xa, ya),
            self.on(xb, yb),
            self.step_of(xa, ya) == self.step_of(xb, yb),
        ensures
            xa == xb,
            ya == yb,
    {
        let dx = self.dx();
        let dy = self.dy();
        if dx == 0 && dy == 0 {
        } else if dx >= dy {
            let a = toward(self.x0, self.x1, xa);
            let p = toward(self.y0, self.y1, ya);
            let q = toward(self.y0, self.y1, yb);
            assert(p == q) by (nonlinear_arith)
                requires
                    dx > 0,
                    -dx < 2 * (p * dx - a * dy) <= dx,
                    -dx < 2 * (q * dx - a * dy) <= dx,
            ;
        } else {
            let b = toward(self.y0, self.y1, ya);
            let p = toward(self.x0, self.x1, xa);
            let q = toward(self.x0, self.x1, xb);
            assert(p == q) by (nonlinear_arith)
                requires
                    dy > 0,
                    -dy <= 2 * (b * dx - p * dy) < dy,
                    -dy <= 2 * (b * dx - q * dy) < dy,
            ;
        }
    }

    /// The pixels of a level line are those of its row between its ends.
    pub proof fn lemma_level(self, x: int, y: int)
        requires
            self.y0 == self.y1,
        ensures
            self.on(x, y) <==> (y == self.y0 && (self.x0 <= x <= self.x1 || self.x1 <= x
                <= self.x0)),
    {
        let dx = self.dx();
        let p = toward(self.y0, self.y1, y);
        if dx > 0 {
            assert(-dx < 2 * (p * dx) <= dx <==> p == 0) by (nonlinear_arith)
                requires
                    dx > 0,
            ;
        }
    }

    /// The pixels of an upright line are those of its column between its
    /// ends.
    pub proof fn lemma_upright(self, x: int, y: int)
        requires
            self.x0 == self.x1,
        ensures
            self.on(x, y) <==> (x == self.x0 && (self.y0 <= y <= self.y1 || self.y1 <= y
                <= self.y0)),
    {
        let dy = self.dy();
        let p = toward(self.x0, self.x1, x);
        if dy > 0 {
            assert(-dy <= 2 * (0 - p * dy) < dy <==> p == 0) by (nonlinear_arith)
                requires
                    dy > 0,
            ;
        }
    }
}

/// `p / q` rounded to the nearest whole number, halves upwards, for a
/// positive `q`.
pub open spec fn rounded(p: int, q: int) -> int {
    (2 * p + q) / (2 * q)
}

/// A coordinate `by` steps from `from`, counted towards `to`.
pub open spec fn stepped(from: int, to: int, by: int) -> int {
    if from < to {
        from + by
    } else {
        from - by
    }
}

impl Line {
    /// The pixel of the line at step `t`: `t` pixels along the longer axis
    /// and, along the other, as far as the true line has come by then,
    /// rounded to the nearest pixel.
    pub open spec fn pixel_at(self, t: int) -> (int, int) {
        if self.dx() == 0 && self.dy() == 0 {
            (self.x0, self.y0)
        } else if self.dx() >= self.dy() {
            (
                stepped(self.x0, self.x1, t),
                stepped(self.y0, self.y1, rounded(t * self.dy(), self.dx())),
            )
        } else {
            (
                stepped(self.x0, self.x1, rounded(t * self.dx(), self.dy())),
                stepped(self.y0, self.y1, t),
            )
        }
    }

    /// The line has a pixel at each of its steps, and `pixel_at` names it.
    pub proof fn lemma_pixel_at(self, t: int)
        requires
            0 <= t <= self.steps(),
        ensures
            self.on(self.pixel_at(t).0, self.pixel_at(t).1),
            self.step_of(self.pixel_at(t).0, self.pixel_at(t).1) == t,
    {
        let dx = self.dx();
        let dy = self.dy();
        if dx == 0 && dy == 0 {
        } else if dx >= dy {
            let b = rounded(t * dy, dx);
            vstd::arithmetic::div_mod::lemma_fundamental_div_mod(2 * (t * dy) + dx, 2 * dx);
            vstd::arithmetic::div_mod::lemma_mod_bound(2 * (t * dy) + dx, 2 * dx);
            assert((2 * dx) * b == 2 * (b * dx)) by (nonlinear_arith);
        } else {
            let a = rounded(t * dx, dy);
            vstd::arithmetic::div_mod::lemma_fundamental_div_mod(2 * (t * dx) + dy, 2 * dy);
            vstd::arithmetic::div_mod::lemma_mod_bound(2 * (t * dx) + dy, 2 * dy);
            assert((2 * dy) * a == 2 * (a * dy)) by (nonlinear_arith);
        }
    }

    /// The pixels of a line are those that `pixel_at` names, one for each
    /// step from 0 to the last.
    pub proof fn lemma_pixels(self, x: int, y: int)
        ensures
            self.on(x, y) <==> (0 <= self.step_of(x, y) <= self.steps() && self.pixel_at(
                self.step_of(x, y),
            ) == (x, y)),
    {
        let t = self.step_of(x, y);
        if 0 <= t <= self.steps() {
            self.lemma_pixel_at(t);
            if self.on(x, y) {
                self.lemma_one_per_step(x, y, self.pixel_at(t).0, self.pixel_at(t).1);
            }
        }
    }

    /// A line does not jump: from one step to the next it moves by one
    /// pixel along the longer axis and by one or none along the other,
    /// both towards its far end.
    pub proof fn lemma_connected(self, xa: int, ya: int, xb: int, yb: int)
        requires
            self.on(xa, ya),
            self.on(xb, yb),
            self.step_of(xb, yb) == self.step_of(xa, ya) + 1,
        ensures
            0 <= toward(self.x0, self.x1, xb) - toward(self.x0, self.x1, xa) <= 1,
            0 <= toward(self.y0, self.y1, yb) - toward(self.y0, self.y1, ya) <= 1,
    {
        let dx = self.dx();
        let dy = self.dy();
        let a1 = toward(self.x0, self.x1, xa);
        let a2 = toward(self.x0, self.x1, xb);
        let b1 = toward(self.y0, self.y1, ya);
        let b2 = toward(self.y0, self.y1, yb);
        if dx >= dy {
            assert(0 <= b2 - b1 <= 1) by (nonlinear_arith)
                requires
                    0 <= dy <= dx,
                    dx > 0,
                    a2 == a1 + 1,
                    -dx < 2 * (b1 * dx - a1 * dy) <= dx,
                    -dx < 2 * (b2 * dx - a2 * dy) <= dx,
            ;
        } else {
            assert(0 <= a2 - a1 <= 1) by (nonlinear_arith)
                requires
                    0 <= dx < dy,
                    b2 == b1 + 1,
                    -dy <= 2 * (b1 * dx - a1 * dy) < dy,
                    -dy <= 2 * (b2 * dx - a2 * dy) < dy,
            ;
        }
    }
}

/// One turn of the stepping rule. `a` and `b` count the steps taken so far
/// along each axis, `drift` is how far off the true line they have led, and
/// `drift + dx - dy` is the error term that the loop carries. The rule moves
/// along an axis only while that axis has steps left, always moves along the
/// longer one, and keeps the drift in the band.
proof fn lemma_step(dx: int, dy: int, a: int, b: int, drift: int)
    requires
        0 <= a <= dx,
        0 <= b <= dy,
        drift == b * dx - a * dy,
        in_band(dx, dy, drift),
        !(a == dx && b == dy),
    ensures
        ({
            let twice = 2 * (drift + dx - dy);
            let across = twice >= -dy;
            let along = twice <= dx;
            let a2 = if across {
                a + 1
            } else {
                a
            };
            let b2 = if along {
                b + 1
            } else {
                b
            };
            let drift2 = drift - (if across {
                dy
            } else {
                0
            }) + (if along {
                dx
            } else {
                0
            });
            &&& a2 <= dx
            &&& b2 <= dy
            &&& drift2 == b2 * dx - a2 * dy
            &&& in_band(dx, dy, drift2)
            &&& dx >= dy ==> across
            &&& dx < dy ==> along
        }),
{
    let twice = 2 * (drift + dx - dy);
    let across = twice >= -dy;
    let along = twice <= dx;
    assert((b + 1) * dx == b * dx + dx) by (nonlinear_arith);
    assert((a + 1) * dy == a * dy + dy) by (nonlinear_arith);
    if dx >= dy {
        assert(a < dx) by (nonlinear_arith)
            requires
                0 <= a <= dx,
                0 <= b <= dy,
                dy <= dx,
                drift == b * dx - a * dy,
                -dx < 2 * drift <= dx,
                !(a == dx && b == dy),
        ;
        if along {
            assert(b < dy) by (nonlinear_arith)
                requires
                    0 <= a < dx,
                    0 <= b <= dy,
                    drift == b * dx - a * dy,
                    2 * drift + dx <= 2 * dy,
            ;
        }
    } else {
        assert(b < dy) by (nonlinear_arith)
            requires
                0 <= a <= dx,
                0 <= b <= dy,
                dx < dy,
                drift == b * dx - a * dy,
                -dy <= 2 * drift < dy,
                !(a == dx && b == dy),
        ;
        if across {
            assert(a < dx) by (nonlinear_arith)
                requires
                    0 <= a <= dx,
                    0 <= b < dy,
                    drift == b * dx - a * dy,
                    2 * drift + 2 * dx >= dy,
            ;
        }
    }
}

/// What a pixel holds once `color` has been drawn on it in the given mode.
pub open spec fn inked(cell: Cell, color: Color, mode: BlendMode) -> Cell {
    cell.with_color(color.blended(cell.color, mode))
}

/// Whether the pixel of a line at step `step` is to be drawn over a pixel
/// that holds depth `held`. Without depths every pixel is drawn. With them,
/// the pixel is drawn where the line's depth at that step is strictly nearer
/// than what is held; a step for which no depth is given is not drawn.
pub open spec fn passes(depths: Option<Seq<u32>>, step: int, held: u32) -> bool {
    match depths {
        None => true,
        Some(d) => 0 <= step < d.len() && d[step] < held,
    }
}

/// `after` is `before` with the line traced on it: every pixel of the line
/// that the picture has, and that passes, is inked once; nothing else has
/// changed, and no depth has.
pub open spec fn line_traced(
    before: Frame,
    after: Frame,
    line: Line,
    color: Color,
    mode: BlendMode,
    depths: Option<Seq<u32>>,
) -> bool {
    &&& after.wf()
    &&& after.same_shape(before)
    &&& forall|x: int, y: int|
        before.contains(x, y) ==> #[trigger] after.at(x, y) == (if line.on(x, y) && passes(
            depths,
            line.step_of(x, y),
            before.at(x, y).depth,
        ) {
            inked(before.at(x, y), color, mode)
        } else {
            before.at(x, y)
        })
}

/// `after` is `before` with the whole line drawn on it.
pub open spec fn line_drawn(
    before: Frame,
    after: Frame,
    line: Line,
    color: Color,
    mode: BlendMode,
) -> bool {
    line_traced(before, after, line, color, mode, None)
}

/// `now` is `before` with the line traced as far as, and without, step
/// `upto`.
spec fn line_traced_upto(
    before: Frame,
    now: Frame,
    line: Line,
    upto: int,
    color: Color,
    mode: BlendMode,
    depths: Option<Seq<u32>>,
) -> bool {
    &&& now.wf()
    &&& now.same_shape(before)
    &&& forall|x: int, y: int|
        before.contains(x, y) ==> #[trigger] now.at(x, y) == (if line.on(x, y) && line.step_of(
            x,
            y,
        ) < upto && passes(depths, line.step_of(x, y), before.at(x, y).depth) {
            inked(before.at(x, y), color, mode)
        } else {
            before.at(x, y)
        })
}

/// Handling the pixel of step `t` takes a line traced up to `t` to one
/// traced up to `t + 1`.
proof fn lemma_trace_one(
    before: Frame,
    now: Frame,
    next: Frame,
    line: Line,
    t: int,
    x: int,
    y: int,
    color: Color,
    mode: BlendMode,
    depths: Option<Seq<u32>>,
)
    requires
        before.wf(),
        line_traced_upto(before, now, line, t, color, mode, depths),
        line.on(x, y),
        line.step_of(x, y) == t,
        next == (if now.contains(x, y) && passes(depths, t, now.at(x, y).depth) {
            now.put_blended(x, y, color, mode)
        } else {
            now
        }),
    ensures
        line_traced_upto(before, next, line, t + 1, color, mode, depths),
{
    now.lemma_put(x, y, now.at(x, y).with_color(color.blended(now.at(x, y).color, mode)));
    assert forall|i: int, j: int| before.contains(i, j) implies #[trigger] next.at(i, j) == (if
        line.on(i, j) && line.step_of(i, j) < t + 1 && passes(
        depths,
        line.step_of(i, j),
        before.at(i, j).depth,
    ) {
        inked(before.at(i, j), color, mode)
    } else {
        before.at(i, j)
    }) by {
        assert(now.contains(i, j));
        if line.on(i, j) && line.step_of(i, j) == t {
            line.lemma_one_per_step(i, j, x, y);
        }
    }
}

impl Framebuffer {
    /// Draws a line from `(x0, y0)` to `(x1, y1)`, both ends included. Parts
    /// of it that lie off the picture are left out.
    pub fn draw_line(&mut self, x0: i32, y0: i32, x1: i32, y1: i32, color: Color)
        ensures
            line_drawn(
                old(self)@,
                final(self)@,
                Line { x0: x0 as int, y0: y0 as int, x1: x1 as int, y1: y1 as int },
                color,
                BlendMode::Opaque,
            ),
    {
        self.trace_line(x0, y0, x1, y1, color, BlendMode::Opaque, None);
    }

    /// Draws a line from `(x0, y0)` to `(x1, y1)`, both ends included,
    /// blending each of its pixels once over what is there.
    pub fn draw_line_blended(
        &mut self,
        x0: i32,
        y0: i32,
        x1: i32,
        y1: i32,
        color: Color,
        mode: BlendMode,
    )
        ensures
            line_drawn(
                old(self)@,
                final(self)@,
                Line { x0: x0 as int, y0: y0 as int, x1: x1 as int, y1: y1 as int },
                color,
                mode,
            ),
    {
        self.trace_line(x0, y0, x1, y1, color, mode, None);
    }

    /// Draws the parts of a line that are not hidden. `depths` holds the
    /// line's depth at each of its steps, the first end at index 0. A pixel
    /// of the line is drawn where that depth is strictly nearer than the
    /// depth the picture holds there; the picture's depths are read and never
    /// written, so that an overlay leaves them as the solid geometry set
    /// them. A step for which `depths` has no entry is not drawn.
    pub fn draw_line_3d(
        &mut self,
        x0: i32,
        y0: i32,
        x1: i32,
        y1: i32,
        depths: &[u32],
        color: Color,
    )
        ensures
            line_traced(
                old(self)@,
                final(self)@,
                Line { x0: x0 as int, y0: y0 as int, x1: x1 as int, y1: y1 as int },
                color,
                BlendMode::Opaque,
                Some(depths@),
            ),
    {
        self.trace_line(x0, y0, x1, y1, color, BlendMode::Opaque, Some(depths));
    }

    /// Walks the line pixel by pixel with an integer error term: at each
    /// turn it steps along one axis or both, towards the far end.
    fn trace_line(
        &mut self,
        x0: i32,
        y0: i32,
        x1: i32,
        y1: i32,
        color: Color,
        mode: BlendMode,
        depths: Option<&[u32]>,
    )
        ensures
            line_traced(
                old(self)@,
                final(self)@,
                Line { x0: x0 as int, y0: y0 as int, x1: x1 as int, y1: y1 as int },
                color,
                mode,
                match depths {
                    Some(d) => Some(d@),
                    None => None,
                },
            ),
    {
        let ghost line = Line { x0: x0 as int, y0: y0 as int, x1: x1 as int, y1: y1 as int };
        let ghost before = self@;
        let ghost zs: Option<Seq<u32>> = match depths {
            Some(d) => Some(d@),
            None => None,
        };
        let dx: i64 = if x0 < x1 {
            x1 as i64 - x0 as i64
        } else {
            x0 as i64 - x1 as i64
        };
        let dy: i64 = if y0 < y1 {
            y1 as i64 - y0 as i64
        } else {
            y0 as i64 - y1 as i64
        };
        let mut err: i64 = dx - dy;
        let mut x: i32 = x0;
        let mut y: i32 = y0;
        let mut step: usize = 0;
        let ghost mut a: int = 0;
        let ghost mut b: int = 0;
        proof {
            self.lemma_view();
            assert(0 * dx - 0 * dy == 0);
        }
        loop
            invariant_except_break
                line_traced_upto(before, self@, line, step as int, color, mode, zs),
            invariant
                before.wf(),
                line == (Line { x0: x0 as int, y0: y0 as int, x1: x1 as int, y1: y1 as int }),
                zs == (match depths {
                    Some(d) => Some(d@),
                    None => None,
                }),
                dx == line.dx(),
                dy == line.dy(),
                0 <= a <= dx,
                0 <= b <= dy,
                step == (if dx >= dy {
                    a
                } else {
                    b
                }),
                a == toward(x0 as int, x1 as int, x as int),
                b == toward(y0 as int, y1 as int, y as int),
                err == b * dx - a * dy + dx - dy,
                dx == 0 && dy == 0 || in_band(dx as int, dy as int, b * dx - a * dy),
            ensures
                line_traced(before, self@, line, color, mode, zs),
            decreases (dx - a) + (dy - b),
        {
            let ghost now = self@;
            if x >= 0 && y >= 0 {
                let visible = match depths {
                    None => true,
                    Some(d) => if step < d.len() {
                        match self.get(x as usize, y as usize) {
                            Some(cell) => d[step] < cell.depth,
                            None => false,
                        }
                    } else {
                        false
                    },
                };
                if visible {
                    if mode == BlendMode::Opaque {
                        self.set_pixel(x as usize, y as usize, color);
                    } else {
                        self.set_pixel_blended(x as usize, y as usize, color, mode);
                    }
                }
            }
            proof {
                lemma_trace_one(
                    before,
                    now,
                    self@,
                    line,
                    step as int,
                    x as int,
                    y as int,
                    color,
                    mode,
                    zs,
                );
            }
            if x == x1 && y == y1 {
                break ;
            }
            proof {
                lemma_step(dx as int, dy as int, a, b, b * dx - a * dy);
            }
            let twice: i64 = 2 * err;
            if twice >= -dy {
                err = err - dy;
                if x0 < x1 {
                    x = x + 1;
                } else {
                    x = x - 1;
                }
                proof {
                    a = a + 1;
                }
            }
            if twice <= dx {
                err = err + dx;
                if y0 < y1 {
                    y = y + 1;
                } else {
                    y = y - 1;
                }
                proof {
                    b = b + 1;
                }
            }
            step = step + 1;
        }
    }
}

} // verus!
