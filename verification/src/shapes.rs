//! Rectangles, discs and thick lines.

use vstd::prelude::*;
use crate::color::Color;
use crate::frame::Frame;
use crate::framebuffer::Framebuffer;
use crate::line::Line;

verus! {

/// `after` is `before` with a region given one colour: every pixel of the
/// region that the picture has holds `color`, no other pixel has changed,
/// and no depth has.
pub open spec fn painted(
    before: Frame,
    after: Frame,
    region: spec_fn(int, int) -> bool,
    color: Color,
) -> bool {
    &&& after.wf()
    &&& after.same_shape(before)
    &&& forall|x: int, y: int|
        before.contains(x, y) ==> #[trigger] after.at(x, y) == (if region(x, y) {
            before.at(x, y).with_color(color)
        } else {
            before.at(x, y)
        })
}

/// Whether `p` lies between `a` and `b`, whichever of the two is smaller.
pub open spec fn between(a: int, b: int, p: int) -> bool {
    (a <= p <= b) || (b <= p <= a)
}

/// The rectangle with corners `(x0, y0)` and `(x1, y1)`, edges included.
pub open spec fn in_rect(x0: int, y0: int, x1: int, y1: int, x: int, y: int) -> bool {
    between(x0, x1, x) && between(y0, y1, y)
}

/// The outline of that rectangle, one pixel wide.
pub open spec fn on_rect_edge(x0: int, y0: int, x1: int, y1: int, x: int, y: int) -> bool {
    in_rect(x0, y0, x1, y1, x, y) && (x == x0 || x == x1 || y == y0 || y == y1)
}

/// The disc round `(cx, cy)`: the pixels no further from it than `radius`.
/// With a negative radius it is empty.
pub open spec fn in_disc(cx: int, cy: int, radius: int, x: int, y: int) -> bool {
    radius >= 0 && (x - cx) * (x - cx) + (y - cy) * (y - cy) <= radius * radius
}

/// The band of the given thickness round the line from `(x0, y0)` to
/// `(x1, y1)`: the pixels whose centres lie in the rectangle that has the
/// line as its middle and reaches half the thickness to either side, edges
/// included. Up to thickness 1 it is the plain line, and round a line of no
/// length it is empty.
///
/// A pixel's centre is half a pixel right of and below its corner, so all
/// lengths are doubled to stay whole: `along` is twice the way the centre
/// lies along the line, times the line's length, and `across` twice the way
/// it lies to the side, times the same.
pub open spec fn in_thick_line(
    x0: int,
    y0: int,
    x1: int,
    y1: int,
    thickness: int,
    x: int,
    y: int,
) -> bool {
    if thickness <= 1 {
        (Line { x0, y0, x1, y1 }).on(x, y)
    } else {
        let ux = x1 - x0;
        let uy = y1 - y0;
        let len2 = ux * ux + uy * uy;
        let px = 2 * (x - x0) + 1;
        let py = 2 * (y - y0) + 1;
        let along = ux * px + uy * py;
        let across = ux * py - uy * px;
        &&& len2 > 0
        &&& 0 <= along <= 2 * len2
        &&& across * across <= len2 * (thickness * thickness)
    }
}

/// A number whose square is no more than that of `bound` lies within
/// `bound` of zero.
proof fn lemma_square_bound(v: int, bound: int)
    by (nonlinear_arith)
    requires
        bound >= 0,
        v * v <= bound * bound,
    ensures
        -bound <= v <= bound,
{
}

/// Along one axis, a point of the band lies within the thickness of the
/// stretch between the line's ends. `u` is the line's extent along that
/// axis and `v` its extent along the other; `p` is twice the way from the
/// start to the point along the axis.
proof fn lemma_thick_reach(u: int, v: int, t: int, p: int, along: int, across: int)
    requires
        t >= 0,
        u * u + v * v > 0,
        0 <= along <= 2 * (u * u + v * v),
        across * across <= (u * u + v * v) * (t * t),
        (u * u + v * v) * p == u * along - v * across || (u * u + v * v) * p == u * along + v
            * across,
    ensures
        (if u < 0 {
            2 * u
        } else {
            0
        }) - t <= p <= (if u < 0 {
            0
        } else {
            2 * u
        }) + t,
{
    let len2 = u * u + v * v;
    let side = v * across;
    assert(side * side <= (len2 * t) * (len2 * t)) by (nonlinear_arith)
        requires
            side == v * across,
            len2 == u * u + v * v,
            across * across <= len2 * (t * t),
    {
        assert(v * v <= len2);
        assert(side * side == (v * v) * (across * across));
        assert((v * v) * (across * across) <= len2 * (across * across));
        assert(len2 * (across * across) <= len2 * (len2 * (t * t)));
    }
    assert(len2 * t >= 0) by (nonlinear_arith)
        requires
            len2 > 0,
            t >= 0,
    ;
    lemma_square_bound(side, len2 * t);
    let lead = u * along;
    assert((if u < 0 {
        2 * u * len2
    } else {
        0
    }) <= lead <= (if u < 0 {
        0
    } else {
        2 * u * len2
    })) by (nonlinear_arith)
        requires
            lead == u * along,
            0 <= along <= 2 * len2,
    ;
    assert((if u < 0 {
        2 * u
    } else {
        0
    }) - t <= p <= (if u < 0 {
        0
    } else {
        2 * u
    }) + t) by (nonlinear_arith)
        requires
            len2 > 0,
            len2 * p == lead - side || len2 * p == lead + side,
            -(len2 * t) <= side <= len2 * t,
            (if u < 0 {
                2 * u * len2
            } else {
                0
            }) <= lead <= (if u < 0 {
                0
            } else {
                2 * u * len2
            }),
    ;
}

/// Every pixel of a disc lies within the radius of its centre along both
/// axes.
proof fn lemma_disc_box(cx: int, cy: int, radius: int, x: int, y: int)
    requires
        in_disc(cx, cy, radius, x, y),
    ensures
        cx - radius <= x <= cx + radius,
        cy - radius <= y <= cy + radius,
{
    let ex = x - cx;
    let ey = y - cy;
    assert(-radius <= ex <= radius && -radius <= ey <= radius) by (nonlinear_arith)
        requires
            radius >= 0,
            ex * ex + ey * ey <= radius * radius,
    ;
}

/// Every pixel of a band lies within the thickness of the box round the
/// line's two ends.
pub proof fn lemma_thick_line_box(
    x0: int,
    y0: int,
    x1: int,
    y1: int,
    thickness: int,
    x: int,
    y: int,
)
    requires
        thickness > 1,
        in_thick_line(x0, y0, x1, y1, thickness, x, y),
    ensures
        x0 - thickness <= x <= x1 + thickness || x1 - thickness <= x <= x0 + thickness,
        y0 - thickness <= y <= y1 + thickness || y1 - thickness <= y <= y0 + thickness,
{
    let ux = x1 - x0;
    let uy = y1 - y0;
    let len2 = ux * ux + uy * uy;
    let px = 2 * (x - x0) + 1;
    let py = 2 * (y - y0) + 1;
    let along = ux * px + uy * py;
    let across = ux * py - uy * px;
    assert(len2 * px == ux * along - uy * across) by (nonlinear_arith)
        requires
            len2 == ux * ux + uy * uy,
            along == ux * px + uy * py,
            across == ux * py - uy * px,
    ;
    assert(len2 * py == uy * along + ux * across) by (nonlinear_arith)
        requires
            len2 == ux * ux + uy * uy,
            along == ux * px + uy * py,
            across == ux * py - uy * px,
    ;
    lemma_thick_reach(ux, uy, thickness, px, along, across);
    assert(uy * uy + ux * ux == len2);
    lemma_thick_reach(uy, ux, thickness, py, along, across);
}

/// A band is the same band from either end of its line.
pub proof fn lemma_thick_line_either_way(
    x0: int,
    y0: int,
    x1: int,
    y1: int,
    thickness: int,
    x: int,
    y: int,
)
    requires
        thickness > 1,
    ensures
        in_thick_line(x0, y0, x1, y1, thickness, x, y) == in_thick_line(
            x1,
            y1,
            x0,
            y0,
            thickness,
            x,
            y,
        ),
{
    let ux = x1 - x0;
    let uy = y1 - y0;
    let len2 = ux * ux + uy * uy;
    let px = 2 * (x - x0) + 1;
    let py = 2 * (y - y0) + 1;
    let along = ux * px + uy * py;
    let across = ux * py - uy * px;
    let qx = 2 * (x - x1) + 1;
    let qy = 2 * (y - y1) + 1;
    let back_along = (-ux) * qx + (-uy) * qy;
    let back_across = (-ux) * qy - (-uy) * qx;
    assert((-ux) * (-ux) + (-uy) * (-uy) == len2) by (nonlinear_arith)
        requires
            len2 == ux * ux + uy * uy,
    ;
    assert(back_along == 2 * len2 - along && back_across == -across) by (nonlinear_arith)
        requires
            len2 == ux * ux + uy * uy,
            along == ux * px + uy * py,
            across == ux * py - uy * px,
            qx == px - 2 * ux,
            qy == py - 2 * uy,
            back_along == (-ux) * qx + (-uy) * qy,
            back_across == (-ux) * qy - (-uy) * qx,
    ;
    assert(back_across * back_across == across * across) by (nonlinear_arith)
        requires
            back_across == -across,
    ;
    assert(x0 - x1 == -ux && y0 - y1 == -uy);
}

/// A shape to fill.
#[derive(Clone, Copy)]
enum Region {
    /// The rectangle with the given corners.
    Rect { x0: i32, y0: i32, x1: i32, y1: i32 },
    /// The disc of the given radius round `(cx, cy)`.
    Disc { cx: i32, cy: i32, radius: i32 },
    /// The band of the given thickness, more than 1, round a line.
    Band { x0: i32, y0: i32, x1: i32, y1: i32, thickness: i32 },
}

/// A box on the unclipped grid: columns `left..=right`, rows `top..=bottom`.
struct Extent {
    left: i64,
    right: i64,
    top: i64,
    bottom: i64,
}

impl Extent {
    spec fn contains(self, x: int, y: int) -> bool {
        self.left <= x <= self.right && self.top <= y <= self.bottom
    }

    /// No side lies further out than a coordinate, a radius and a thickness
    /// can add up to.
    spec fn in_reach(self) -> bool {
        &&& -0x1_0000_0000 <= self.left
        &&& self.right <= 0x1_0000_0000
        &&& -0x1_0000_0000 <= self.top
        &&& self.bottom <= 0x1_0000_0000
    }
}

impl Region {
    spec fn wf(self) -> bool {
        match self {
            Region::Band { thickness, .. } => thickness > 1,
            _ => true,
        }
    }

    /// Whether `(x, y)` is a pixel of the shape.
    spec fn holds(self, x: int, y: int) -> bool {
        match self {
            Region::Rect { x0, y0, x1, y1 } => in_rect(x0 as int, y0 as int, x1 as int, y1 as int, x, y),
            Region::Disc { cx, cy, radius } => in_disc(cx as int, cy as int, radius as int, x, y),
            Region::Band { x0, y0, x1, y1, thickness } => in_thick_line(
                x0 as int,
                y0 as int,
                x1 as int,
                y1 as int,
                thickness as int,
                x,
                y,
            ),
        }
    }

    /// A box outside of which the shape has no pixel.
    fn extent(self) -> (e: Extent)
        requires
            self.wf(),
        ensures
            e.in_reach(),
            forall|x: int, y: int| self.holds(x, y) ==> e.contains(x, y),
    {
        match self {
            Region::Rect { x0, y0, x1, y1 } => {
                let (left, right) = ordered(x0, x1);
                let (top, bottom) = ordered(y0, y1);
                Extent { left: left as i64, right: right as i64, top: top as i64, bottom: bottom as i64 }
            },
            Region::Disc { cx, cy, radius } => {
                proof {
                    assert forall|x: int, y: int| self.holds(x, y) implies cx - radius <= x <= cx
                        + radius && cy - radius <= y <= cy + radius by {
                        lemma_disc_box(cx as int, cy as int, radius as int, x, y);
                    }
                }
                Extent {
                    left: cx as i64 - radius as i64,
                    right: cx as i64 + radius as i64,
                    top: cy as i64 - radius as i64,
                    bottom: cy as i64 + radius as i64,
                }
            },
            Region::Band { x0, y0, x1, y1, thickness } => {
                let (left, right) = ordered(x0, x1);
                let (top, bottom) = ordered(y0, y1);
                proof {
                    assert forall|x: int, y: int| self.holds(x, y) implies left - thickness <= x
                        <= right + thickness && top - thickness <= y <= bottom + thickness by {
                        lemma_thick_line_box(
                            x0 as int,
                            y0 as int,
                            x1 as int,
                            y1 as int,
                            thickness as int,
                            x,
                            y,
                        );
                    }
                }
                Extent {
                    left: left as i64 - thickness as i64,
                    right: right as i64 + thickness as i64,
                    top: top as i64 - thickness as i64,
                    bottom: bottom as i64 + thickness as i64,
                }
            },
        }
    }

    /// Whether a pixel of the picture, within reach of the shape, is a
    /// pixel of the shape.
    fn covers(self, x: usize, y: usize) -> (inside: bool)
        requires
            self.wf(),
            x <= 0x1_0000_0000,
            y <= 0x1_0000_0000,
        ensures
            inside == self.holds(x as int, y as int),
    {
        match self {
            Region::Rect { x0, y0, x1, y1 } => {
                let (left, right) = ordered(x0, x1);
                let (top, bottom) = ordered(y0, y1);
                left as i64 <= x as i64 && x as i64 <= right as i64 && top as i64 <= y as i64
                    && y as i64 <= bottom as i64
            },
            Region::Disc { cx, cy, radius } => {
                if radius < 0 {
                    return false;
                }
                let ex: i128 = x as i128 - cx as i128;
                let ey: i128 = y as i128 - cy as i128;
                let r: i128 = radius as i128;
                assert(0 <= ex * ex <= 0x2_0000_0000 * 0x2_0000_0000 && 0 <= ey * ey
                    <= 0x2_0000_0000 * 0x2_0000_0000 && 0 <= r * r <= 0x8000_0000 * 0x8000_0000)
                    by (nonlinear_arith)
                    requires
                        -0x2_0000_0000 <= ex <= 0x2_0000_0000,
                        -0x2_0000_0000 <= ey <= 0x2_0000_0000,
                        0 <= r <= 0x8000_0000,
                ;
                ex * ex + ey * ey <= r * r
            },
            Region::Band { x0, y0, x1, y1, thickness } => {
                let ux: i128 = x1 as i128 - x0 as i128;
                let uy: i128 = y1 as i128 - y0 as i128;
                let t: i128 = thickness as i128;
                let px: i128 = 2 * (x as i128 - x0 as i128) + 1;
                let py: i128 = 2 * (y as i128 - y0 as i128) + 1;
                assert(0 <= ux * ux <= 0x1_0000_0000 * 0x1_0000_0000 && 0 <= uy * uy
                    <= 0x1_0000_0000 * 0x1_0000_0000 && 0 < t * t < 0x8000_0000 * 0x8000_0000)
                    by (nonlinear_arith)
                    requires
                        -0x1_0000_0000 < ux < 0x1_0000_0000,
                        -0x1_0000_0000 < uy < 0x1_0000_0000,
                        1 < t < 0x8000_0000,
                ;
                let len2: i128 = ux * ux + uy * uy;
                assert(0 <= len2 * (t * t) <= 0x2_0000_0000_0000_0000 * 0x4000_0000_0000_0000)
                    by (nonlinear_arith)
                    requires
                        0 <= len2 <= 0x2_0000_0000_0000_0000,
                        0 < t * t < 0x4000_0000_0000_0000,
                ;
                let limit: u128 = len2 as u128 * (t * t) as u128;
                assert(-0x8_0000_0000_0000_0000 <= ux * px <= 0x8_0000_0000_0000_0000
                    && -0x8_0000_0000_0000_0000 <= uy * py <= 0x8_0000_0000_0000_0000
                    && -0x8_0000_0000_0000_0000 <= ux * py <= 0x8_0000_0000_0000_0000
                    && -0x8_0000_0000_0000_0000 <= uy * px <= 0x8_0000_0000_0000_0000)
                    by (nonlinear_arith)
                    requires
                        -0x1_0000_0000 < ux < 0x1_0000_0000,
                        -0x1_0000_0000 < uy < 0x1_0000_0000,
                        -0x4_0000_0001 <= px <= 0x4_0000_0001,
                        -0x4_0000_0001 <= py <= 0x4_0000_0001,
                ;
                let along: i128 = ux * px + uy * py;
                let across: i128 = ux * py - uy * px;
                if len2 == 0 || along < 0 || along > 2 * len2 {
                    return false;
                }
                if across >= 0x1_0000_0000_0000_0000 || across <= -0x1_0000_0000_0000_0000 {
                    assert(across * across > limit) by (nonlinear_arith)
                        requires
                            across >= 0x1_0000_0000_0000_0000 || across
                                <= -0x1_0000_0000_0000_0000,
                            limit <= 0x2_0000_0000_0000_0000 * 0x4000_0000_0000_0000,
                    ;
                    return false;
                }
                let side: u128 = if across < 0 {
                    (-across) as u128
                } else {
                    across as u128
                };
                assert(side * side == across * across && side * side < 0x1_0000_0000_0000_0000
                    * 0x1_0000_0000_0000_0000) by (nonlinear_arith)
                    requires
                        side == across || side == -across,
                        0 <= side < 0x1_0000_0000_0000_0000,
                ;
                side * side <= limit
            },
        }
    }
}

/// Two coordinates, the smaller first.
fn ordered(a: i32, b: i32) -> (r: (i32, i32))
    ensures
        r.0 <= r.1,
        (r.0 == a && r.1 == b) || (r.0 == b && r.1 == a),
{
    if a < b {
        (a, b)
    } else {
        (b, a)
    }
}

/// The pixels of a run `lo..=hi` that a picture `extent` wide has: none if
/// the run is empty or lies wholly off it, else its ends moved onto the
/// picture.
fn clip_span(lo: i64, hi: i64, extent: usize) -> (r: Option<(usize, usize)>)
    requires
        -0x1_0000_0000 <= lo,
        hi <= 0x1_0000_0000,
    ensures
        match r {
            Some((first, last)) => {
                &&& first <= last < extent
                &&& first == (if lo < 0 {
                    0
                } else {
                    lo as int
                })
                &&& last == (if hi < extent {
                    hi as int
                } else {
                    extent - 1
                })
            },
            None => hi < 0 || lo >= extent || extent == 0 || lo > hi,
        },
{
    if hi < 0 || extent == 0 || lo > hi {
        return None;
    }
    let first: u64 = if lo < 0 {
        0
    } else {
        lo as u64
    };
    if first >= extent as u64 {
        return None;
    }
    let last: u64 = if (hi as u64) < extent as u64 {
        hi as u64
    } else {
        (extent - 1) as u64
    };
    Some((first as usize, last as usize))
}

impl Framebuffer {
    /// Paints the pixels of one row, from `first` to `last`, that belong to
    /// the shape.
    fn fill_row(&mut self, region: Region, y: usize, first: usize, last: usize, color: Color)
        requires
            region.wf(),
            first <= last < old(self)@.width,
            y < old(self)@.height,
            last <= 0x1_0000_0000,
            y <= 0x1_0000_0000,
        ensures
            painted(
                old(self)@,
                final(self)@,
                |i: int, j: int| j == y && first <= i <= last && region.holds(i, j),
                color,
            ),
    {
        let ghost before = self@;
        let mut x: usize = first;
        proof {
            self.lemma_view();
        }
        while x <= last
            invariant
                before.wf(),
                region.wf(),
                first <= x <= last + 1,
                last < before.width <= usize::MAX,
                last <= 0x1_0000_0000,
                y <= 0x1_0000_0000,
                y < before.height,
                painted(
                    before,
                    self@,
                    |i: int, j: int| j == y && first <= i < x && region.holds(i, j),
                    color,
                ),
            decreases last + 1 - x,
        {
            let ghost now = self@;
            if region.covers(x, y) {
                self.set_pixel(x, y, color);
            }
            proof {
                now.lemma_put(x as int, y as int, now.at(x as int, y as int).with_color(color));
                assert forall|i: int, j: int| before.contains(i, j) implies #[trigger] self@.at(
                    i,
                    j,
                ) == (if j == y && first <= i < x + 1 && region.holds(i, j) {
                    before.at(i, j).with_color(color)
                } else {
                    before.at(i, j)
                }) by {
                    assert(now.contains(i, j));
                }
            }
            x = x + 1;
        }
    }

    /// Paints the pixels of the picture that belong to the shape. Only the
    /// box round the shape is gone through.
    fn fill(&mut self, region: Region, color: Color)
        requires
            region.wf(),
        ensures
            painted(old(self)@, final(self)@, |x: int, y: int| region.holds(x, y), color),
    {
        let ghost before = self@;
        proof {
            self.lemma_view();
        }
        let extent = region.extent();
        let columns = clip_span(extent.left, extent.right, self.width());
        let rows = clip_span(extent.top, extent.bottom, self.height());
        match (columns, rows) {
            (Some((first, last)), Some((top, bottom))) => {
                let mut y: usize = top;
                while y <= bottom
                    invariant
                        before.wf(),
                        region.wf(),
                        top <= y <= bottom + 1,
                        first <= last < before.width,
                        bottom < before.height <= usize::MAX,
                        last <= 0x1_0000_0000,
                        bottom <= 0x1_0000_0000,
                        painted(
                            before,
                            self@,
                            |i: int, j: int| top <= j < y && first <= i <= last && region.holds(i, j),
                            color,
                        ),
                    decreases bottom + 1 - y,
                {
                    let ghost now = self@;
                    self.fill_row(region, y, first, last, color);
                    assert forall|i: int, j: int| before.contains(i, j) implies #[trigger] self@.at(
                        i,
                        j,
                    ) == (if top <= j < y + 1 && first <= i <= last && region.holds(i, j) {
                        before.at(i, j).with_color(color)
                    } else {
                        before.at(i, j)
                    }) by {
                        assert(now.contains(i, j));
                        assert(self@.at(i, j) == (if j == y && first <= i <= last && region.holds(
                            i,
                            j,
                        ) {
                            now.at(i, j).with_color(color)
                        } else {
                            now.at(i, j)
                        }));
                    }
                    y = y + 1;
                }
            },
            _ => {},
        }
    }

    /// Fills the rectangle with corners `(x0, y0)` and `(x1, y1)`, edges
    /// included, as far as it lies on the picture.
    pub fn draw_filled_rect(&mut self, x0: i32, y0: i32, x1: i32, y1: i32, color: Color)
        ensures
            painted(
                old(self)@,
                final(self)@,
                |x: int, y: int| in_rect(x0 as int, y0 as int, x1 as int, y1 as int, x, y),
                color,
            ),
    {
        self.fill(Region::Rect { x0, y0, x1, y1 }, color);
    }

    /// Fills the disc of the given radius round `(cx, cy)`, as far as it
    /// lies on the picture.
    pub fn draw_circle(&mut self, cx: i32, cy: i32, radius: i32, color: Color)
        ensures
            painted(
                old(self)@,
                final(self)@,
                |x: int, y: int| in_disc(cx as int, cy as int, radius as int, x, y),
                color,
            ),
    {
        self.fill(Region::Disc { cx, cy, radius }, color);
    }

    /// Draws the outline of the rectangle with corners `(x0, y0)` and
    /// `(x1, y1)`, one pixel wide, as far as it lies on the picture.
    pub fn draw_rect(&mut self, x0: i32, y0: i32, x1: i32, y1: i32, color: Color)
        ensures
            painted(
                old(self)@,
                final(self)@,
                |x: int, y: int| on_rect_edge(x0 as int, y0 as int, x1 as int, y1 as int, x, y),
                color,
            ),
    {
        let ghost before = self@;
        proof {
            self.lemma_view();
        }
        let (min_x, max_x) = if x0 < x1 {
            (x0, x1)
        } else {
            (x1, x0)
        };
        let (min_y, max_y) = if y0 < y1 {
            (y0, y1)
        } else {
            (y1, y0)
        };
        let ghost top = Line {
            x0: min_x as int,
            y0: min_y as int,
            x1: max_x as int,
            y1: min_y as int,
        };
        let ghost right = Line {
            x0: max_x as int,
            y0: min_y as int,
            x1: max_x as int,
            y1: max_y as int,
        };
        let ghost bottom = Line {
            x0: max_x as int,
            y0: max_y as int,
            x1: min_x as int,
            y1: max_y as int,
        };
        let ghost left = Line {
            x0: min_x as int,
            y0: max_y as int,
            x1: min_x as int,
            y1: min_y as int,
        };
        self.draw_line(min_x, min_y, max_x, min_y, color);
        let ghost one = self@;
        self.draw_line(max_x, min_y, max_x, max_y, color);
        let ghost two = self@;
        self.draw_line(max_x, max_y, min_x, max_y, color);
        let ghost three = self@;
        self.draw_line(min_x, max_y, min_x, min_y, color);
        assert forall|x: int, y: int| before.contains(x, y) implies #[trigger] self@.at(x, y) == (
        if on_rect_edge(x0 as int, y0 as int, x1 as int, y1 as int, x, y) {
            before.at(x, y).with_color(color)
        } else {
            before.at(x, y)
        }) by {
            top.lemma_level(x, y);
            right.lemma_upright(x, y);
            bottom.lemma_level(x, y);
            left.lemma_upright(x, y);
            assert(one.contains(x, y) && two.contains(x, y) && three.contains(x, y));
            assert(one.at(x, y) == (if top.on(x, y) {
                before.at(x, y).with_color(color)
            } else {
                before.at(x, y)
            }));
            assert(two.at(x, y) == (if right.on(x, y) {
                one.at(x, y).with_color(color)
            } else {
                one.at(x, y)
            }));
            assert(three.at(x, y) == (if bottom.on(x, y) {
                two.at(x, y).with_color(color)
            } else {
                two.at(x, y)
            }));
        }
    }

    /// Draws a line of the given thickness from `(x0, y0)` to `(x1, y1)`:
    /// the plain line up to thickness 1, else every pixel whose centre lies
    /// in the rectangle round it. A thick line of no length draws nothing.
    pub fn draw_thick_line(
        &mut self,
        x0: i32,
        y0: i32,
        x1: i32,
        y1: i32,
        thickness: i32,
        color: Color,
    )
        ensures
            painted(
                old(self)@,
                final(self)@,
                |x: int, y: int|
                    in_thick_line(
                        x0 as int,
                        y0 as int,
                        x1 as int,
                        y1 as int,
                        thickness as int,
                        x,
                        y,
                    ),
                color,
            ),
    {
        if thickness <= 1 {
            self.draw_line(x0, y0, x1, y1, color);
        } else {
            self.fill(Region::Band { x0, y0, x1, y1, thickness }, color);
        }
    }
}

} // verus!
