//! The last steps of rasterization: dithering and the depth-tested write.
//!
//! A fragment is one pixel of one triangle, with the depth and colour that
//! the triangle gives it. A triangle is drawn by writing its fragments one
//! after another, each through the depth test.

use vstd::prelude::*;
use crate::color::{apply_dither, dithered, Color};
use crate::frame::{Cell, Frame};
use crate::framebuffer::Framebuffer;
use crate::mesh::RasterSettings;

verus! {

/// One pixel of a triangle.
#[derive(Debug, Clone, Copy, PartialEq, Eq, Structural)]
pub struct Fragment {
    pub x: usize,
    pub y: usize,
    /// The triangle's depth at the pixel, as an ordinal.
    pub depth: u32,
    /// The triangle's colour at the pixel: textured, tinted and lit.
    pub color: Color,
}

impl Fragment {
    /// The colour that the fragment writes.
    pub open spec fn written_color(self, dithering: bool) -> Color {
        if dithering {
            dithered(self.color, self.x, self.y)
        } else {
            self.color
        }
    }

    /// What the fragment leaves in a pixel that it is written to.
    pub open spec fn cell(self, dithering: bool) -> Cell {
        Cell { color: self.written_color(dithering), depth: self.depth }
    }

    /// Whether the fragment belongs to the pixel `(x, y)`.
    pub open spec fn covers(self, x: int, y: int) -> bool {
        self.x == x && self.y == y
    }
}

/// The frame after one fragment: written where it is strictly nearer than
/// what the pixel holds, dropped otherwise.
pub open spec fn with_fragment(frame: Frame, f: Fragment, dithering: bool) -> Frame {
    frame.put_nearer(f.x as int, f.y as int, f.depth, f.written_color(dithering))
}

/// The frame after a run of fragments, written in order.
pub open spec fn with_fragments(frame: Frame, fragments: Seq<Fragment>, dithering: bool) -> Frame
    decreases fragments.len(),
{
    if fragments.len() == 0 {
        frame
    } else {
        with_fragment(
            with_fragments(frame, fragments.drop_last(), dithering),
            fragments.last(),
            dithering,
        )
    }
}

/// Writes the fragments of a triangle, in order. Each is dithered if the
/// settings say so and then written through the depth test, which alone
/// decides whether it shows; colour and depth are written together or not
/// at all. A fragment off the picture is dropped.
pub fn rasterize_triangle(
    fb: &mut Framebuffer,
    fragments: &[Fragment],
    settings: &RasterSettings,
)
    ensures
        final(fb)@ == with_fragments(old(fb)@, fragments@, settings.dithering),
{
    let ghost before = fb@;
    let mut i: usize = 0;
    proof {
        assert(fragments@.take(0) =~= Seq::<Fragment>::empty());
    }
    while i < fragments.len()
        invariant
            i <= fragments@.len(),
            fb@ == with_fragments(before, fragments@.take(i as int), settings.dithering),
        decreases fragments@.len() - i,
    {
        let f: Fragment = fragments[i];
        let color = if settings.dithering {
            apply_dither(f.color, f.x, f.y)
        } else {
            f.color
        };
        fb.set_pixel_with_depth(f.x, f.y, f.depth, color);
        proof {
            assert(fragments@.take(i + 1).drop_last() =~= fragments@.take(i as int));
        }
        i = i + 1;
    }
    proof {
        assert(fragments@.take(fragments@.len() as int) =~= fragments@);
    }
}

/// Writing fragments keeps a frame's shape.
pub proof fn lemma_fragments_shape(frame: Frame, fragments: Seq<Fragment>, dithering: bool)
    requires
        frame.wf(),
    ensures
        with_fragments(frame, fragments, dithering).wf(),
        with_fragments(frame, fragments, dithering).same_shape(frame),
    decreases fragments.len(),
{
    if fragments.len() > 0 {
        lemma_fragments_shape(frame, fragments.drop_last(), dithering);
        let f = fragments.last();
        with_fragments(frame, fragments.drop_last(), dithering).lemma_put(
            f.x as int,
            f.y as int,
            f.cell(dithering),
        );
    }
}

/// Writing one run of fragments and then another is writing the two as one
/// run.
pub proof fn lemma_fragments_concat(
    frame: Frame,
    first: Seq<Fragment>,
    second: Seq<Fragment>,
    dithering: bool,
)
    ensures
        with_fragments(frame, first + second, dithering) == with_fragments(
            with_fragments(frame, first, dithering),
            second,
            dithering,
        ),
    decreases second.len(),
{
    if second.len() == 0 {
        assert(first + second =~= first);
    } else {
        assert((first + second).drop_last() =~= first + second.drop_last());
        lemma_fragments_concat(frame, first, second.drop_last(), dithering);
    }
}

/// Whether fragment `k` of a run is the nearest thing at its pixel: the
/// pixel is on the picture, the fragment is strictly nearer than what the
/// pixel holds, and strictly nearer than every other fragment of the run
/// at that pixel.
pub open spec fn nearest_at_its_pixel(frame: Frame, fragments: Seq<Fragment>, k: int) -> bool {
    &&& 0 <= k < fragments.len()
    &&& frame.nearer(fragments[k].x as int, fragments[k].y as int, fragments[k].depth)
    &&& forall|j: int|
        0 <= j < fragments.len() && j != k && #[trigger] fragments[j].covers(
            fragments[k].x as int,
            fragments[k].y as int,
        ) ==> fragments[k].depth < fragments[j].depth
}

/// Where the run stands at a pixel while the fragment that is nearest there
/// is still to come, and after it has come.
proof fn lemma_nearest_so_far(
    frame: Frame,
    fragments: Seq<Fragment>,
    k: int,
    dithering: bool,
    n: int,
)
    requires
        frame.wf(),
        nearest_at_its_pixel(frame, fragments, k),
        0 <= n <= fragments.len(),
    ensures
        ({
            let now = with_fragments(frame, fragments.take(n), dithering);
            let x = fragments[k].x as int;
            let y = fragments[k].y as int;
            &&& now.wf()
            &&& now.same_shape(frame)
            &&& n <= k ==> now.at(x, y).depth > fragments[k].depth
            &&& n > k ==> now.at(x, y) == fragments[k].cell(dithering)
        }),
    decreases n,
{
    if n > 0 {
        lemma_nearest_so_far(frame, fragments, k, dithering, n - 1);
        assert(fragments.take(n).drop_last() =~= fragments.take(n - 1));
        let earlier = with_fragments(frame, fragments.take(n - 1), dithering);
        let f = fragments[n - 1];
        assert(fragments.take(n).last() == f);
        earlier.lemma_put(f.x as int, f.y as int, f.cell(dithering));
        let x = fragments[k].x as int;
        let y = fragments[k].y as int;
        assert(earlier.contains(x, y));
        if n - 1 != k && f.covers(x, y) {
            assert(fragments[k].depth < f.depth);
        }
    } else {
        assert(fragments.take(0) =~= Seq::<Fragment>::empty());
    }
}

/// The nearest fragment wins, wherever in the run it stands: a fragment
/// that is the nearest thing at its pixel is what the pixel holds when the
/// whole run has been written, colour and depth both.
pub proof fn lemma_nearest_wins(frame: Frame, fragments: Seq<Fragment>, k: int, dithering: bool)
    requires
        frame.wf(),
        nearest_at_its_pixel(frame, fragments, k),
    ensures
        with_fragments(frame, fragments, dithering).at(
            fragments[k].x as int,
            fragments[k].y as int,
        ) == fragments[k].cell(dithering),
{
    lemma_nearest_so_far(frame, fragments, k, dithering, fragments.len() as int);
    assert(fragments.take(fragments.len() as int) =~= fragments);
}

/// With the depth test, the order in which two triangles are drawn does not
/// show where the nearer one is strictly nearer: if fragment `i` of
/// triangle `a` is the nearest thing at its pixel among all fragments of
/// `a` and `b`, the pixel holds it whether `a` is drawn before `b` or after.
pub proof fn lemma_depth_order_independent(
    frame: Frame,
    a: Seq<Fragment>,
    b: Seq<Fragment>,
    i: int,
    dithering: bool,
)
    requires
        frame.wf(),
        nearest_at_its_pixel(frame, a + b, i),
        0 <= i < a.len(),
    ensures
        with_fragments(with_fragments(frame, a, dithering), b, dithering).at(
            a[i].x as int,
            a[i].y as int,
        ) == a[i].cell(dithering),
        with_fragments(with_fragments(frame, b, dithering), a, dithering).at(
            a[i].x as int,
            a[i].y as int,
        ) == a[i].cell(dithering),
{
    lemma_fragments_concat(frame, a, b, dithering);
    lemma_fragments_concat(frame, b, a, dithering);
    lemma_nearest_wins(frame, a + b, i, dithering);
    let ab = a + b;
    let ba = b + a;
    let k = b.len() + i;
    assert(ba[k] == a[i]);
    assert forall|j: int|
        0 <= j < ba.len() && j != k && #[trigger] ba[j].covers(
            ba[k].x as int,
            ba[k].y as int,
        ) implies ba[k].depth < ba[j].depth by {
        if j < b.len() {
            assert(ab[a.len() + j] == ba[j]);
            assert(ab[a.len() + j].covers(ab[i].x as int, ab[i].y as int));
        } else {
            assert(ab[j - b.len()] == ba[j]);
            assert(ab[j - b.len()].covers(ab[i].x as int, ab[i].y as int));
        }
    }
    lemma_nearest_wins(frame, ba, k, dithering);
}

/// Without a depth test to order them, surfaces are drawn farthest first,
/// and what is drawn last shows: if no fragment after fragment `k` belongs
/// to its pixel, and `k` is strictly nearer there than everything drawn
/// before it, the pixel holds fragment `k`.
pub proof fn lemma_painter_last_wins(
    frame: Frame,
    fragments: Seq<Fragment>,
    k: int,
    dithering: bool,
)
    requires
        frame.wf(),
        0 <= k < fragments.len(),
        frame.nearer(fragments[k].x as int, fragments[k].y as int, fragments[k].depth),
        forall|j: int|
            0 <= j < k && #[trigger] fragments[j].covers(
                fragments[k].x as int,
                fragments[k].y as int,
            ) ==> fragments[k].depth < fragments[j].depth,
        forall|j: int|
            k < j < fragments.len() ==> !#[trigger] fragments[j].covers(
                fragments[k].x as int,
                fragments[k].y as int,
            ),
    ensures
        with_fragments(frame, fragments, dithering).at(
            fragments[k].x as int,
            fragments[k].y as int,
        ) == fragments[k].cell(dithering),
{
    lemma_nearest_wins(frame, fragments, k, dithering);
}

/// Colour and depth stay together, and depth only comes nearer: after a
/// run of fragments a pixel holds either what it held before or, whole, the
/// colour and depth of one fragment of the run that lies there and is
/// strictly nearer than what it held before.
pub proof fn lemma_cells_come_whole(
    frame: Frame,
    fragments: Seq<Fragment>,
    x: int,
    y: int,
    dithering: bool,
)
    requires
        frame.wf(),
        frame.contains(x, y),
    ensures
        ({
            let after = with_fragments(frame, fragments, dithering).at(x, y);
            after == frame.at(x, y) || exists|k: int|
                0 <= k < fragments.len() && (#[trigger] fragments[k]).covers(x, y) && after
                    == fragments[k].cell(dithering) && fragments[k].depth < frame.at(x, y).depth
        }),
        with_fragments(frame, fragments, dithering).at(x, y).depth <= frame.at(x, y).depth,
    decreases fragments.len(),
{
    if fragments.len() > 0 {
        let rest = fragments.drop_last();
        let f = fragments.last();
        lemma_cells_come_whole(frame, rest, x, y, dithering);
        lemma_fragments_shape(frame, rest, dithering);
        let earlier = with_fragments(frame, rest, dithering);
        let after = with_fragments(frame, fragments, dithering).at(x, y);
        earlier.lemma_put(f.x as int, f.y as int, f.cell(dithering));
        assert(earlier.contains(x, y));
        if after == earlier.at(x, y) {
            if after != frame.at(x, y) {
                let k = choose|k: int|
                    0 <= k < rest.len() && (#[trigger] rest[k]).covers(x, y) && after == rest[k].cell(
                        dithering,
                    ) && rest[k].depth < frame.at(x, y).depth;
                assert(fragments[k] == rest[k]);
            }
        } else {
            assert(fragments[fragments.len() - 1] == f);
            assert(f.covers(x, y));
        }
    }
}

/// Whether no two fragments of a run lie at one pixel at one depth.
pub open spec fn depths_differ(fragments: Seq<Fragment>) -> bool {
    forall|i: int, j: int|
        0 <= i < fragments.len() && 0 <= j < fragments.len() && i != j && #[trigger] fragments[i].covers(
            fragments[j].x as int,
            fragments[j].y as int,
        ) ==> fragments[i].depth != #[trigger] fragments[j].depth
}

/// The place of the nearest of the first `n` fragments at `(x, y)`, the
/// earlier of two that are equally near; -1 if none of them lies there.
pub open spec fn nearest_index(fragments: Seq<Fragment>, x: int, y: int, n: int) -> int
    decreases n,
{
    if n <= 0 {
        -1
    } else {
        let before = nearest_index(fragments, x, y, n - 1);
        if fragments[n - 1].covers(x, y) && (before == -1 || fragments[n - 1].depth
            < fragments[before].depth) {
            n - 1
        } else {
            before
        }
    }
}

/// What `nearest_index` finds: nothing exactly when no fragment lies at the
/// pixel, and else a fragment there than which none there is nearer.
proof fn lemma_nearest_index(fragments: Seq<Fragment>, x: int, y: int, n: int)
    requires
        0 <= n <= fragments.len(),
    ensures
        ({
            let k = nearest_index(fragments, x, y, n);
            &&& -1 <= k < n
            &&& k == -1 ==> forall|j: int| 0 <= j < n ==> !(#[trigger] fragments[j]).covers(x, y)
            &&& k >= 0 ==> fragments[k].covers(x, y) && forall|j: int|
                0 <= j < n && (#[trigger] fragments[j]).covers(x, y) ==> fragments[k].depth
                    <= fragments[j].depth
        }),
    decreases n,
{
    if n > 0 {
        lemma_nearest_index(fragments, x, y, n - 1);
    }
}

/// A pixel at which no fragment of a run is strictly nearer than what it
/// holds is left as it is.
pub proof fn lemma_nothing_nearer(
    frame: Frame,
    fragments: Seq<Fragment>,
    x: int,
    y: int,
    dithering: bool,
)
    requires
        frame.wf(),
        frame.contains(x, y),
        forall|j: int|
            0 <= j < fragments.len() && (#[trigger] fragments[j]).covers(x, y) ==> fragments[j].depth
                >= frame.at(x, y).depth,
    ensures
        with_fragments(frame, fragments, dithering).at(x, y) == frame.at(x, y),
    decreases fragments.len(),
{
    if fragments.len() > 0 {
        let rest = fragments.drop_last();
        let f = fragments.last();
        assert forall|j: int| 0 <= j < rest.len() && (#[trigger] rest[j]).covers(x, y) implies rest[j].depth
            >= frame.at(x, y).depth by {
            assert(rest[j] == fragments[j]);
        }
        lemma_nothing_nearer(frame, rest, x, y, dithering);
        lemma_fragments_shape(frame, rest, dithering);
        let earlier = with_fragments(frame, rest, dithering);
        earlier.lemma_put(f.x as int, f.y as int, f.cell(dithering));
        assert(earlier.contains(x, y));
        assert(f == fragments[fragments.len() - 1]);
    }
}

/// Runs that hold the same fragments hold the same values.
proof fn lemma_same_members(p: Seq<Fragment>, q: Seq<Fragment>, i: int) -> (j: int)
    requires
        p.to_multiset() == q.to_multiset(),
        0 <= i < p.len(),
    ensures
        0 <= j < q.len(),
        q[j] == p[i],
{
    vstd::seq_lib::to_multiset_contains(p, p[i]);
    vstd::seq_lib::to_multiset_contains(q, p[i]);
    assert(p.contains(p[i]));
    choose|j: int| 0 <= j < q.len() && q[j] == p[i]
}

/// With the depth test, the order in which fragments are written does not
/// show: two runs that hold the same fragments, in any order, leave the
/// same frame, colours and depths, provided that no two fragments lie at
/// one pixel at one depth.
pub proof fn lemma_order_independent(
    frame: Frame,
    p: Seq<Fragment>,
    q: Seq<Fragment>,
    dithering: bool,
)
    requires
        frame.wf(),
        p.to_multiset() == q.to_multiset(),
        depths_differ(p),
        depths_differ(q),
    ensures
        with_fragments(frame, p, dithering) == with_fragments(frame, q, dithering),
{
    let left = with_fragments(frame, p, dithering);
    let right = with_fragments(frame, q, dithering);
    lemma_fragments_shape(frame, p, dithering);
    lemma_fragments_shape(frame, q, dithering);
    assert forall|x: int, y: int| left.contains(x, y) implies left.at(x, y) == right.at(x, y) by {
        lemma_nearest_index(p, x, y, p.len() as int);
        let k = nearest_index(p, x, y, p.len() as int);
        if k >= 0 && p[k].depth < frame.at(x, y).depth {
            let m = lemma_same_members(p, q, k);
            assert forall|j: int|
                0 <= j < p.len() && j != k && #[trigger] p[j].covers(
                    p[k].x as int,
                    p[k].y as int,
                ) implies p[k].depth < p[j].depth by {
                assert(p[j].covers(x, y));
            }
            assert forall|j: int|
                0 <= j < q.len() && j != m && #[trigger] q[j].covers(
                    q[m].x as int,
                    q[m].y as int,
                ) implies q[m].depth < q[j].depth by {
                let i = lemma_same_members(q, p, j);
                assert(p[i].covers(x, y));
            }
            lemma_nearest_wins(frame, p, k, dithering);
            lemma_nearest_wins(frame, q, m, dithering);
        } else {
            assert forall|j: int| 0 <= j < q.len() && (#[trigger] q[j]).covers(x, y) implies q[j].depth
                >= frame.at(x, y).depth by {
                let i = lemma_same_members(q, p, j);
                assert(p[i].covers(x, y));
            }
            lemma_nothing_nearer(frame, p, x, y, dithering);
            lemma_nothing_nearer(frame, q, x, y, dithering);
        }
    }
    left.lemma_equal(right);
}

} // verus!
