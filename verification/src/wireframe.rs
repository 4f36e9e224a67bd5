//! The wireframe pass: the edges of back faces, drawn over the finished
//! solid pass.

use vstd::prelude::*;
use crate::color::Color;
use crate::framebuffer::Framebuffer;
use crate::line::Line;
use crate::mesh::{back_edges, lemma_unique, unique, wire_edges, Edge, ProjectedFace};
use crate::shapes::painted;

verus! {

/// The colour of wireframe edges.
pub open spec fn wire_color() -> Color {
    Color::new(80, 80, 100)
}

impl Edge {
    /// The edge as a line on the pixel grid.
    pub open spec fn line(self) -> Line {
        Line { x0: self.x0 as int, y0: self.y0 as int, x1: self.x1 as int, y1: self.y1 as int }
    }
}

/// Whether `(x, y)` is a pixel of one of the edges.
pub open spec fn on_some_edge(edges: Seq<Edge>, x: int, y: int) -> bool {
    exists|i: int| 0 <= i < edges.len() && (#[trigger] edges[i]).line().on(x, y)
}

/// Draws each edge as a plain line in the wireframe colour. The lines are
/// not depth-tested and write no depth: the wireframe shows through
/// whatever was drawn before it.
pub fn draw_wireframe(fb: &mut Framebuffer, edges: &[Edge])
    ensures
        painted(old(fb)@, final(fb)@, |x: int, y: int| on_some_edge(edges@, x, y), wire_color()),
{
    let ghost before = fb@;
    let color = Color::new(80, 80, 100);
    let mut i: usize = 0;
    proof {
        fb.lemma_view();
    }
    while i < edges.len()
        invariant
            before.wf(),
            i <= edges@.len(),
            color == wire_color(),
            painted(
                before,
                fb@,
                |x: int, y: int| on_some_edge(edges@.take(i as int), x, y),
                color,
            ),
        decreases edges@.len() - i,
    {
        let ghost now = fb@;
        let e: Edge = edges[i];
        fb.draw_line(e.x0, e.y0, e.x1, e.y1, color);
        proof {
            let shorter = edges@.take(i as int);
            let longer = edges@.take(i + 1);
            assert forall|x: int, y: int| before.contains(x, y) implies #[trigger] fb@.at(x, y) == (
            if on_some_edge(longer, x, y) {
                before.at(x, y).with_color(color)
            } else {
                before.at(x, y)
            }) by {
                assert(now.contains(x, y));
                assert(longer[i as int] == e);
                if on_some_edge(shorter, x, y) {
                    let k = choose|k: int| 0 <= k < shorter.len() && (#[trigger] shorter[k]).line().on(x, y);
                    assert(longer[k] == shorter[k]);
                }
                if on_some_edge(longer, x, y) && !e.line().on(x, y) {
                    let k = choose|k: int| 0 <= k < longer.len() && (#[trigger] longer[k]).line().on(x, y);
                    assert(shorter[k] == longer[k]);
                }
            }
        }
        i = i + 1;
    }
    proof {
        assert(edges@.take(edges@.len() as int) =~= edges@);
    }
}

/// Every edge of a back face in view is among the back edges of the mesh.
proof fn lemma_back_edge_listed(faces: Seq<ProjectedFace>, i: int, e: Edge)
    requires
        0 <= i < faces.len(),
        faces[i].is_back(),
        faces[i].edges().contains(e),
    ensures
        back_edges(faces).contains(e),
    decreases faces.len(),
{
    let rest = faces.drop_last();
    if i == faces.len() - 1 {
        let own = faces.last().edges();
        let k = choose|k: int| 0 <= k < own.len() && own[k] == e;
        assert(back_edges(faces)[back_edges(rest).len() + k] == e);
    } else {
        assert(rest[i] == faces[i]);
        lemma_back_edge_listed(rest, i, e);
        let k = choose|k: int| 0 <= k < back_edges(rest).len() && back_edges(rest)[k] == e;
        assert(back_edges(faces)[k] == e);
    }
}

/// Back faces are always in the wireframe: every edge of a back face that
/// clears the near plane is drawn, once, whether or not back faces are shown
/// solid as well, and every pixel of it that the picture has ends up in
/// the wireframe colour.
pub proof fn lemma_back_face_is_wired(
    faces: Seq<ProjectedFace>,
    i: int,
    e: Edge,
    x: int,
    y: int,
)
    requires
        0 <= i < faces.len(),
        faces[i].is_back(),
        faces[i].edges().contains(e),
    ensures
        wire_edges(faces).contains(e),
        wire_edges(faces).to_multiset().count(e) == 1,
        e.line().on(x, y) ==> on_some_edge(wire_edges(faces), x, y),
{
    lemma_back_edge_listed(faces, i, e);
    lemma_unique(back_edges(faces));
    let drawn = unique(back_edges(faces));
    assert(drawn.contains(e));
    vstd::seq_lib::to_multiset_contains(drawn, e);
    drawn.lemma_multiset_has_no_duplicates();
    if e.line().on(x, y) {
        let k = choose|k: int| 0 <= k < drawn.len() && drawn[k] == e;
        assert(drawn[k].line().on(x, y));
    }
}

/// An edge that two back faces share is drawn once. Edges are compared
/// with their ends in order, so it does not matter in which direction
/// either face runs along it.
pub proof fn lemma_shared_edge_drawn_once(faces: Seq<ProjectedFace>, i: int, j: int, e: Edge)
    requires
        0 <= i < faces.len(),
        0 <= j < faces.len(),
        i != j,
        faces[i].is_back(),
        faces[j].is_back(),
        faces[i].edges().contains(e),
        faces[j].edges().contains(e),
    ensures
        wire_edges(faces).to_multiset().count(e) == 1,
        wire_edges(faces).no_duplicates(),
{
    lemma_back_edge_listed(faces, i, e);
    lemma_unique(back_edges(faces));
    let drawn = unique(back_edges(faces));
    assert(drawn.contains(e));
    vstd::seq_lib::to_multiset_contains(drawn, e);
    drawn.lemma_multiset_has_no_duplicates();
}

} // verus!
