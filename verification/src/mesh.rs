//! The geometry stage's decisions: which triangles are drawn, as what, and
//! in which order.
//!
//! The stage is handed each triangle as it stands after projection: where
//! its corners fall on the screen, how deep they lie, and whether it faces
//! away from the viewer. It rejects what reaches the near plane, routes
//! each remaining triangle to the solid pass, the wireframe pass or both,
//! and, where there is no depth test per pixel to rely on, puts the solid
//! surfaces in painter's order.

use vstd::prelude::*;
use crate::depth::NEAR_PLANE;

verus! {

/// How a surface is lit.
#[derive(Debug, Clone, Copy, PartialEq, Eq, Structural)]
pub enum ShadingMode {
    /// No lighting: texture and vertex colours as they are.
    Unlit,
    /// One light value for the whole face.
    Flat,
    /// One light value per vertex, interpolated across the face.
    Gouraud,
}

/// The switches of a render call. Each works on its own.
#[derive(Debug, Clone, Copy, PartialEq, Eq, Structural)]
pub struct RasterSettings {
    /// Interpolate texture coordinates without regard to depth.
    pub affine_textures: bool,
    /// Snap projected vertices to whole pixels.
    pub vertex_snap: bool,
    /// Order by depth per pixel; without it, by painter's order per surface.
    pub use_zbuffer: bool,
    pub shading: ShadingMode,
    /// Leave faces that look away from the viewer out of the solid pass.
    pub backface_cull: bool,
    /// Dither colours down to five bits per channel.
    pub dithering: bool,
}

impl Default for RasterSettings {
    fn default() -> (s: RasterSettings)
        ensures
            s == (RasterSettings {
                affine_textures: true,
                vertex_snap: true,
                use_zbuffer: true,
                shading: ShadingMode::Gouraud,
                backface_cull: true,
                dithering: true,
            }),
    {
        RasterSettings {
            affine_textures: true,
            vertex_snap: true,
            use_zbuffer: true,
            shading: ShadingMode::Gouraud,
            backface_cull: true,
            dithering: true,
        }
    }
}

/// A triangle of a mesh: three places in the vertex array and, if it is
/// textured, one in the texture table.
#[derive(Debug, Clone, Copy, PartialEq, Eq, Structural)]
pub struct Face {
    pub v0: usize,
    pub v1: usize,
    pub v2: usize,
    pub texture_id: Option<usize>,
}

impl Face {
    /// An untextured triangle.
    pub fn new(v0: usize, v1: usize, v2: usize) -> (f: Face)
        ensures
            f == (Face { v0, v1, v2, texture_id: None }),
    {
        Face { v0, v1, v2, texture_id: None }
    }

    pub fn with_texture(v0: usize, v1: usize, v2: usize, texture_id: usize) -> (f: Face)
        ensures
            f == (Face { v0, v1, v2, texture_id: Some(texture_id) }),
    {
        Face { v0, v1, v2, texture_id: Some(texture_id) }
    }

    /// Whether all three corners name a vertex of an array of `count`.
    pub fn in_range(&self, count: usize) -> (ok: bool)
        ensures
            ok == (self.v0 < count && self.v1 < count && self.v2 < count),
    {
        self.v0 < count && self.v1 < count && self.v2 < count
    }
}

/// The faces of the test cube: six sides of four vertices each, in the
/// order front, back, top, bottom, right, left, every side split into two
/// triangles along the diagonal from its first vertex, all with texture 0.
pub fn test_cube_faces() -> (faces: Vec<Face>)
    ensures
        faces@.len() == 12,
        forall|side: int|
            0 <= side < 6 ==> #[trigger] faces@[2 * side] == (Face {
                v0: (4 * side) as usize,
                v1: (4 * side + 1) as usize,
                v2: (4 * side + 2) as usize,
                texture_id: Some(0usize),
            }),
        forall|side: int|
            0 <= side < 6 ==> #[trigger] faces@[2 * side + 1] == (Face {
                v0: (4 * side) as usize,
                v1: (4 * side + 2) as usize,
                v2: (4 * side + 3) as usize,
                texture_id: Some(0usize),
            }),
{
    let mut faces: Vec<Face> = Vec::new();
    let mut side: usize = 0;
    while side < 6
        invariant
            side <= 6,
            faces@.len() == 2 * side,
            forall|k: int|
                0 <= k < side ==> #[trigger] faces@[2 * k] == (Face {
                    v0: (4 * k) as usize,
                    v1: (4 * k + 1) as usize,
                    v2: (4 * k + 2) as usize,
                    texture_id: Some(0usize),
                }),
            forall|k: int|
                0 <= k < side ==> #[trigger] faces@[2 * k + 1] == (Face {
                    v0: (4 * k) as usize,
                    v1: (4 * k + 2) as usize,
                    v2: (4 * k + 3) as usize,
                    texture_id: Some(0usize),
                }),
        decreases 6 - side,
    {
        let base: usize = side * 4;
        faces.push(Face::with_texture(base, base + 1, base + 2, 0));
        faces.push(Face::with_texture(base, base + 2, base + 3, 0));
        side = side + 1;
    }
    faces
}

/// A corner of a triangle after projection.
#[derive(Debug, Clone, Copy, PartialEq, Eq, Structural)]
pub struct ProjectedVertex {
    /// The pixel it falls on.
    pub x: i32,
    pub y: i32,
    /// Its depth on the screen, as an ordinal.
    pub depth: u32,
    /// Its distance in front of the camera before projection, as an ordinal.
    pub camera_depth: u32,
}

/// A triangle after projection, with what the stage needs to route it.
#[derive(Debug, Clone, Copy, PartialEq, Eq, Structural)]
pub struct ProjectedFace {
    /// The face's place in the mesh.
    pub face_idx: usize,
    pub a: ProjectedVertex,
    pub b: ProjectedVertex,
    pub c: ProjectedVertex,
    /// Whether the face looks away from the viewer.
    pub facing_away: bool,
}

/// A triangle of the solid pass.
#[derive(Debug, Clone, Copy, PartialEq, Eq, Structural)]
pub struct Surface {
    /// The face's place in the mesh; its texture is found through it.
    pub face_idx: usize,
    /// Whether it is a back face shown solid, to be lit from its other
    /// side.
    pub flipped: bool,
    /// The depth of its farthest corner.
    pub far_depth: u32,
}

/// An edge of the wireframe pass, between two pixels.
#[derive(Debug, Clone, Copy, PartialEq, Eq, Structural)]
pub struct Edge {
    pub x0: i32,
    pub y0: i32,
    pub x1: i32,
    pub y1: i32,
}

/// What a render call is to draw: the solid surfaces in the order in which
/// they are rasterized, then the wireframe edges over them.
#[derive(Debug)]
pub struct RenderPlan {
    pub solid: Vec<Surface>,
    pub wire: Vec<Edge>,
}

/// A block of pixels: the columns from `x0` up to, and without, `x1`, and
/// the rows from `y0` up to, and without, `y1`.
#[derive(Debug, Clone, Copy, PartialEq, Eq, Structural)]
pub struct PixelBox {
    pub x0: usize,
    pub x1: usize,
    pub y0: usize,
    pub y1: usize,
}

impl PixelBox {
    pub open spec fn contains(self, x: int, y: int) -> bool {
        self.x0 <= x < self.x1 && self.y0 <= y < self.y1
    }
}

/// Where a run of pixels that starts at `first` starts on the picture.
pub open spec fn box_start(first: i32) -> usize {
    if first < 0 {
        0
    } else {
        first as usize
    }
}

/// Where a run of pixels whose last is `last` ends on a picture `extent`
/// wide: one past `last`, but not past the picture's edge.
pub open spec fn box_end(last: i32, extent: usize) -> usize {
    if last < 0 {
        0
    } else if last >= extent {
        extent
    } else {
        (last + 1) as usize
    }
}

fn start_of(first: i32) -> (s: usize)
    ensures
        s == box_start(first),
{
    if first < 0 {
        0
    } else {
        first as usize
    }
}

fn end_of(last: i32, extent: usize) -> (e: usize)
    ensures
        e == box_end(last, extent),
{
    if last < 0 {
        0
    } else if last as usize >= extent {
        extent
    } else {
        last as usize + 1
    }
}

impl PixelBox {
    /// The box of the pixels from column `left` to column `right` and from
    /// row `top` to row `bottom`, all four included, cut down to a picture
    /// of the given size: the box in which a triangle's pixels are looked
    /// for, from the whole pixels in which its outermost corners lie.
    pub fn around(left: i32, right: i32, top: i32, bottom: i32, width: usize, height: usize) -> (b:
        PixelBox)
        ensures
            b == (PixelBox {
                x0: box_start(left),
                x1: box_end(right, width),
                y0: box_start(top),
                y1: box_end(bottom, height),
            }),
            forall|x: int, y: int|
                #[trigger] b.contains(x, y) <==> {
                    &&& 0 <= x < width
                    &&& 0 <= y < height
                    &&& left <= x <= right
                    &&& top <= y <= bottom
                },
    {
        PixelBox {
            x0: start_of(left),
            x1: end_of(right, width),
            y0: start_of(top),
            y1: end_of(bottom, height),
        }
    }
}

/// The larger of two depths.
pub open spec fn farther(a: u32, b: u32) -> u32 {
    if a >= b {
        a
    } else {
        b
    }
}

/// Whether `(xa, ya)` comes before `(xb, yb)` when points are ordered by `x`
/// and, where that is equal, by `y`.
pub open spec fn point_before(xa: i32, ya: i32, xb: i32, yb: i32) -> bool {
    xa < xb || (xa == xb && ya < yb)
}

impl Edge {
    /// The edge with its ends in order, so that an edge and its reverse are
    /// the same edge.
    pub open spec fn normalized(self) -> Edge {
        if point_before(self.x0, self.y0, self.x1, self.y1) {
            self
        } else {
            Edge { x0: self.x1, y0: self.y1, x1: self.x0, y1: self.y0 }
        }
    }

    pub open spec fn reversed(self) -> Edge {
        Edge { x0: self.x1, y0: self.y1, x1: self.x0, y1: self.y0 }
    }

    /// Puts the ends of an edge in order.
    pub fn normalize(self) -> (e: Edge)
        ensures
            e == self.normalized(),
    {
        if self.x0 < self.x1 || (self.x0 == self.x1 && self.y0 < self.y1) {
            self
        } else {
            Edge { x0: self.x1, y0: self.y1, x1: self.x0, y1: self.y0 }
        }
    }

    /// An edge and its reverse normalize to the same edge.
    pub proof fn lemma_direction_forgotten(self)
        ensures
            self.reversed().normalized() == self.normalized(),
            self.normalized().normalized() == self.normalized(),
    {
    }
}

impl ProjectedFace {
    /// Whether a corner lies at or in front of the near plane.
    pub open spec fn near_culled(self) -> bool {
        self.a.camera_depth <= NEAR_PLANE || self.b.camera_depth <= NEAR_PLANE
            || self.c.camera_depth <= NEAR_PLANE
    }

    /// The depth of the farthest corner.
    pub open spec fn far_depth(self) -> u32 {
        farther(farther(self.a.depth, self.b.depth), self.c.depth)
    }

    /// Whether the face is rasterized solid: it clears the near plane, and
    /// it faces the viewer or back faces are not culled.
    pub open spec fn is_solid(self, backface_cull: bool) -> bool {
        !self.near_culled() && (!self.facing_away || !backface_cull)
    }

    /// Whether the face is a back face in view.
    pub open spec fn is_back(self) -> bool {
        !self.near_culled() && self.facing_away
    }

    /// The face as a solid surface. A back face is flipped.
    pub open spec fn surface(self) -> Surface {
        Surface { face_idx: self.face_idx, flipped: self.facing_away, far_depth: self.far_depth() }
    }

    /// The face's three edges, normalized, from `a` round to `a`.
    pub open spec fn edges(self) -> Seq<Edge> {
        seq![
            (Edge { x0: self.a.x, y0: self.a.y, x1: self.b.x, y1: self.b.y }).normalized(),
            (Edge { x0: self.b.x, y0: self.b.y, x1: self.c.x, y1: self.c.y }).normalized(),
            (Edge { x0: self.c.x, y0: self.c.y, x1: self.a.x, y1: self.a.y }).normalized(),
        ]
    }

    pub fn is_near_culled(&self) -> (culled: bool)
        ensures
            culled == self.near_culled(),
    {
        self.a.camera_depth <= NEAR_PLANE || self.b.camera_depth <= NEAR_PLANE
            || self.c.camera_depth <= NEAR_PLANE
    }

    pub fn to_surface(&self) -> (s: Surface)
        ensures
            s == self.surface(),
    {
        let ab: u32 = if self.a.depth >= self.b.depth {
            self.a.depth
        } else {
            self.b.depth
        };
        let far: u32 = if ab >= self.c.depth {
            ab
        } else {
            self.c.depth
        };
        Surface { face_idx: self.face_idx, flipped: self.facing_away, far_depth: far }
    }
}

/// The solid surfaces of a mesh, in the order of its faces.
pub open spec fn solid_surfaces(faces: Seq<ProjectedFace>, backface_cull: bool) -> Seq<Surface> {
    faces.filter(|f: ProjectedFace| f.is_solid(backface_cull)).map_values(
        |f: ProjectedFace| f.surface(),
    )
}

/// The edges of all back faces in view, face by face, shared edges as often
/// as they occur.
pub open spec fn back_edges(faces: Seq<ProjectedFace>) -> Seq<Edge>
    decreases faces.len(),
{
    if faces.len() == 0 {
        Seq::empty()
    } else if faces.last().is_back() {
        back_edges(faces.drop_last()) + faces.last().edges()
    } else {
        back_edges(faces.drop_last())
    }
}

/// A list of edges without its repetitions: each edge stands where it first
/// occurred.
pub open spec fn unique(edges: Seq<Edge>) -> Seq<Edge>
    decreases edges.len(),
{
    if edges.len() == 0 {
        Seq::empty()
    } else if unique(edges.drop_last()).contains(edges.last()) {
        unique(edges.drop_last())
    } else {
        unique(edges.drop_last()).push(edges.last())
    }
}

/// Whether surfaces stand in painter's order: none is farther than one
/// before it.
pub open spec fn far_to_near(surfaces: Seq<Surface>) -> bool {
    forall|i: int, j: int|
        0 <= i < j < surfaces.len() ==> surfaces[i].far_depth >= surfaces[j].far_depth
}

/// Nothing that reaches the near plane is drawn: every solid surface is the
/// surface of a face whose three corners all lie beyond the plane, and
/// every edge of the wireframe is an edge of a back face of which the same
/// holds.
pub proof fn lemma_near_plane_holds(faces: Seq<ProjectedFace>, backface_cull: bool)
    ensures
        forall|s: Surface| #[trigger]
            solid_surfaces(faces, backface_cull).contains(s) ==> exists|k: int|
                0 <= k < faces.len() && !(#[trigger] faces[k]).near_culled() && faces[k].surface()
                    == s,
        forall|e: Edge| #[trigger]
            wire_edges(faces).contains(e) ==> exists|k: int|
                0 <= k < faces.len() && !(#[trigger] faces[k]).near_culled()
                    && faces[k].facing_away && faces[k].edges().contains(e),
{
    let keep = |f: ProjectedFace| f.is_solid(backface_cull);
    let make = |f: ProjectedFace| f.surface();
    let kept = faces.filter(keep);
    assert forall|s: Surface| #[trigger]
        solid_surfaces(faces, backface_cull).contains(s) implies exists|k: int|
        0 <= k < faces.len() && !(#[trigger] faces[k]).near_culled() && faces[k].surface()
            == s by {
        let i = choose|i: int| 0 <= i < kept.map_values(make).len() && kept.map_values(make)[i] == s;
        faces.lemma_filter_pred(keep, i);
        assert(kept.contains(kept[i]));
        faces.lemma_filter_contains_rev(keep, kept[i]);
        let k = choose|k: int| 0 <= k < faces.len() && faces[k] == kept[i];
        assert(!faces[k].near_culled() && faces[k].surface() == s);
    }
    assert forall|e: Edge| #[trigger]
        wire_edges(faces).contains(e) implies exists|k: int|
        0 <= k < faces.len() && !(#[trigger] faces[k]).near_culled() && faces[k].facing_away
            && faces[k].edges().contains(e) by {
        lemma_unique(back_edges(faces));
        assert(back_edges(faces).contains(e));
        let k = lemma_back_edge_source(faces, e);
        assert(!faces[k].near_culled() && faces[k].facing_away && faces[k].edges().contains(e));
    }
}

/// A back edge of a mesh is an edge of one of its back faces in view.
proof fn lemma_back_edge_source(faces: Seq<ProjectedFace>, e: Edge) -> (k: int)
    requires
        back_edges(faces).contains(e),
    ensures
        0 <= k < faces.len(),
        faces[k].is_back(),
        faces[k].edges().contains(e),
    decreases faces.len(),
{
    let rest = faces.drop_last();
    let i = choose|i: int| 0 <= i < back_edges(faces).len() && back_edges(faces)[i] == e;
    if faces.last().is_back() && i >= back_edges(rest).len() {
        assert(faces.last().edges()[i - back_edges(rest).len()] == e);
        faces.len() - 1
    } else {
        assert(back_edges(rest)[i] == e);
        lemma_back_edge_source(rest, e)
    }
}

/// The surfaces of one depth, in the order in which they stand.
pub open spec fn at_depth(surfaces: Seq<Surface>, depth: u32) -> Seq<Surface> {
    surfaces.filter(|s: Surface| s.far_depth == depth)
}

/// Whether `after` holds the surfaces of `before` with those of equal depth
/// in the order they had.
pub open spec fn keeps_order_within_depths(before: Seq<Surface>, after: Seq<Surface>) -> bool {
    forall|depth: u32| #[trigger] at_depth(after, depth) == at_depth(before, depth)
}

/// Two neighbours of different depth can change places without disturbing
/// the order among surfaces of any one depth.
proof fn lemma_swap_keeps_order(before: Seq<Surface>, j: int)
    requires
        0 < j < before.len(),
        before[j - 1].far_depth != before[j].far_depth,
    ensures
        keeps_order_within_depths(
            before,
            before.update(j - 1, before[j]).update(j, before[j - 1]),
        ),
{
    let a = before[j - 1];
    let b = before[j];
    let after = before.update(j - 1, b).update(j, a);
    let head = before.take(j - 1);
    let tail = before.skip(j + 1);
    let none = Seq::<Surface>::empty();
    assert(before =~= head + none.push(a).push(b) + tail);
    assert(after =~= head + none.push(b).push(a) + tail);
    assert forall|depth: u32| #[trigger] at_depth(after, depth) == at_depth(before, depth) by {
        let same = |s: Surface| s.far_depth == depth;
        Seq::filter_distributes_over_add(head + none.push(a).push(b), tail, same);
        Seq::filter_distributes_over_add(head, none.push(a).push(b), same);
        Seq::filter_distributes_over_add(head + none.push(b).push(a), tail, same);
        Seq::filter_distributes_over_add(head, none.push(b).push(a), same);
        none.lemma_filter_push(a, same);
        none.lemma_filter_push(b, same);
        none.push(a).lemma_filter_push(b, same);
        none.push(b).lemma_filter_push(a, same);
        assert(none.filter(same) =~= none) by {
            none.lemma_filter_len(same);
        }
        assert(none.push(a).push(b).filter(same) =~= none.push(b).push(a).filter(same));
    }
}

/// A list without repetitions holds no edge twice, and holds exactly the
/// edges of the list it was made from.
pub proof fn lemma_unique(edges: Seq<Edge>)
    ensures
        unique(edges).no_duplicates(),
        forall|e: Edge|
            #![trigger unique(edges).contains(e)]
            #![trigger edges.contains(e)]
            unique(edges).contains(e) <==> edges.contains(e),
        unique(edges).len() <= edges.len(),
    decreases edges.len(),
{
    if edges.len() > 0 {
        let rest = edges.drop_last();
        let last = edges.last();
        lemma_unique(rest);
        assert forall|e: Edge|
            #![trigger unique(edges).contains(e)]
            #![trigger edges.contains(e)]
            unique(edges).contains(e) <==> edges.contains(e) by {
            if edges.contains(e) {
                let i = choose|i: int| 0 <= i < edges.len() && edges[i] == e;
                if i < rest.len() {
                    assert(rest[i] == e);
                    assert(rest.contains(e));
                    let k = choose|k: int| 0 <= k < unique(rest).len() && unique(rest)[k] == e;
                    assert(unique(edges)[k] == e);
                } else {
                    assert(e == last);
                    if !unique(rest).contains(last) {
                        assert(unique(edges)[unique(rest).len() as int] == last);
                    }
                }
            }
            if unique(edges).contains(e) {
                let k = choose|k: int| 0 <= k < unique(edges).len() && unique(edges)[k] == e;
                if k < unique(rest).len() {
                    assert(unique(rest)[k] == e);
                    assert(unique(rest).contains(e));
                    let i = choose|i: int| 0 <= i < rest.len() && rest[i] == e;
                    assert(edges[i] == e);
                } else {
                    assert(edges[edges.len() - 1] == e);
                }
            }
        }
    }
}

/// The edges that the wireframe pass draws: those of the back faces in
/// view, each once. A back face gives its edges whether or not it is shown
/// solid as well.
pub open spec fn wire_edges(faces: Seq<ProjectedFace>) -> Seq<Edge> {
    unique(back_edges(faces))
}

/// Puts surfaces in painter's order, farthest first. Surfaces of equal depth
/// keep the order they had.
pub fn sort_far_to_near(surfaces: &mut Vec<Surface>)
    ensures
        far_to_near(final(surfaces)@),
        keeps_order_within_depths(old(surfaces)@, final(surfaces)@),
        final(surfaces)@.to_multiset() == old(surfaces)@.to_multiset(),
        final(surfaces)@.len() == old(surfaces)@.len(),
{
    let n: usize = surfaces.len();
    let mut i: usize = 1;
    while i < n
        invariant
            n == surfaces@.len(),
            n == old(surfaces)@.len(),
            1 <= i,
            surfaces@.to_multiset() == old(surfaces)@.to_multiset(),
            keeps_order_within_depths(old(surfaces)@, surfaces@),
            forall|p: int, q: int|
                0 <= p < q < i && q < n ==> surfaces@[p].far_depth >= surfaces@[q].far_depth,
        decreases n - i,
    {
        let mut j: usize = i;
        while j > 0 && surfaces[j - 1].far_depth < surfaces[j].far_depth
            invariant
                n == surfaces@.len(),
                n == old(surfaces)@.len(),
                j <= i < n,
                surfaces@.to_multiset() == old(surfaces)@.to_multiset(),
                keeps_order_within_depths(old(surfaces)@, surfaces@),
                forall|p: int, q: int|
                    0 <= p < q <= i && p != j && q != j ==> surfaces@[p].far_depth
                        >= surfaces@[q].far_depth,
                forall|q: int| j < q <= i ==> surfaces@[j as int].far_depth >= surfaces@[q].far_depth,
            decreases j,
        {
            let ghost before = surfaces@;
            let moved: Surface = surfaces[j];
            let passed: Surface = surfaces[j - 1];
            surfaces[j - 1] = moved;
            surfaces[j] = passed;
            proof {
                let mid = before.update(j - 1, moved);
                assert(surfaces@ == mid.update(j as int, passed));
                broadcast use vstd::multiset::group_multiset_axioms;

                vstd::seq_lib::to_multiset_update(before, j - 1, moved);
                vstd::seq_lib::to_multiset_update(mid, j as int, passed);
                vstd::seq_lib::to_multiset_contains(before, passed);
                assert(before.contains(passed)) by {
                    assert(before[j - 1] == passed);
                }
                assert(mid[j as int] == moved);
                assert(surfaces@.to_multiset() =~= before.to_multiset());
                lemma_swap_keeps_order(before, j as int);
                assert forall|depth: u32| #[trigger]
                    at_depth(surfaces@, depth) == at_depth(old(surfaces)@, depth) by {
                    assert(at_depth(surfaces@, depth) == at_depth(before, depth));
                }
            }
            j = j - 1;
        }
        i = i + 1;
    }
}

/// Adds an edge to a list that holds no edge twice, unless it is there.
fn push_unique(list: &mut Vec<Edge>, e: Edge)
    ensures
        final(list)@ == (if old(list)@.contains(e) {
            old(list)@
        } else {
            old(list)@.push(e)
        }),
{
    let mut k: usize = 0;
    while k < list.len()
        invariant
            list@ == old(list)@,
            k <= list@.len(),
            forall|m: int| 0 <= m < k ==> list@[m] != e,
        decreases list@.len() - k,
    {
        if list[k] == e {
            return ;
        }
        k = k + 1;
    }
    list.push(e);
}

/// One more edge at the end of a list is one more, or none, at the end of
/// the list without repetitions.
proof fn lemma_unique_push(edges: Seq<Edge>, e: Edge)
    ensures
        unique(edges.push(e)) == (if unique(edges).contains(e) {
            unique(edges)
        } else {
            unique(edges).push(e)
        }),
{
    assert(edges.push(e).drop_last() =~= edges);
}

/// One more face at the end of a mesh adds its surface, if it has one, at
/// the end of the solid surfaces, and its edges, if it is a back face, at
/// the end of the back edges.
proof fn lemma_one_more_face(faces: Seq<ProjectedFace>, f: ProjectedFace, backface_cull: bool)
    ensures
        solid_surfaces(faces.push(f), backface_cull) == (if f.is_solid(backface_cull) {
            solid_surfaces(faces, backface_cull).push(f.surface())
        } else {
            solid_surfaces(faces, backface_cull)
        }),
        back_edges(faces.push(f)) == (if f.is_back() {
            back_edges(faces) + f.edges()
        } else {
            back_edges(faces)
        }),
{
    let keep = |f: ProjectedFace| f.is_solid(backface_cull);
    let make = |f: ProjectedFace| f.surface();
    faces.lemma_filter_push(f, keep);
    if f.is_solid(backface_cull) {
        faces.filter(keep).lemma_push_map_commute(make, f);
    }
    assert(faces.push(f).drop_last() =~= faces);
}

/// Decides what a render call draws. Faces that reach the near plane are
/// dropped. Of the rest, a face that looks at the viewer becomes a solid
/// surface. One that looks away always gives its edges to the wireframe,
/// and where back faces are not culled it becomes a flipped solid surface
/// as well. With a depth test per pixel the solid surfaces keep the order
/// of the mesh; without it they are put in painter's order, farthest first,
/// those of equal depth in the order of the mesh.
pub fn plan_render(faces: &[ProjectedFace], settings: &RasterSettings) -> (plan: RenderPlan)
    ensures
        settings.use_zbuffer ==> plan.solid@ == solid_surfaces(faces@, settings.backface_cull),
        !settings.use_zbuffer ==> {
            &&& far_to_near(plan.solid@)
            &&& keeps_order_within_depths(
                solid_surfaces(faces@, settings.backface_cull),
                plan.solid@,
            )
            &&& plan.solid@.to_multiset() == solid_surfaces(
                faces@,
                settings.backface_cull,
            ).to_multiset()
        },
        plan.wire@ == wire_edges(faces@),
{
    let cull: bool = settings.backface_cull;
    let mut solid: Vec<Surface> = Vec::new();
    let mut wire: Vec<Edge> = Vec::new();
    let mut i: usize = 0;
    proof {
        assert(faces@.take(0) =~= Seq::<ProjectedFace>::empty());
        assert(solid_surfaces(faces@.take(0), cull) =~= Seq::<Surface>::empty());
    }
    while i < faces.len()
        invariant
            i <= faces@.len(),
            solid@ == solid_surfaces(faces@.take(i as int), cull),
            wire@ == wire_edges(faces@.take(i as int)),
        decreases faces@.len() - i,
    {
        let face: ProjectedFace = faces[i];
        proof {
            assert(faces@.take(i + 1) =~= faces@.take(i as int).push(face));
            lemma_one_more_face(faces@.take(i as int), face, cull);
        }
        if !face.is_near_culled() {
            if face.facing_away {
                let ghost had = back_edges(faces@.take(i as int));
                let ab = (Edge { x0: face.a.x, y0: face.a.y, x1: face.b.x, y1: face.b.y }).normalize();
                let bc = (Edge { x0: face.b.x, y0: face.b.y, x1: face.c.x, y1: face.c.y }).normalize();
                let ca = (Edge { x0: face.c.x, y0: face.c.y, x1: face.a.x, y1: face.a.y }).normalize();
                push_unique(&mut wire, ab);
                push_unique(&mut wire, bc);
                push_unique(&mut wire, ca);
                proof {
                    lemma_unique_push(had, ab);
                    lemma_unique_push(had.push(ab), bc);
                    lemma_unique_push(had.push(ab).push(bc), ca);
                    assert(had + face.edges() =~= had.push(ab).push(bc).push(ca));
                }
                if !cull {
                    solid.push(face.to_surface());
                }
            } else {
                solid.push(face.to_surface());
            }
        }
        i = i + 1;
    }
    proof {
        assert(faces@.take(faces@.len() as int) =~= faces@);
    }
    if !settings.use_zbuffer {
        sort_far_to_near(&mut solid);
    }
    RenderPlan { solid, wire }
}

} // verus!
