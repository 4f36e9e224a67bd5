//! A whole render call: the solid pass, surface by surface in the planned
//! order, and the wireframe over it.

use vstd::prelude::*;
use crate::frame::Frame;
use crate::framebuffer::Framebuffer;
use crate::mesh::{
    far_to_near, keeps_order_within_depths, plan_render, solid_surfaces, wire_edges,
    ProjectedFace, RasterSettings, RenderPlan, Surface,
};
use crate::raster::{
    lemma_fragments_concat, lemma_fragments_shape, rasterize_triangle, with_fragments, Fragment,
};
use crate::shapes::painted;
use crate::wireframe::{draw_wireframe, on_some_edge, wire_color};

verus! {

/// The fragments of a surface, looked up by the place of its face in the
/// mesh. A surface whose face has no entry has no fragments.
pub open spec fn fragments_of(coverage: Seq<Vec<Fragment>>, surface: Surface) -> Seq<Fragment> {
    if surface.face_idx < coverage.len() {
        coverage[surface.face_idx as int]@
    } else {
        Seq::empty()
    }
}

/// All fragments of a run of surfaces, in the order in which they are
/// written.
pub open spec fn fragments_in_order(
    surfaces: Seq<Surface>,
    coverage: Seq<Vec<Fragment>>,
) -> Seq<Fragment>
    decreases surfaces.len(),
{
    if surfaces.len() == 0 {
        Seq::empty()
    } else {
        fragments_in_order(surfaces.drop_last(), coverage) + fragments_of(coverage, surfaces.last())
    }
}

/// The frame after the solid pass: every fragment of every surface written
/// through the depth test, surface by surface.
pub open spec fn with_surfaces(
    frame: Frame,
    surfaces: Seq<Surface>,
    coverage: Seq<Vec<Fragment>>,
    dithering: bool,
) -> Frame {
    with_fragments(frame, fragments_in_order(surfaces, coverage), dithering)
}

/// Draws what was planned. The solid surfaces are rasterized in the order
/// of the plan, each from the fragments that `coverage` holds for its face;
/// then the wireframe edges are drawn on top, whatever lies under them.
pub fn render_plan(
    fb: &mut Framebuffer,
    plan: &RenderPlan,
    coverage: &[Vec<Fragment>],
    settings: &RasterSettings,
)
    ensures
        painted(
            with_surfaces(old(fb)@, plan.solid@, coverage@, settings.dithering),
            final(fb)@,
            |x: int, y: int| on_some_edge(plan.wire@, x, y),
            wire_color(),
        ),
{
    let ghost before = fb@;
    let mut i: usize = 0;
    proof {
        assert(plan.solid@.take(0) =~= Seq::<Surface>::empty());
    }
    while i < plan.solid.len()
        invariant
            i <= plan.solid@.len(),
            fb@ == with_surfaces(before, plan.solid@.take(i as int), coverage@, settings.dithering),
        decreases plan.solid@.len() - i,
    {
        let surface: Surface = plan.solid[i];
        proof {
            assert(plan.solid@.take(i + 1).drop_last() =~= plan.solid@.take(i as int));
            lemma_fragments_concat(
                before,
                fragments_in_order(plan.solid@.take(i as int), coverage@),
                fragments_of(coverage@, surface),
                settings.dithering,
            );
        }
        if surface.face_idx < coverage.len() {
            rasterize_triangle(fb, coverage[surface.face_idx].as_slice(), settings);
        }
        i = i + 1;
    }
    proof {
        assert(plan.solid@.take(plan.solid@.len() as int) =~= plan.solid@);
    }
    draw_wireframe(fb, plan.wire.as_slice());
}

/// Renders a mesh whose triangles have been projected and covered: plans
/// the call and draws the plan. `coverage` holds the fragments of each face
/// at the face's place in the mesh. The plan that was drawn is handed back.
pub fn render_mesh(
    fb: &mut Framebuffer,
    faces: &[ProjectedFace],
    coverage: &[Vec<Fragment>],
    settings: &RasterSettings,
) -> (plan: RenderPlan)
    ensures
        settings.use_zbuffer ==> plan.solid@ == solid_surfaces(faces@, settings.backface_cull),
        !settings.use_zbuffer ==> {
            &&& far_to_near(plan.solid@)
            &&& keeps_order_within_depths(
                solid_surfaces(faces@, settings.backface_cull),
                plan.solid@,
            )
            &&& plan.solid@.to_multiset() == solid_surfaces(
                faces@,
                settings.backface_cull,
            ).to_multiset()
        },
        plan.wire@ == wire_edges(faces@),
        painted(
            with_surfaces(old(fb)@, plan.solid@, coverage@, settings.dithering),
            final(fb)@,
            |x: int, y: int| on_some_edge(plan.wire@, x, y),
            wire_color(),
        ),
{
    let plan = plan_render(faces, settings);
    render_plan(fb, &plan, coverage, settings);
    plan
}

/// The solid pass keeps a frame's shape.
pub proof fn lemma_surfaces_shape(
    frame: Frame,
    surfaces: Seq<Surface>,
    coverage: Seq<Vec<Fragment>>,
    dithering: bool,
)
    requires
        frame.wf(),
    ensures
        with_surfaces(frame, surfaces, coverage, dithering).wf(),
        with_surfaces(frame, surfaces, coverage, dithering).same_shape(frame),
{
    lemma_fragments_shape(frame, fragments_in_order(surfaces, coverage), dithering);
}

} // verus!
