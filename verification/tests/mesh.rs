use psx_raster::color::Color;
use psx_raster::depth::{depth_from_bits, NEAR_PLANE};
use psx_raster::framebuffer::Framebuffer;
use psx_raster::mesh::{
    plan_render, sort_far_to_near, test_cube_faces, Edge, Face, PixelBox, ProjectedFace,
    ProjectedVertex, RasterSettings, ShadingMode, Surface,
};
use psx_raster::wireframe::draw_wireframe;

fn depth(v: f32) -> u32 {
    depth_from_bits(v.to_bits())
}

fn vertex(x: i32, y: i32, z: f32) -> ProjectedVertex {
    ProjectedVertex { x, y, depth: depth(z), camera_depth: depth(z) }
}

fn face(idx: usize, corners: [(i32, i32, f32); 3], facing_away: bool) -> ProjectedFace {
    ProjectedFace {
        face_idx: idx,
        a: vertex(corners[0].0, corners[0].1, corners[0].2),
        b: vertex(corners[1].0, corners[1].1, corners[1].2),
        c: vertex(corners[2].0, corners[2].1, corners[2].2),
        facing_away,
    }
}

fn settings(use_zbuffer: bool, backface_cull: bool) -> RasterSettings {
    RasterSettings { use_zbuffer, backface_cull, ..RasterSettings::default() }
}

#[test]
fn default_settings() {
    let s = RasterSettings::default();
    assert!(s.affine_textures);
    assert!(s.vertex_snap);
    assert!(s.use_zbuffer);
    assert_eq!(s.shading, ShadingMode::Gouraud);
    assert!(s.backface_cull);
    assert!(s.dithering);
}

#[test]
fn faces_carry_an_optional_texture() {
    assert_eq!(Face::new(1, 2, 3), Face { v0: 1, v1: 2, v2: 3, texture_id: None });
    assert_eq!(Face::with_texture(1, 2, 3, 7), Face { v0: 1, v1: 2, v2: 3, texture_id: Some(7) });
    assert!(Face::new(0, 1, 2).in_range(3));
    assert!(!Face::new(0, 1, 3).in_range(3));
    assert!(!Face::new(3, 1, 2).in_range(3));
    assert!(!Face::new(0, 0, 0).in_range(0));
}

#[test]
fn the_test_cube_has_two_triangles_a_side() {
    let faces = test_cube_faces();
    assert_eq!(faces.len(), 12);
    for side in 0..6 {
        let base = side * 4;
        assert_eq!(faces[side * 2], Face::with_texture(base, base + 1, base + 2, 0));
        assert_eq!(faces[side * 2 + 1], Face::with_texture(base, base + 2, base + 3, 0));
    }
    assert!(faces.iter().all(|f| f.in_range(24)));
    assert!(!faces[11].in_range(23));
}

#[test]
fn front_faces_are_solid_in_mesh_order() {
    let faces = vec![
        face(0, [(0, 0, 3.0), (4, 0, 5.0), (0, 4, 4.0)], false),
        face(1, [(0, 0, 9.0), (4, 0, 7.0), (0, 4, 8.0)], false),
        face(2, [(0, 0, 1.0), (4, 0, 1.0), (0, 4, 1.0)], false),
    ];
    let plan = plan_render(&faces, &settings(true, true));
    assert_eq!(
        plan.solid,
        vec![
            Surface { face_idx: 0, flipped: false, far_depth: depth(5.0) },
            Surface { face_idx: 1, flipped: false, far_depth: depth(9.0) },
            Surface { face_idx: 2, flipped: false, far_depth: depth(1.0) },
        ]
    );
    assert!(plan.wire.is_empty());
}

#[test]
fn anything_at_the_near_plane_is_dropped() {
    for z in [0.1f32, 0.05, 0.0, -0.0, -3.0, f32::NEG_INFINITY] {
        for corner in 0..3 {
            for away in [false, true] {
                let mut corners = [(0, 0, 2.0f32), (4, 0, 2.0), (0, 4, 2.0)];
                corners[corner].2 = z;
                let faces = vec![face(0, corners, away)];
                for s in [settings(true, true), settings(true, false), settings(false, true)] {
                    let plan = plan_render(&faces, &s);
                    assert!(plan.solid.is_empty());
                    assert!(plan.wire.is_empty());
                }
            }
        }
    }
    // Just beyond the plane it is drawn.
    let faces = vec![face(0, [(0, 0, 0.100_000_01), (4, 0, 2.0), (0, 4, 2.0)], false)];
    assert_eq!(plan_render(&faces, &settings(true, true)).solid.len(), 1);
    assert_eq!(depth(0.1), NEAR_PLANE);
}

#[test]
fn the_near_plane_looks_at_camera_depth_only() {
    let mut f = face(0, [(0, 0, 2.0), (4, 0, 2.0), (0, 4, 2.0)], false);
    f.a.depth = depth(0.0);
    assert_eq!(plan_render(&vec![f], &settings(true, true)).solid.len(), 1);
    f.a.depth = depth(2.0);
    f.a.camera_depth = depth(0.0);
    assert_eq!(plan_render(&vec![f], &settings(true, true)).solid.len(), 0);
}

#[test]
fn back_faces_go_to_the_wireframe_or_are_flipped() {
    let faces = vec![
        face(0, [(0, 0, 3.0), (4, 0, 3.0), (0, 4, 3.0)], false),
        face(1, [(5, 5, 4.0), (9, 5, 6.0), (5, 9, 5.0)], true),
    ];
    let culled = plan_render(&faces, &settings(true, true));
    assert_eq!(culled.solid, vec![Surface { face_idx: 0, flipped: false, far_depth: depth(3.0) }]);
    assert_eq!(
        culled.wire,
        vec![
            Edge { x0: 5, y0: 5, x1: 9, y1: 5 },
            Edge { x0: 5, y0: 9, x1: 9, y1: 5 },
            Edge { x0: 5, y0: 5, x1: 5, y1: 9 },
        ]
    );
    // Shown solid, the back face is flipped and still gives its edges.
    let shown = plan_render(&faces, &settings(true, false));
    assert_eq!(
        shown.solid,
        vec![
            Surface { face_idx: 0, flipped: false, far_depth: depth(3.0) },
            Surface { face_idx: 1, flipped: true, far_depth: depth(6.0) },
        ]
    );
    assert_eq!(shown.wire, culled.wire);
}

#[test]
fn painter_order_is_farthest_first() {
    let depths = [3.0f32, 9.0, 1.0, 9.0, 4.0, 0.5, 7.0, 3.0];
    let faces: Vec<ProjectedFace> = depths
        .iter()
        .enumerate()
        .map(|(i, &z)| face(i, [(0, 0, z), (4, 0, z - 0.25), (0, 4, z - 0.125)], false))
        .collect();
    let plan = plan_render(&faces, &settings(false, true));
    let order: Vec<usize> = plan.solid.iter().map(|s| s.face_idx).collect();
    assert_eq!(order, vec![1, 3, 6, 4, 0, 7, 2, 5]);
    for pair in plan.solid.windows(2) {
        assert!(pair[0].far_depth >= pair[1].far_depth);
    }
    let with_test = plan_render(&faces, &settings(true, true));
    let order: Vec<usize> = with_test.solid.iter().map(|s| s.face_idx).collect();
    assert_eq!(order, vec![0, 1, 2, 3, 4, 5, 6, 7]);
}

#[test]
fn painter_order_goes_by_the_farthest_corner() {
    let faces = vec![
        face(0, [(0, 0, 5.0), (4, 0, 5.0), (0, 4, 5.0)], false),
        face(1, [(0, 0, 1.0), (4, 0, 1.0), (0, 4, 6.0)], false),
        face(2, [(0, 0, 1.0), (4, 0, 7.0), (0, 4, 1.0)], false),
        face(3, [(0, 0, 8.0), (4, 0, 1.0), (0, 4, 1.0)], false),
    ];
    let plan = plan_render(&faces, &settings(false, true));
    let order: Vec<usize> = plan.solid.iter().map(|s| s.face_idx).collect();
    assert_eq!(order, vec![3, 2, 1, 0]);
}

#[test]
fn sorting_keeps_every_surface() {
    let mut surfaces: Vec<Surface> = [5u32, 1, 9, 9, 0, 3, 5, 7, 2, 9]
        .iter()
        .enumerate()
        .map(|(i, &d)| Surface { face_idx: i, flipped: i % 2 == 0, far_depth: d })
        .collect();
    let mut want = surfaces.clone();
    want.sort_by(|a, b| b.far_depth.cmp(&a.far_depth));
    sort_far_to_near(&mut surfaces);
    assert_eq!(surfaces, want);
    let mut none: Vec<Surface> = Vec::new();
    sort_far_to_near(&mut none);
    assert!(none.is_empty());
    let mut one = vec![Surface { face_idx: 4, flipped: true, far_depth: 4 }];
    sort_far_to_near(&mut one);
    assert_eq!(one, vec![Surface { face_idx: 4, flipped: true, far_depth: 4 }]);
}

#[test]
fn edges_forget_their_direction() {
    let e = Edge { x0: 5, y0: 1, x1: 2, y1: 8 };
    assert_eq!(e.normalize(), Edge { x0: 2, y0: 8, x1: 5, y1: 1 });
    assert_eq!(e.normalize(), Edge { x0: 2, y0: 8, x1: 5, y1: 1 }.normalize());
    let upright = Edge { x0: 3, y0: 9, x1: 3, y1: 4 };
    assert_eq!(upright.normalize(), Edge { x0: 3, y0: 4, x1: 3, y1: 9 });
    let point = Edge { x0: 3, y0: 3, x1: 3, y1: 3 };
    assert_eq!(point.normalize(), point);
}

#[test]
fn a_shared_edge_is_drawn_once() {
    // Two back faces of a quad, sharing the diagonal (0, 0) - (4, 4),
    // which the first runs along one way and the second the other.
    let faces = vec![
        face(0, [(0, 0, 3.0), (4, 0, 3.0), (4, 4, 3.0)], true),
        face(1, [(0, 0, 3.0), (4, 4, 3.0), (0, 4, 3.0)], true),
    ];
    let plan = plan_render(&faces, &settings(true, true));
    assert!(plan.solid.is_empty());
    let diagonal = Edge { x0: 0, y0: 0, x1: 4, y1: 4 };
    assert_eq!(plan.wire.iter().filter(|&&e| e == diagonal).count(), 1);
    assert_eq!(
        plan.wire,
        vec![
            Edge { x0: 0, y0: 0, x1: 4, y1: 0 },
            Edge { x0: 4, y0: 0, x1: 4, y1: 4 },
            diagonal,
            Edge { x0: 0, y0: 4, x1: 4, y1: 4 },
            Edge { x0: 0, y0: 0, x1: 0, y1: 4 },
        ]
    );
}

#[test]
fn no_edge_is_listed_twice() {
    let mut faces = Vec::new();
    for i in 0..4 {
        for j in 0..4 {
            let (x, y) = (i * 3, j * 3);
            faces.push(face(faces.len(), [(x, y, 2.0), (x + 3, y, 2.0), (x + 3, y + 3, 2.0)], true));
            faces.push(face(faces.len(), [(x, y, 2.0), (x + 3, y + 3, 2.0), (x, y + 3, 2.0)], (i + j) % 3 != 0));
        }
    }
    let plan = plan_render(&faces, &settings(true, true));
    for (i, a) in plan.wire.iter().enumerate() {
        assert_eq!(*a, a.normalize());
        for b in plan.wire.iter().skip(i + 1) {
            assert!(a != b);
        }
    }
    // Every edge of every back face is there.
    for f in faces.iter().filter(|f| f.facing_away) {
        for (p, q) in [(f.a, f.b), (f.b, f.c), (f.c, f.a)] {
            let e = Edge { x0: p.x, y0: p.y, x1: q.x, y1: q.y }.normalize();
            assert!(plan.wire.contains(&e));
        }
    }
}

#[test]
fn wireframe_draws_over_everything_and_leaves_depth() {
    let mut fb = Framebuffer::new(6, 6);
    for y in 0..6 {
        for x in 0..6 {
            fb.set_pixel_with_depth(x, y, 5, Color::red());
        }
    }
    let edges = vec![Edge { x0: 0, y0: 0, x1: 5, y1: 0 }, Edge { x0: 0, y0: 0, x1: 0, y1: 5 }, Edge { x0: 8, y0: 8, x1: 9, y1: 9 }];
    draw_wireframe(&mut fb, &edges);
    for y in 0..6 {
        for x in 0..6 {
            let want = if x == 0 || y == 0 { Color::new(80, 80, 100) } else { Color::red() };
            assert_eq!(fb.get(x, y).map(|c| (c.color, c.depth)), Some((want, 5)));
        }
    }
    let before = fb.pixels().clone();
    draw_wireframe(&mut fb, &Vec::new());
    assert_eq!(*fb.pixels(), before);
}

#[test]
fn a_pixel_box_is_cut_to_the_picture() {
    assert_eq!(PixelBox::around(2, 7, 1, 9, 20, 20), PixelBox { x0: 2, x1: 8, y0: 1, y1: 10 });
    assert_eq!(PixelBox::around(2, 7, 1, 9, 6, 4), PixelBox { x0: 2, x1: 6, y0: 1, y1: 4 });
    assert_eq!(PixelBox::around(2, 7, 1, 9, 8, 10), PixelBox { x0: 2, x1: 8, y0: 1, y1: 10 });
    assert_eq!(PixelBox::around(2, 7, 1, 9, 7, 9), PixelBox { x0: 2, x1: 7, y0: 1, y1: 9 });
    assert_eq!(PixelBox::around(-5, 3, -2, 30, 10, 10), PixelBox { x0: 0, x1: 4, y0: 0, y1: 10 });
    // Wholly off the picture, the box holds no pixel.
    let left = PixelBox::around(-5, -1, 1, 4, 10, 10);
    assert_eq!((left.x0, left.x1), (0, 0));
    let right = PixelBox::around(11, 13, 1, 4, 10, 10);
    assert!(right.x0 >= right.x1);
    let above = PixelBox::around(1, 4, i32::MIN, -1, 10, 10);
    assert_eq!((above.y0, above.y1), (0, 0));
    assert_eq!(
        PixelBox::around(i32::MIN, i32::MAX, i32::MIN, i32::MAX, 10, 7),
        PixelBox { x0: 0, x1: 10, y0: 0, y1: 7 }
    );
    assert_eq!(PixelBox::around(0, 5, 0, 5, 0, 0), PixelBox { x0: 0, x1: 0, y0: 0, y1: 0 });
    // A run the wrong way round holds nothing.
    let empty = PixelBox::around(5, 2, 0, 9, 10, 10);
    assert!(empty.x0 >= empty.x1);
}
