use psx_raster::color::Color;
use psx_raster::framebuffer::Framebuffer;

fn lit(fb: &Framebuffer, color: Color) -> Vec<(i32, i32)> {
    let mut out = Vec::new();
    for y in 0..fb.height() {
        for x in 0..fb.width() {
            if fb.get(x, y).map(|c| c.color) == Some(color) {
                out.push((x as i32, y as i32));
            }
        }
    }
    out
}

fn expect(w: usize, h: usize, inside: impl Fn(i32, i32) -> bool) -> Vec<(i32, i32)> {
    let mut out = Vec::new();
    for y in 0..h as i32 {
        for x in 0..w as i32 {
            if inside(x, y) {
                out.push((x, y));
            }
        }
    }
    out
}

#[test]
fn filled_rect_covers_both_corners_in_any_order() {
    for &(x0, y0, x1, y1) in &[(1, 2, 4, 3), (4, 3, 1, 2), (1, 3, 4, 2), (4, 2, 1, 3)] {
        let mut fb = Framebuffer::new(6, 5);
        fb.draw_filled_rect(x0, y0, x1, y1, Color::red());
        assert_eq!(
            lit(&fb, Color::red()),
            expect(6, 5, |x, y| (1..=4).contains(&x) && (2..=3).contains(&y))
        );
    }
}

#[test]
fn filled_rect_is_clipped() {
    let mut fb = Framebuffer::new(4, 3);
    fb.draw_filled_rect(-5, 1, 2, 100, Color::red());
    assert_eq!(lit(&fb, Color::red()), expect(4, 3, |x, y| x <= 2 && y >= 1));
    let mut fb = Framebuffer::new(4, 3);
    fb.draw_filled_rect(4, 0, 9, 2, Color::red());
    fb.draw_filled_rect(-9, -9, -1, 2, Color::red());
    fb.draw_filled_rect(0, 3, 3, 8, Color::red());
    fb.draw_filled_rect(i32::MIN, i32::MIN, -1, -1, Color::red());
    assert_eq!(lit(&fb, Color::red()), vec![]);
    fb.draw_filled_rect(i32::MIN, i32::MIN, i32::MAX, i32::MAX, Color::red());
    assert_eq!(lit(&fb, Color::red()).len(), 12);
}

#[test]
fn rect_outline_is_one_pixel_wide() {
    let mut fb = Framebuffer::new(7, 6);
    fb.draw_rect(5, 4, 1, 1, Color::red());
    assert_eq!(
        lit(&fb, Color::red()),
        expect(7, 6, |x, y| (1..=5).contains(&x)
            && (1..=4).contains(&y)
            && (x == 1 || x == 5 || y == 1 || y == 4))
    );
}

#[test]
fn rect_outline_of_a_line_and_a_point() {
    let mut fb = Framebuffer::new(5, 5);
    fb.draw_rect(1, 2, 3, 2, Color::red());
    assert_eq!(lit(&fb, Color::red()), vec![(1, 2), (2, 2), (3, 2)]);
    let mut fb = Framebuffer::new(5, 5);
    fb.draw_rect(4, 4, 4, 4, Color::red());
    assert_eq!(lit(&fb, Color::red()), vec![(4, 4)]);
}

#[test]
fn rect_outline_is_clipped() {
    let mut fb = Framebuffer::new(4, 4);
    fb.draw_rect(-2, 1, 2, 9, Color::red());
    assert_eq!(
        lit(&fb, Color::red()),
        expect(4, 4, |x, y| (y == 1 && x <= 2) || (x == 2 && y >= 1))
    );
}

#[test]
fn disc_exact_pixels() {
    let mut fb = Framebuffer::new(7, 7);
    fb.draw_circle(3, 3, 2, Color::red());
    assert_eq!(
        lit(&fb, Color::red()),
        vec![
            (3, 1),
            (2, 2),
            (3, 2),
            (4, 2),
            (1, 3),
            (2, 3),
            (3, 3),
            (4, 3),
            (5, 3),
            (2, 4),
            (3, 4),
            (4, 4),
            (3, 5)
        ]
    );
}

#[test]
fn disc_by_distance_and_clipped() {
    for &(cx, cy, r) in &[(0, 0, 3), (5, 2, 4), (-2, 7, 5), (3, 3, 0), (9, 9, 2), (2, 2, 40)] {
        let mut fb = Framebuffer::new(8, 6);
        fb.draw_circle(cx, cy, r, Color::red());
        assert_eq!(
            lit(&fb, Color::red()),
            expect(8, 6, |x, y| (x - cx) * (x - cx) + (y - cy) * (y - cy) <= r * r),
            "{:?}",
            (cx, cy, r)
        );
    }
}

#[test]
fn disc_of_negative_radius_is_empty() {
    let mut fb = Framebuffer::new(5, 5);
    fb.draw_circle(2, 2, -1, Color::red());
    fb.draw_circle(2, 2, i32::MIN, Color::red());
    assert_eq!(lit(&fb, Color::red()), vec![]);
    fb.draw_circle(i32::MAX, i32::MAX, i32::MAX, Color::red());
    fb.draw_circle(i32::MIN, i32::MIN, i32::MAX, Color::red());
    assert_eq!(lit(&fb, Color::red()), vec![]);
    fb.draw_circle(0, 0, i32::MAX, Color::red());
    assert_eq!(lit(&fb, Color::red()).len(), 25);
}

#[test]
fn thin_thick_line_is_the_plain_line() {
    for t in [-3, 0, 1] {
        let mut a = Framebuffer::new(9, 7);
        let mut b = Framebuffer::new(9, 7);
        a.draw_thick_line(1, 6, 8, 0, t, Color::red());
        b.draw_line(1, 6, 8, 0, Color::red());
        assert_eq!(a.pixels(), b.pixels());
    }
}

#[test]
fn thick_line_of_no_length_draws_nothing() {
    let mut fb = Framebuffer::new(5, 5);
    fb.draw_thick_line(2, 2, 2, 2, 4, Color::red());
    assert_eq!(lit(&fb, Color::red()), vec![]);
    fb.draw_thick_line(2, 2, 2, 2, 1, Color::red());
    assert_eq!(lit(&fb, Color::red()), vec![(2, 2)]);
}

#[test]
fn level_thick_line_exact_pixels() {
    // The band reaches from x = 2 to x = 10 and from y = 3 to y = 7;
    // a pixel is in it if its centre is.
    let mut fb = Framebuffer::new(12, 10);
    fb.draw_thick_line(2, 5, 10, 5, 4, Color::red());
    assert_eq!(
        lit(&fb, Color::red()),
        expect(12, 10, |x, y| (2..=9).contains(&x) && (3..=6).contains(&y))
    );
    // Drawn the other way it is the same band.
    let mut back = Framebuffer::new(12, 10);
    back.draw_thick_line(10, 5, 2, 5, 4, Color::red());
    assert_eq!(fb.pixels(), back.pixels());
}

#[test]
fn upright_thick_line_of_odd_thickness() {
    // Half of 3 is 1.5: centres from x = 2.5 to x = 5.5 are in.
    let mut fb = Framebuffer::new(8, 8);
    fb.draw_thick_line(4, 1, 4, 6, 3, Color::red());
    assert_eq!(
        lit(&fb, Color::red()),
        expect(8, 8, |x, y| (2..=5).contains(&x) && (1..=5).contains(&y))
    );
}

/// The band by the four cross products of a convex quad, in floating point,
/// with a flag for pixels that lie too close to an edge to call.
fn quad_test(x0: i32, y0: i32, x1: i32, y1: i32, t: i32, px: i32, py: i32) -> (bool, bool) {
    let dx = (x1 - x0) as f64;
    let dy = (y1 - y0) as f64;
    let len = (dx * dx + dy * dy).sqrt();
    let half = t as f64 * 0.5;
    let ox = -dy / len * half;
    let oy = dx / len * half;
    let corners = [
        (x0 as f64 + ox, y0 as f64 + oy),
        (x0 as f64 - ox, y0 as f64 - oy),
        (x1 as f64 - ox, y1 as f64 - oy),
        (x1 as f64 + ox, y1 as f64 + oy),
    ];
    let p = (px as f64 + 0.5, py as f64 + 0.5);
    let mut inside = true;
    let mut close = false;
    for i in 0..4 {
        let a = corners[i];
        let b = corners[(i + 1) % 4];
        let cross = (b.0 - a.0) * (p.1 - a.1) - (b.1 - a.1) * (p.0 - a.0);
        if cross.abs() < 1e-6 {
            close = true;
        }
        if cross < 0.0 {
            inside = false;
        }
    }
    (inside, close)
}

#[test]
fn slanted_thick_lines_fill_the_quad() {
    let cases = [
        (1, 1, 12, 7, 3),
        (12, 7, 1, 1, 3),
        (2, 11, 9, 0, 5),
        (0, 0, 13, 13, 2),
        (-4, 3, 20, 6, 7),
        (6, -5, 7, 30, 4),
        (3, 4, 6, 8, 10),
        (10, 3, 2, 9, 6),
    ];
    for &(x0, y0, x1, y1, t) in cases.iter() {
        let mut fb = Framebuffer::new(14, 12);
        fb.draw_thick_line(x0, y0, x1, y1, t, Color::red());
        let mut checked = 0;
        for y in 0..12 {
            for x in 0..14 {
                let (inside, close) = quad_test(x0, y0, x1, y1, t, x, y);
                if close {
                    continue;
                }
                checked += 1;
                let drawn = fb.get(x as usize, y as usize).map(|c| c.color) == Some(Color::red());
                assert_eq!(drawn, inside, "{:?} at {:?}", (x0, y0, x1, y1, t), (x, y));
            }
        }
        assert!(checked > 100);
    }
}

#[test]
fn thick_line_edges_are_included() {
    // A 3-4-5 line of thickness 3: the band's long edges pass exactly
    // through pixel centres, which are in.
    let mut fb = Framebuffer::new(12, 12);
    fb.draw_thick_line(3, 4, 6, 8, 3, Color::red());
    for y in 0..12i64 {
        for x in 0..12i64 {
            let (ux, uy) = (3i64, 4i64);
            let (px, py) = (2 * (x - 3) + 1, 2 * (y - 4) + 1);
            let along = ux * px + uy * py;
            let across = ux * py - uy * px;
            let inside = 0 <= along && along <= 50 && across * across <= 25 * 9;
            let drawn = fb.get(x as usize, y as usize).map(|c| c.color) == Some(Color::red());
            assert_eq!(drawn, inside);
        }
    }
    // (4, 8) has its centre on a long edge: across is exactly 15, and
    // (4, 3), on the other, has -15.
    assert_eq!(fb.get(4, 8).map(|c| c.color), Some(Color::red()));
    assert_eq!(fb.get(4, 3).map(|c| c.color), Some(Color::red()));
    assert_eq!(fb.get(4, 9).map(|c| c.color), Some(Color::with_alpha(0, 0, 0, 0)));
}

#[test]
fn thick_line_with_far_ends_does_not_overflow() {
    let mut fb = Framebuffer::new(4, 4);
    fb.draw_thick_line(i32::MIN, 2, i32::MAX, 2, 2, Color::red());
    assert_eq!(lit(&fb, Color::red()), expect(4, 4, |_, y| y == 1 || y == 2));
    let mut fb = Framebuffer::new(4, 4);
    fb.draw_thick_line(i32::MIN, i32::MIN, i32::MAX, i32::MAX, i32::MAX, Color::red());
    assert_eq!(lit(&fb, Color::red()).len(), 16);
    let mut fb = Framebuffer::new(4, 4);
    fb.draw_thick_line(i32::MAX, i32::MIN, i32::MAX - 1, i32::MAX, 9, Color::red());
    assert_eq!(lit(&fb, Color::red()), vec![]);
}
