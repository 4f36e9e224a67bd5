use psx_raster::color::{BlendMode, Color};
use psx_raster::depth::{depth_from_bits, DEPTH_CLEAR};
use psx_raster::frame::Cell;
use psx_raster::framebuffer::Framebuffer;

fn depth(v: f32) -> u32 {
    depth_from_bits(v.to_bits())
}

fn snapshot(fb: &Framebuffer) -> (Vec<u8>, Vec<u32>) {
    (fb.pixels().clone(), fb.zbuffer().clone())
}

#[test]
fn new_is_blank() {
    let fb = Framebuffer::new(5, 3);
    assert_eq!(fb.width(), 5);
    assert_eq!(fb.height(), 3);
    assert_eq!(fb.pixels().len(), 5 * 3 * 4);
    assert_eq!(fb.zbuffer().len(), 5 * 3);
    assert!(fb.pixels().iter().all(|&b| b == 0));
    assert!(fb.zbuffer().iter().all(|&z| z == DEPTH_CLEAR));
    assert_eq!(
        fb.get(4, 2),
        Some(Cell { color: Color::with_alpha(0, 0, 0, 0), depth: DEPTH_CLEAR })
    );
    assert_eq!(fb.get(5, 2), None);
    assert_eq!(fb.get(4, 3), None);
}

#[test]
fn empty_framebuffer_takes_no_pixel() {
    let mut fb = Framebuffer::new(0, 7);
    fb.set_pixel(0, 0, Color::red());
    assert!(!fb.set_pixel_with_depth(0, 0, 0, Color::red()));
    fb.clear(Color::blue());
    assert_eq!(fb.pixels().len(), 0);
    assert_eq!(fb.get(0, 0), None);
}

#[test]
fn set_pixel_writes_four_bytes_in_row_order() {
    let mut fb = Framebuffer::new(4, 3);
    fb.set_pixel(2, 1, Color::with_alpha(10, 20, 30, 40));
    let at = (1 * 4 + 2) * 4;
    for (i, &b) in fb.pixels().iter().enumerate() {
        let want = match i {
            i if i == at => 10,
            i if i == at + 1 => 20,
            i if i == at + 2 => 30,
            i if i == at + 3 => 40,
            _ => 0,
        };
        assert_eq!(b, want);
    }
    assert!(fb.zbuffer().iter().all(|&z| z == DEPTH_CLEAR));
    assert_eq!(fb.get(2, 1).map(|c| c.color), Some(Color::with_alpha(10, 20, 30, 40)));
}

#[test]
fn writes_off_the_picture_change_nothing() {
    let mut fb = Framebuffer::new(4, 3);
    fb.clear(Color::with_alpha(9, 8, 7, 6));
    fb.set_pixel_with_depth(1, 1, depth(2.0), Color::green());
    let before = snapshot(&fb);
    for &(x, y) in &[(4usize, 0usize), (0, 3), (4, 3), (usize::MAX, 0), (0, usize::MAX), (usize::MAX, usize::MAX), (7, 1)] {
        fb.set_pixel(x, y, Color::red());
        fb.set_pixel_blended(x, y, Color::red(), BlendMode::Add);
        assert!(!fb.set_pixel_with_depth(x, y, 0, Color::red()));
        assert!(fb.is_hidden(x, y, 0));
        assert_eq!(snapshot(&fb), before);
    }
}

#[test]
fn clear_sets_colour_and_depth_everywhere() {
    let mut fb = Framebuffer::new(3, 2);
    fb.set_pixel_with_depth(1, 1, depth(1.0), Color::red());
    fb.clear(Color::with_alpha(1, 2, 3, 4));
    for y in 0..2 {
        for x in 0..3 {
            assert_eq!(
                fb.get(x, y),
                Some(Cell { color: Color::with_alpha(1, 2, 3, 4), depth: DEPTH_CLEAR })
            );
        }
    }
}

#[test]
fn resize_keeps_or_restarts() {
    let mut fb = Framebuffer::new(3, 2);
    fb.set_pixel(1, 1, Color::red());
    fb.resize(3, 2);
    assert_eq!(fb.get(1, 1).map(|c| c.color), Some(Color::red()));
    fb.resize(2, 3);
    assert_eq!((fb.width(), fb.height()), (2, 3));
    assert_eq!(fb.pixels().len(), 24);
    assert!(fb.pixels().iter().all(|&b| b == 0));
    assert!(fb.zbuffer().iter().all(|&z| z == DEPTH_CLEAR));
}

#[test]
fn depth_test_is_strict() {
    let mut fb = Framebuffer::new(2, 2);
    assert!(fb.set_pixel_with_depth(1, 0, depth(5.0), Color::red()));
    assert_eq!(fb.get(1, 0), Some(Cell { color: Color::red(), depth: depth(5.0) }));
    // Equal depth does not pass.
    assert!(!fb.set_pixel_with_depth(1, 0, depth(5.0), Color::green()));
    assert_eq!(fb.get(1, 0), Some(Cell { color: Color::red(), depth: depth(5.0) }));
    // Farther does not pass.
    assert!(!fb.set_pixel_with_depth(1, 0, depth(5.5), Color::green()));
    assert!(fb.is_hidden(1, 0, depth(5.0)));
    assert!(!fb.is_hidden(1, 0, depth(4.9)));
    // Nearer passes and takes colour and depth together.
    assert!(fb.set_pixel_with_depth(1, 0, depth(4.9), Color::blue()));
    assert_eq!(fb.get(1, 0), Some(Cell { color: Color::blue(), depth: depth(4.9) }));
    // The neighbours were never touched.
    assert_eq!(fb.get(0, 0).map(|c| c.depth), Some(DEPTH_CLEAR));
    assert_eq!(fb.get(1, 1).map(|c| c.depth), Some(DEPTH_CLEAR));
}

#[test]
fn nothing_is_nearer_than_nothing_at_infinity() {
    let mut fb = Framebuffer::new(1, 1);
    assert!(!fb.set_pixel_with_depth(0, 0, depth(f32::INFINITY), Color::red()));
    assert!(!fb.set_pixel_with_depth(0, 0, depth(f32::NAN), Color::red()));
    assert!(fb.set_pixel_with_depth(0, 0, depth(f32::MAX), Color::red()));
}

#[test]
fn only_the_depth_write_moves_depth() {
    let mut fb = Framebuffer::new(3, 3);
    fb.set_pixel(1, 1, Color::red());
    fb.set_pixel_blended(1, 1, Color::red(), BlendMode::Average);
    fb.draw_line(0, 0, 2, 2, Color::green());
    fb.draw_rect(0, 0, 2, 2, Color::green());
    fb.draw_filled_rect(0, 0, 2, 2, Color::green());
    fb.draw_circle(1, 1, 2, Color::green());
    fb.draw_thick_line(0, 0, 2, 2, 3, Color::green());
    fb.draw_line_3d(0, 0, 2, 2, &vec![0, 0, 0], Color::blue());
    assert!(fb.zbuffer().iter().all(|&z| z == DEPTH_CLEAR));
}

#[test]
fn blended_write_reads_the_pixel_below() {
    let mut fb = Framebuffer::new(2, 1);
    fb.set_pixel(0, 0, Color::with_alpha(50, 100, 250, 22));
    fb.set_pixel_blended(0, 0, Color::with_alpha(100, 200, 40, 11), BlendMode::Add);
    assert_eq!(fb.get(0, 0).map(|c| c.color), Some(Color::with_alpha(150, 255, 255, 11)));
    fb.set_pixel_blended(0, 0, Color::with_alpha(100, 200, 40, 11), BlendMode::Subtract);
    assert_eq!(fb.get(0, 0).map(|c| c.color), Some(Color::with_alpha(50, 55, 215, 11)));
    fb.set_pixel_blended(1, 0, Color::with_alpha(100, 200, 40, 11), BlendMode::Average);
    assert_eq!(fb.get(1, 0).map(|c| c.color), Some(Color::with_alpha(50, 100, 20, 11)));
    fb.set_pixel_blended(1, 0, Color::with_alpha(1, 2, 3, 4), BlendMode::Opaque);
    assert_eq!(fb.get(1, 0).map(|c| c.color), Some(Color::with_alpha(1, 2, 3, 4)));
}
