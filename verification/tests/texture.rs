use psx_raster::color::Color;
use psx_raster::texture::{lookup_texture, sample_or_white, Texture};

#[test]
fn new_texture_is_white() {
    let t = Texture::new(3, 2);
    assert_eq!((t.width, t.height), (3, 2));
    assert_eq!(t.pixels.len(), 6);
    assert!(t.pixels.iter().all(|&c| c == Color::white()));
}

#[test]
fn checkerboard_has_squares_of_four() {
    let a = Color::new(1, 2, 3);
    let b = Color::new(4, 5, 6);
    let t = Texture::checkerboard(10, 9, a, b);
    assert_eq!(t.pixels.len(), 90);
    for y in 0..9 {
        for x in 0..10 {
            let want = if (x / 4 + y / 4) % 2 == 0 { a } else { b };
            assert_eq!(t.pixels[y * 10 + x], want);
        }
    }
    assert_eq!(t.pixels[0], a);
    assert_eq!(t.pixels[4], b);
    assert_eq!(t.pixels[8], a);
    assert_eq!(t.pixels[4 * 10], b);
    assert_eq!(t.pixels[4 * 10 + 4], a);
}

#[test]
fn sample_wraps_round_the_size() {
    let mut t = Texture::new(3, 2);
    for (i, p) in t.pixels.iter_mut().enumerate() {
        *p = Color::new(i as u8, 0, 0);
    }
    assert_eq!(t.sample(0, 0), Color::new(0, 0, 0));
    assert_eq!(t.sample(2, 1), Color::new(5, 0, 0));
    assert_eq!(t.sample(3, 0), Color::new(0, 0, 0));
    assert_eq!(t.sample(4, 3), Color::new(4, 0, 0));
    assert_eq!(t.sample(301, 1001), Color::new(4, 0, 0));
    assert_eq!(t.sample(usize::MAX, usize::MAX), Color::new((usize::MAX % 2 * 3 + usize::MAX % 3) as u8, 0, 0));
}

#[test]
fn one_texel_texture_is_that_texel_everywhere() {
    let mut t = Texture::new(1, 1);
    t.pixels[0] = Color::with_alpha(9, 8, 7, 6);
    for &(x, y) in &[(0usize, 0usize), (1, 0), (0, 1), (17, 99)] {
        assert_eq!(t.sample(x, y), Color::with_alpha(9, 8, 7, 6));
    }
}

#[test]
fn a_texture_without_its_pixels_shows_white() {
    let empty = Texture { width: 0, height: 0, pixels: Vec::new() };
    assert_eq!(empty.sample(0, 0), Color::white());
    let flat = Texture { width: 4, height: 0, pixels: Vec::new() };
    assert_eq!(flat.sample(1, 1), Color::white());
    let short = Texture { width: 2, height: 2, pixels: vec![Color::red(); 3] };
    assert_eq!(short.sample(0, 0), Color::white());
    let long = Texture { width: 2, height: 2, pixels: vec![Color::red(); 5] };
    assert_eq!(long.sample(0, 0), Color::white());
    let huge = Texture { width: usize::MAX, height: 2, pixels: vec![Color::red(); 2] };
    assert_eq!(huge.sample(0, 0), Color::white());
}

#[test]
fn lookup_needs_a_reference_in_range() {
    let textures = vec![Texture::checkerboard(4, 4, Color::red(), Color::blue()), Texture::new(2, 2)];
    assert!(lookup_texture(&textures, None).is_none());
    assert!(lookup_texture(&textures, Some(2)).is_none());
    assert!(lookup_texture(&textures, Some(usize::MAX)).is_none());
    assert_eq!(lookup_texture(&textures, Some(0)).map(|t| t.width), Some(4));
    assert_eq!(lookup_texture(&textures, Some(1)).map(|t| t.width), Some(2));
    assert!(lookup_texture(&Vec::new(), Some(0)).is_none());
}

#[test]
fn missing_texture_is_opaque_white() {
    let textures = vec![Texture::checkerboard(8, 8, Color::red(), Color::blue())];
    assert_eq!(sample_or_white(lookup_texture(&textures, Some(5)), 1, 1), Color::new(255, 255, 255));
    assert_eq!(sample_or_white(lookup_texture(&textures, None), 1, 1), Color::new(255, 255, 255));
    assert_eq!(sample_or_white(lookup_texture(&textures, Some(0)), 1, 1), Color::red());
    assert_eq!(sample_or_white(lookup_texture(&textures, Some(0)), 5, 1), Color::blue());
    assert_eq!(sample_or_white(lookup_texture(&textures, Some(0)), 13, 9), Color::blue());
    assert_eq!(sample_or_white(lookup_texture(&textures, Some(0)), 13, 13), Color::red());
}
