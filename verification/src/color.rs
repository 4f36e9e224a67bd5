//! Colours, console-style blending and modulation, and ordered dithering.

use vstd::prelude::*;

verus! {

/// An RGBA colour, eight bits per channel.
#[derive(Debug, Clone, Copy, PartialEq, Eq, Structural, Default)]
pub struct Color {
    pub r: u8,
    pub g: u8,
    pub b: u8,
    pub a: u8,
}

/// How a pixel that is being drawn combines with the pixel already there.
#[derive(Debug, Clone, Copy, PartialEq, Eq, Structural, Default)]
pub enum BlendMode {
    /// The new pixel replaces the old one.
    #[default]
    Opaque,
    /// Half of each.
    Average,
    /// Old plus new, saturating.
    Add,
    /// Old minus new, saturating.
    Subtract,
    /// Old plus a quarter of new, saturating.
    AddQuarter,
}

/// One channel of a texel tinted by one channel of a vertex colour: the
/// product over 128, so that 128 leaves the texel as it is, saturating at 255.
pub open spec fn modulate_channel(texel: u8, tint: u8) -> u8 {
    let scaled = (texel as int * tint as int) / 128;
    if scaled > 255 {
        255u8
    } else {
        scaled as u8
    }
}

/// One channel of `front` drawn over `back`.
pub open spec fn blend_channel(front: u8, back: u8, mode: BlendMode) -> u8 {
    match mode {
        BlendMode::Opaque => front,
        BlendMode::Average => ((back as int + front as int) / 2) as u8,
        BlendMode::Add => if back + front > 255 {
            255u8
        } else {
            (back + front) as u8
        },
        BlendMode::Subtract => if back < front {
            0u8
        } else {
            (back - front) as u8
        },
        BlendMode::AddQuarter => if back + front / 4 > 255 {
            255u8
        } else {
            (back + front / 4) as u8
        },
    }
}

/// The 4x4 ordered-dither matrix, by column and row, each in `0..4`.
pub open spec fn bayer(col: int, row: int) -> int {
    seq![0int, 8, 2, 10, 12, 4, 14, 6, 3, 11, 1, 9, 15, 7, 13, 5][row * 4 + col]
}

/// The signed amount that a matrix entry adds to a channel: half of its
/// distance from 8, rounded towards zero.
pub open spec fn dither_offset(entry: int) -> int {
    if entry >= 8 {
        (entry - 8) / 2
    } else {
        -((8 - entry) / 2)
    }
}

/// The amount added to every channel of the pixel at `(x, y)`.
pub open spec fn dither_offset_at(x: usize, y: usize) -> int {
    dither_offset(bayer((x & 3) as int, (y & 3) as int))
}

/// A channel after the dither offset, held to `0..=255`, before the low bits
/// are dropped.
pub open spec fn dither_shifted(value: u8, x: usize, y: usize) -> u8 {
    let moved = value as int + dither_offset_at(x, y);
    if moved < 0 {
        0u8
    } else if moved > 255 {
        255u8
    } else {
        moved as u8
    }
}

/// A channel after dithering: shifted, then cut down to its top five bits.
pub open spec fn dither_channel(value: u8, x: usize, y: usize) -> u8 {
    dither_shifted(value, x, y) & 0xF8
}

/// A colour after dithering at `(x, y)`; alpha is left alone.
pub open spec fn dithered(color: Color, x: usize, y: usize) -> Color {
    Color {
        r: dither_channel(color.r, x, y),
        g: dither_channel(color.g, x, y),
        b: dither_channel(color.b, x, y),
        a: color.a,
    }
}

impl Color {
    pub open spec fn spec_new(r: u8, g: u8, b: u8) -> Color {
        Color { r, g, b, a: 255 }
    }

    /// The colour as one integer, red in the top byte and alpha in the bottom.
    pub open spec fn packed(self) -> int {
        self.r as int * 0x100_0000 + self.g as int * 0x1_0000 + self.b as int * 0x100
            + self.a as int
    }

    /// `self` as a texel, tinted by a vertex colour; alpha stays the texel's.
    pub open spec fn modulated(self, tint: Color) -> Color {
        Color {
            r: modulate_channel(self.r, tint.r),
            g: modulate_channel(self.g, tint.g),
            b: modulate_channel(self.b, tint.b),
            a: self.a,
        }
    }

    /// `self` drawn over `back`; alpha stays that of `self`.
    pub open spec fn blended(self, back: Color, mode: BlendMode) -> Color {
        Color {
            r: blend_channel(self.r, back.r, mode),
            g: blend_channel(self.g, back.g, mode),
            b: blend_channel(self.b, back.b, mode),
            a: self.a,
        }
    }

    /// An opaque colour from its three channels.
    #[verifier::when_used_as_spec(spec_new)]
    pub fn new(r: u8, g: u8, b: u8) -> (c: Color)
        ensures
            c == Color::spec_new(r, g, b),
    {
        Color { r, g, b, a: 255 }
    }

    pub fn with_alpha(r: u8, g: u8, b: u8, a: u8) -> (c: Color)
        ensures
            c == (Color { r, g, b, a }),
    {
        Color { r, g, b, a }
    }

    pub fn black() -> (c: Color)
        ensures
            c == Color::new(0, 0, 0),
    {
        Color { r: 0, g: 0, b: 0, a: 255 }
    }

    pub fn white() -> (c: Color)
        ensures
            c == Color::new(255, 255, 255),
    {
        Color { r: 255, g: 255, b: 255, a: 255 }
    }

    pub fn red() -> (c: Color)
        ensures
            c == Color::new(255, 0, 0),
    {
        Color { r: 255, g: 0, b: 0, a: 255 }
    }

    pub fn green() -> (c: Color)
        ensures
            c == Color::new(0, 255, 0),
    {
        Color { r: 0, g: 255, b: 0, a: 255 }
    }

    pub fn blue() -> (c: Color)
        ensures
            c == Color::new(0, 0, 255),
    {
        Color { r: 0, g: 0, b: 255, a: 255 }
    }

    /// The vertex colour that leaves a texel unchanged under `modulate`.
    pub fn neutral() -> (c: Color)
        ensures
            c == Color::new(128, 128, 128),
    {
        Color { r: 128, g: 128, b: 128, a: 255 }
    }

    pub fn to_u32(self) -> (word: u32)
        ensures
            word == self.packed(),
    {
        let r: u32 = self.r as u32;
        let g: u32 = self.g as u32;
        let b: u32 = self.b as u32;
        let a: u32 = self.a as u32;
        assert(((r << 24) | (g << 16) | (b << 8) | a) == r * 0x100_0000 + g * 0x1_0000 + b
            * 0x100 + a) by (bit_vector)
            requires
                r < 256,
                g < 256,
                b < 256,
                a < 256,
        ;
        (r << 24) | (g << 16) | (b << 8) | a
    }

    pub fn to_bytes(self) -> (bytes: [u8; 4])
        ensures
            bytes@ == seq![self.r, self.g, self.b, self.a],
    {
        let bytes: [u8; 4] = [self.r, self.g, self.b, self.a];
        assert(bytes@ =~= seq![self.r, self.g, self.b, self.a]);
        bytes
    }

    /// Tints `self`, a texel, by a vertex colour.
    pub fn modulate(self, vertex_color: Color) -> (c: Color)
        ensures
            c == self.modulated(vertex_color),
    {
        Color {
            r: modulate_one(self.r, vertex_color.r),
            g: modulate_one(self.g, vertex_color.g),
            b: modulate_one(self.b, vertex_color.b),
            a: self.a,
        }
    }

    /// Draws `self` over `back`.
    pub fn blend(self, back: Color, mode: BlendMode) -> (c: Color)
        ensures
            c == self.blended(back, mode),
    {
        Color {
            r: blend_one(self.r, back.r, mode),
            g: blend_one(self.g, back.g, mode),
            b: blend_one(self.b, back.b, mode),
            a: self.a,
        }
    }
}

fn modulate_one(texel: u8, tint: u8) -> (c: u8)
    ensures
        c == modulate_channel(texel, tint),
{
    assert(texel as int * tint as int <= 255 * 255) by (nonlinear_arith);
    let scaled: u16 = (texel as u16 * tint as u16) / 128;
    if scaled > 255 {
        255
    } else {
        scaled as u8
    }
}

fn blend_one(front: u8, back: u8, mode: BlendMode) -> (c: u8)
    ensures
        c == blend_channel(front, back, mode),
{
    let f: u16 = front as u16;
    let k: u16 = back as u16;
    match mode {
        BlendMode::Opaque => front,
        BlendMode::Average => ((k + f) / 2) as u8,
        BlendMode::Add => if k + f > 255 {
            255
        } else {
            (k + f) as u8
        },
        BlendMode::Subtract => if k < f {
            0
        } else {
            (k - f) as u8
        },
        BlendMode::AddQuarter => if k + f / 4 > 255 {
            255
        } else {
            (k + f / 4) as u8
        },
    }
}

/// The matrix entry for the pixel at `(x, y)`.
fn bayer_at(x: usize, y: usize) -> (entry: u8)
    ensures
        entry == bayer((x & 3) as int, (y & 3) as int),
        entry < 16,
{
    let table: [u8; 16] = [0, 8, 2, 10, 12, 4, 14, 6, 3, 11, 1, 9, 15, 7, 13, 5];
    let col: usize = x & 3;
    let row: usize = y & 3;
    assert(x & 3 < 4) by (bit_vector);
    assert(y & 3 < 4) by (bit_vector);
    table[row * 4 + col]
}

fn dither_one(value: u8, entry: u8) -> (c: u8)
    requires
        entry < 16,
    ensures
        ({
            let moved = value as int + dither_offset(entry as int);
            c == (if moved < 0 {
                0u8
            } else if moved > 255 {
                255u8
            } else {
                moved as u8
            }) & 0xF8
        }),
{
    let offset: i32 = (entry as i32 - 8) / 2;
    let moved: i32 = value as i32 + offset;
    let held: u8 = if moved < 0 {
        0
    } else if moved > 255 {
        255
    } else {
        moved as u8
    };
    held & 0xF8
}

/// Ordered dithering down to five bits per channel: the matrix entry for
/// `(x & 3, y & 3)` gives an offset in `-4..=3`, which is added to red, green
/// and blue; each is held to `0..=255` and loses its low three bits.
pub fn apply_dither(color: Color, x: usize, y: usize) -> (c: Color)
    ensures
        c == dithered(color, x, y),
{
    let entry = bayer_at(x, y);
    Color {
        r: dither_one(color.r, entry),
        g: dither_one(color.g, entry),
        b: dither_one(color.b, entry),
        a: color.a,
    }
}

/// A vertex colour of 128 in every channel leaves a texel as it is, and an
/// opaque blend leaves the drawn colour as it is.
pub proof fn lemma_neutral(color: Color, back: Color)
    ensures
        color.modulated(Color::new(128, 128, 128)) == color,
        color.blended(back, BlendMode::Opaque) == color,
{
}

/// The dither offset is one of `-4..=3` at every pixel, so a channel moves by
/// at most 4 before its low bits are dropped; dropping them takes off at most
/// 7 more and leaves a multiple of 8.
pub proof fn lemma_dither_bounded(value: u8, x: usize, y: usize)
    ensures
        -4 <= dither_offset_at(x, y) <= 3,
        value - 4 <= dither_shifted(value, x, y) <= value + 3,
        dither_shifted(value, x, y) - 7 <= dither_channel(value, x, y) <= dither_shifted(
            value,
            x,
            y,
        ),
        dither_channel(value, x, y) % 8 == 0,
{
    assert(x & 3 < 4) by (bit_vector);
    assert(y & 3 < 4) by (bit_vector);
    let shifted = dither_shifted(value, x, y);
    assert(shifted & 0xF8 <= shifted && shifted - (shifted & 0xF8) <= 7 && (shifted & 0xF8) % 8
        == 0) by (bit_vector);
}

/// Dithering sees a pixel's position only through its place in the 4x4 tile:
/// two pixels whose coordinates agree in their low two bits dither alike.
pub proof fn lemma_dither_tiles(color: Color, x1: usize, y1: usize, x2: usize, y2: usize)
    requires
        x1 & 3 == x2 & 3,
        y1 & 3 == y2 & 3,
    ensures
        dithered(color, x1, y1) == dithered(color, x2, y2),
{
}

} // verus!
