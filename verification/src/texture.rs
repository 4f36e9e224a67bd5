//! Textures and the texture table.

use vstd::prelude::*;
use crate::color::Color;

verus! {

/// A grid of colours, row by row from the top.
#[derive(Debug, Clone)]
pub struct Texture {
    pub width: usize,
    pub height: usize,
    pub pixels: Vec<Color>,
}

/// The colour of a checkerboard of 4x4 squares at `(x, y)`: the square at the
/// origin has the first colour.
pub open spec fn square_color(x: int, y: int, color1: Color, color2: Color) -> Color {
    if (x / 4 + y / 4) % 2 == 0 {
        color1
    } else {
        color2
    }
}

/// What a pixel shows where no texture is bound.
pub open spec fn untextured() -> Color {
    Color::new(255, 255, 255)
}

/// The texture that a reference into a table of `len` textures means, if any:
/// a reference must be present and in range.
pub open spec fn resolved(len: nat, id: Option<usize>) -> Option<int> {
    match id {
        Some(i) => if i < len {
            Some(i as int)
        } else {
            None
        },
        None => None,
    }
}

impl Texture {
    /// The texture has pixels, and as many as its size calls for.
    pub open spec fn wf(&self) -> bool {
        &&& self.width > 0
        &&& self.height > 0
        &&& self.pixels@.len() == self.width * self.height
    }

    /// The texel at `(tx, ty)`, with both coordinates wrapped round the
    /// texture's size. A texture without pixels, or with fewer than its size
    /// calls for, shows as untextured.
    pub open spec fn texel(&self, tx: int, ty: int) -> Color {
        if self.wf() {
            self.pixels@[(ty % (self.height as int)) * self.width + tx % (self.width as int)]
        } else {
            untextured()
        }
    }

    /// An all-white texture.
    pub fn new(width: usize, height: usize) -> (t: Texture)
        requires
            width * height <= usize::MAX,
        ensures
            t.width == width,
            t.height == height,
            t.pixels@ == Seq::new((width * height) as nat, |i: int| Color::new(255, 255, 255)),
    {
        let t = Texture { width, height, pixels: vec![Color::white(); width * height] };
        assert(t.pixels@ =~= Seq::new((width * height) as nat, |i: int| Color::new(255, 255, 255)));
        t
    }

    /// A checkerboard of 4x4 squares in two colours.
    pub fn checkerboard(width: usize, height: usize, color1: Color, color2: Color) -> (t: Texture)
        requires
            width * height <= usize::MAX,
        ensures
            t.width == width,
            t.height == height,
            t.pixels@.len() == width * height,
            forall|x: int, y: int|
                0 <= x < width && 0 <= y < height ==> #[trigger] t.pixels@[y * width + x]
                    == square_color(x, y, color1, color2),
    {
        let mut pixels: Vec<Color> = Vec::with_capacity(width * height);
        let mut y: usize = 0;
        while y < height
            invariant
                y <= height,
                width * height <= usize::MAX,
                pixels@.len() == y * width,
                forall|i: int, j: int|
                    0 <= i < width && 0 <= j < y ==> #[trigger] pixels@[j * width + i]
                        == square_color(i, j, color1, color2),
            decreases height - y,
        {
            let mut x: usize = 0;
            while x < width
                invariant
                    x <= width,
                    y < height,
                    pixels@.len() == y * width + x,
                    forall|i: int, j: int|
                        0 <= i < width && 0 <= j < y ==> #[trigger] pixels@[j * width + i]
                            == square_color(i, j, color1, color2),
                    forall|i: int|
                        0 <= i < x ==> #[trigger] pixels@[y * width + i] == square_color(
                            i,
                            y as int,
                            color1,
                            color2,
                        ),
                decreases width - x,
            {
                let ghost old_pixels = pixels@;
                let first = (x / 4 + y / 4) % 2 == 0;
                pixels.push(
                    if first {
                        color1
                    } else {
                        color2
                    },
                );
                proof {
                    assert forall|i: int, j: int| 0 <= i < width && 0 <= j < y implies #[trigger] pixels@[j
                        * width + i] == square_color(i, j, color1, color2) by {
                        crate::frame::lemma_index(width as nat, y as nat, i, j);
                        assert(pixels@[j * width + i] == old_pixels[j * width + i]);
                    }
                }
                x = x + 1;
            }
            proof {
                assert((y + 1) * width == y * width + width) by (nonlinear_arith);
                assert forall|i: int, j: int| 0 <= i < width && 0 <= j < y + 1 implies #[trigger] pixels@[j
                    * width + i] == square_color(i, j, color1, color2) by {
                    if j == y {
                        assert(pixels@[y * width + i] == square_color(i, y as int, color1, color2));
                    }
                }
            }
            y = y + 1;
        }
        assert(height * width == width * height) by (nonlinear_arith);
        Texture { width, height, pixels }
    }

    /// The texel at `(tx, ty)`, nearest neighbour: the coordinates wrap round
    /// the texture, neither held to its edge nor filtered.
    pub fn sample(&self, tx: usize, ty: usize) -> (c: Color)
        ensures
            c == self.texel(tx as int, ty as int),
    {
        if self.width == 0 || self.height == 0 {
            return Color::white();
        }
        let col: usize = tx % self.width;
        let row: usize = ty % self.height;
        let have: usize = self.pixels.len();
        match self.width.checked_mul(self.height) {
            Some(count) => {
                if have == count {
                    proof {
                        crate::frame::lemma_index(
                            self.width as nat,
                            self.height as nat,
                            col as int,
                            row as int,
                        );
                    }
                    self.pixels[row * self.width + col]
                } else {
                    Color::white()
                }
            },
            None => Color::white(),
        }
    }
}

impl Texture {
    /// Texels repeat: a whole width further along, or a whole height
    /// further down, a texture shows the same texel.
    pub proof fn lemma_texel_wraps(&self, tx: int, ty: int)
        requires
            tx >= 0,
            ty >= 0,
        ensures
            self.texel(tx + self.width, ty) == self.texel(tx, ty),
            self.texel(tx, ty + self.height) == self.texel(tx, ty),
            self.wf() ==> self.texel(tx, ty) == self.texel(
                tx % (self.width as int),
                ty % (self.height as int),
            ),
    {
        if self.wf() {
            let w = self.width as int;
            let h = self.height as int;
            vstd::arithmetic::div_mod::lemma_mod_add_multiples_vanish(tx, w);
            vstd::arithmetic::div_mod::lemma_mod_add_multiples_vanish(ty, h);
            vstd::arithmetic::div_mod::lemma_mod_twice(tx, w);
            vstd::arithmetic::div_mod::lemma_mod_twice(ty, h);
        }
    }
}

/// The texture that a face's reference means: the table's entry, or nothing
/// where the face has no reference or one past the table's end.
pub fn lookup_texture(textures: &[Texture], id: Option<usize>) -> (t: Option<&Texture>)
    ensures
        match resolved(textures@.len(), id) {
            Some(i) => t == Some(&textures@[i]),
            None => t is None,
        },
{
    match id {
        Some(i) => if i < textures.len() {
            Some(&textures[i])
        } else {
            None
        },
        None => None,
    }
}

/// The colour that a bound texture, or its absence, gives a pixel before
/// tinting: the wrapped texel, or opaque white.
pub fn sample_or_white(texture: Option<&Texture>, tx: usize, ty: usize) -> (c: Color)
    ensures
        c == (match texture {
            Some(t) => t.texel(tx as int, ty as int),
            None => untextured(),
        }),
{
    match texture {
        Some(t) => t.sample(tx, ty),
        None => Color::white(),
    }
}

} // verus!
