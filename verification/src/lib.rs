//! A software triangle rasterizer in the manner of a mid-nineties console:
//! nearest-neighbour textures, vertex colours that tint by 128ths, ordered
//! dithering down to five bits a channel, and a choice between a depth
//! test per pixel and painter's order per surface.
//!
//! The library works in whole numbers throughout. Depths are ordinals that
//! order as the depths they stand for (`depth`); screen positions are
//! pixels; colours are bytes. A caller that thinks in fractions does its
//! arithmetic on its own side and hands over what it has come to: for each
//! triangle its projected corners (`mesh`), and for each pixel of a
//! triangle its depth and colour (`raster`). What is drawn, where, in which
//! order and over what is decided here.
//!
//! - `color`, `texture`: colours, blending, tinting, dithering; textures
//!   and the texture table.
//! - `depth`: depth ordinals.
//! - `frame`, `framebuffer`: the picture as a mathematical value and as
//!   bytes, and single-pixel writes.
//! - `line`, `shapes`: lines, rectangles, discs and thick lines.
//! - `mesh`, `raster`, `wireframe`, `render`: planning a render call and
//!   carrying it out.
//! - `reverb`: the sound unit's reverb, sample by sample, and its presets.
//! - `world`, `editor`: texture references and grid directions of the
//!   level model; the editor's tools and selections.

pub mod color;
pub mod depth;
pub mod editor;
pub mod frame;
pub mod framebuffer;
pub mod line;
pub mod mesh;
pub mod raster;
pub mod render;
pub mod reverb;
pub mod shapes;
pub mod texture;
pub mod wireframe;
pub mod world;
