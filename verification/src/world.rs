//! Small pieces of the level model that the renderer's callers share:
//! references to textures by name, and the four directions of the sector
//! grid.

use vstd::prelude::*;

verus! {

/// The longest pack or texture name, in bytes, that a level may hold.
pub const MAX_STRING_LEN: usize = 256;

/// A texture named by its pack and its own name, without extension.
#[derive(Debug, Clone, PartialEq, Eq)]
pub struct TextureRef {
    pub pack: String,
    pub name: String,
}

/// Why a texture reference is refused.
#[derive(Debug, Clone, Copy, PartialEq, Eq, Structural)]
pub enum TextureRefError {
    /// The pack name has `len` bytes, more than `MAX_STRING_LEN`.
    PackNameTooLong { len: usize },
    /// The texture name has `len` bytes, more than `MAX_STRING_LEN`.
    NameTooLong { len: usize },
}

impl TextureRef {
    pub fn new(pack: String, name: String) -> (t: TextureRef)
        ensures
            t.pack@ == pack@,
            t.name@ == name@,
    {
        TextureRef { pack, name }
    }

    /// The reference that names nothing.
    pub fn none() -> (t: TextureRef)
        ensures
            t.pack@.len() == 0,
            t.name@.len() == 0,
    {
        TextureRef { pack: String::new(), name: String::new() }
    }

    /// Whether the reference names something: neither part is empty.
    pub fn is_valid(&self) -> (valid: bool)
        ensures
            valid == (self.pack@.len() > 0 && self.name@.len() > 0),
    {
        !self.pack.as_str().is_empty() && !self.name.as_str().is_empty()
    }
}

impl Default for TextureRef {
    fn default() -> (t: TextureRef)
        ensures
            t.pack@.len() == 0,
            t.name@.len() == 0,
    {
        TextureRef::none()
    }
}

/// The number of bytes that a text takes, which is how a level counts the
/// length of a name.
pub open spec fn byte_len(text: Seq<char>) -> usize {
    vstd::utf8::encode_utf8(text).len() as usize
}

/// The verdict on a reference whose parts have the given lengths in bytes:
/// the pack name is looked at first.
pub open spec fn texture_ref_verdict(pack_len: usize, name_len: usize) -> Result<
    (),
    TextureRefError,
> {
    if pack_len > MAX_STRING_LEN {
        Err(TextureRefError::PackNameTooLong { len: pack_len })
    } else if name_len > MAX_STRING_LEN {
        Err(TextureRefError::NameTooLong { len: name_len })
    } else {
        Ok(())
    }
}

/// Checks that neither name of a reference is longer than a level may hold.
pub fn validate_texture_ref(tex: &TextureRef) -> (r: Result<(), TextureRefError>)
    ensures
        r == texture_ref_verdict(byte_len(tex.pack@), byte_len(tex.name@)),
{
    let pack_len: usize = tex.pack.as_str().len();
    let name_len: usize = tex.name.as_str().len();
    if pack_len > MAX_STRING_LEN {
        Err(TextureRefError::PackNameTooLong { len: pack_len })
    } else if name_len > MAX_STRING_LEN {
        Err(TextureRefError::NameTooLong { len: name_len })
    } else {
        Ok(())
    }
}

/// A side of a sector.
#[derive(Debug, Clone, Copy, PartialEq, Eq, Structural, Hash)]
pub enum Direction {
    /// Towards smaller `z`.
    North,
    /// Towards larger `x`.
    East,
    /// Towards larger `z`.
    South,
    /// Towards smaller `x`.
    West,
}

impl Direction {
    pub open spec fn spec_opposite(self) -> Direction {
        match self {
            Direction::North => Direction::South,
            Direction::East => Direction::West,
            Direction::South => Direction::North,
            Direction::West => Direction::East,
        }
    }

    /// The step to the neighbouring sector, in grid coordinates `(x, z)`.
    pub open spec fn spec_offset(self) -> (i32, i32) {
        match self {
            Direction::North => (0i32, -1i32),
            Direction::East => (1i32, 0i32),
            Direction::South => (0i32, 1i32),
            Direction::West => (-1i32, 0i32),
        }
    }

    #[verifier::when_used_as_spec(spec_opposite)]
    pub fn opposite(self) -> (d: Direction)
        ensures
            d == self.spec_opposite(),
    {
        match self {
            Direction::North => Direction::South,
            Direction::East => Direction::West,
            Direction::South => Direction::North,
            Direction::West => Direction::East,
        }
    }

    #[verifier::when_used_as_spec(spec_offset)]
    pub fn offset(self) -> (step: (i32, i32))
        ensures
            step == self.spec_offset(),
    {
        match self {
            Direction::North => (0, -1),
            Direction::East => (1, 0),
            Direction::South => (0, 1),
            Direction::West => (-1, 0),
        }
    }

    /// Turning round twice faces the same way, and the step to the
    /// opposite side undoes the step to this one.
    pub proof fn lemma_opposite(self)
        ensures
            self.opposite().opposite() == self,
            self.opposite() != self,
            self.opposite().offset().0 == -self.offset().0,
            self.opposite().offset().1 == -self.offset().1,
    {
    }
}

} // verus!
