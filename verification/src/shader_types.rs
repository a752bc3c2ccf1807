//! The vertex layout and the argument slots that a presenting shader expects.

use vstd::prelude::*;

verus! {

/// A vertex of the quad that presents the frame: a position and a texture
/// coordinate, each a pair of 32-bit words packed into one 64-bit word.
#[derive(Clone, Copy, Debug, PartialEq, Eq, Structural)]
pub struct TexturedVertex {
    pub position: u64,
    pub texture_coord: u64,
}

/// Two 32-bit words as one 64-bit word, the first in the low half.
pub open spec fn packed(lo: u32, hi: u32) -> int {
    lo + hi * 0x1_0000_0000
}

fn pack(lo: u32, hi: u32) -> (r: u64)
    ensures
        r == packed(lo, hi),
{
    (lo as u64) + (hi as u64) * 4294967296
}

impl TexturedVertex {
    /// A vertex from the bit patterns of its position (`x`, `y`) and of its
    /// texture coordinate (`u`, `v`).
    pub fn new(x: u32, y: u32, u: u32, v: u32) -> (r: TexturedVertex)
        ensures
            r.position == packed(x, y),
            r.texture_coord == packed(u, v),
    {
        TexturedVertex { position: pack(x, y), texture_coord: pack(u, v) }
    }
}

/// The argument slots of the vertex stage.
#[derive(Clone, Copy, Debug, PartialEq, Eq, Structural)]
pub enum VertexInput {
    Vertices,
    ViewportSize,
}

impl VertexInput {
    /// The number of the slot.
    pub fn index(&self) -> (r: u64)
        ensures
            r == match *self {
                VertexInput::Vertices => 0u64,
                VertexInput::ViewportSize => 1u64,
            },
    {
        match self {
            VertexInput::Vertices => 0,
            VertexInput::ViewportSize => 1,
        }
    }
}

/// The texture slots of the fragment stage.
#[derive(Clone, Copy, Debug, PartialEq, Eq, Structural)]
pub enum TextureIndex {
    BaseColor,
}

impl TextureIndex {
    /// The number of the slot.
    pub fn index(&self) -> (r: u64)
        ensures
            r == 0,
    {
        0
    }
}

} // verus!
