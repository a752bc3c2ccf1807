//! Small fixed-point vectors.

use vstd::prelude::*;

verus! {

/// Two fixed-point components.
#[derive(Clone, Copy, Debug, PartialEq, Eq, Structural)]
pub struct Vec2 {
    pub x: i32,
    pub y: i32,
}

/// Three fixed-point components.
#[derive(Clone, Copy, Debug, PartialEq, Eq, Structural)]
pub struct Vec3 {
    pub x: i32,
    pub y: i32,
    pub z: i32,
}

/// Four fixed-point components.
#[derive(Clone, Copy, Debug, PartialEq, Eq, Structural)]
pub struct Vec4 {
    pub x: i32,
    pub y: i32,
    pub z: i32,
    pub w: i32,
}

/// Three vertex indices.
#[derive(Clone, Copy, Debug, PartialEq, Eq, Structural)]
pub struct UVec3 {
    pub x: u32,
    pub y: u32,
    pub z: u32,
}

pub fn vec2(x: i32, y: i32) -> (v: Vec2)
    ensures
        v == (Vec2 { x, y }),
{
    Vec2 { x, y }
}

pub fn vec3(x: i32, y: i32, z: i32) -> (v: Vec3)
    ensures
        v == (Vec3 { x, y, z }),
{
    Vec3 { x, y, z }
}

pub fn vec4(x: i32, y: i32, z: i32, w: i32) -> (v: Vec4)
    ensures
        v == (Vec4 { x, y, z, w }),
{
    Vec4 { x, y, z, w }
}

pub fn uvec3(x: u32, y: u32, z: u32) -> (v: UVec3)
    ensures
        v == (UVec3 { x, y, z }),
{
    UVec3 { x, y, z }
}

} // verus!
