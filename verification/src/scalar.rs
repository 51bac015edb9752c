use vstd::prelude::*;

verus! {

/// Bit pattern of the single-precision number 0.
pub const ZERO_BITS: u32 = 0;

/// Bit pattern of the single-precision number 1.
pub const ONE_BITS: u32 = 0x3F80_0000;

/// A single-precision number, held as its IEEE-754 bit pattern. The library
/// stores, copies and serialises such numbers; it never computes with them.
#[derive(Clone, Copy, Debug, PartialEq, Eq, Structural)]
pub struct Scalar {
    pub bits: u32,
}

/// A point or extent in a widget's local frame.
#[derive(Clone, Copy, Debug, PartialEq, Eq, Structural)]
pub struct Vec2 {
    pub x: Scalar,
    pub y: Scalar,
}

/// A point or direction in space.
#[derive(Clone, Copy, Debug, PartialEq, Eq, Structural)]
pub struct Vec3 {
    pub x: Scalar,
    pub y: Scalar,
    pub z: Scalar,
}

/// Four components: a colour (red, green, blue, alpha), or four widths
/// (left, right, top, bottom).
#[derive(Clone, Copy, Debug, PartialEq, Eq, Structural)]
pub struct Vec4 {
    pub x: Scalar,
    pub y: Scalar,
    pub z: Scalar,
    pub w: Scalar,
}

/// A rotation: scalar part `s`, vector part `(x, y, z)`.
#[derive(Clone, Copy, Debug, PartialEq, Eq, Structural)]
pub struct Quat {
    pub s: Scalar,
    pub x: Scalar,
    pub y: Scalar,
    pub z: Scalar,
}

/// A 4x4 matrix by columns.
#[derive(Clone, Copy, Debug, PartialEq, Eq, Structural)]
pub struct Mat4 {
    pub x: Vec4,
    pub y: Vec4,
    pub z: Vec4,
    pub w: Vec4,
}

/// Where a widget sits in its parent's frame: what a transform is composed from.
#[derive(Clone, Copy, Debug, PartialEq, Eq, Structural)]
pub struct Placement {
    pub position: Vec2,
    pub rotation: Quat,
    pub width: Scalar,
    pub height: Scalar,
}

impl Scalar {
    pub open spec fn spec_zero() -> Scalar {
        Scalar { bits: ZERO_BITS }
    }

    pub open spec fn spec_one() -> Scalar {
        Scalar { bits: ONE_BITS }
    }

    #[verifier::when_used_as_spec(spec_zero)]
    pub fn zero() -> (r: Scalar)
        ensures
            r == Scalar::spec_zero(),
    {
        Scalar { bits: ZERO_BITS }
    }

    #[verifier::when_used_as_spec(spec_one)]
    pub fn one() -> (r: Scalar)
        ensures
            r == Scalar::spec_one(),
    {
        Scalar { bits: ONE_BITS }
    }
}

impl Vec2 {
    pub open spec fn spec_origin() -> Vec2 {
        Vec2 { x: Scalar::zero(), y: Scalar::zero() }
    }

    /// The point (0, 0).
    #[verifier::when_used_as_spec(spec_origin)]
    pub fn origin() -> (r: Vec2)
        ensures
            r == Vec2::spec_origin(),
    {
        Vec2 { x: Scalar::zero(), y: Scalar::zero() }
    }
}

impl Vec4 {
    pub open spec fn spec_zero() -> Vec4 {
        Vec4 { x: Scalar::zero(), y: Scalar::zero(), z: Scalar::zero(), w: Scalar::zero() }
    }

    /// All four components 0.
    #[verifier::when_used_as_spec(spec_zero)]
    pub fn zero() -> (r: Vec4)
        ensures
            r == Vec4::spec_zero(),
    {
        Vec4 { x: Scalar::zero(), y: Scalar::zero(), z: Scalar::zero(), w: Scalar::zero() }
    }
}

impl Quat {
    pub open spec fn spec_identity() -> Quat {
        Quat { s: Scalar::one(), x: Scalar::zero(), y: Scalar::zero(), z: Scalar::zero() }
    }

    /// The rotation that turns nothing: (1, 0, 0, 0).
    #[verifier::when_used_as_spec(spec_identity)]
    pub fn identity() -> (r: Quat)
        ensures
            r == Quat::spec_identity(),
    {
        Quat { s: Scalar::one(), x: Scalar::zero(), y: Scalar::zero(), z: Scalar::zero() }
    }
}

impl Mat4 {
    pub open spec fn spec_identity() -> Mat4 {
        Mat4 {
            x: Vec4 { x: Scalar::one(), y: Scalar::zero(), z: Scalar::zero(), w: Scalar::zero() },
            y: Vec4 { x: Scalar::zero(), y: Scalar::one(), z: Scalar::zero(), w: Scalar::zero() },
            z: Vec4 { x: Scalar::zero(), y: Scalar::zero(), z: Scalar::one(), w: Scalar::zero() },
            w: Vec4 { x: Scalar::zero(), y: Scalar::zero(), z: Scalar::zero(), w: Scalar::one() },
        }
    }

    /// The identity matrix: ones on the diagonal.
    #[verifier::when_used_as_spec(spec_identity)]
    pub fn identity() -> (r: Mat4)
        ensures
            r == Mat4::spec_identity(),
    {
        let o = Scalar::one();
        let z = Scalar::zero();
        Mat4 {
            x: Vec4 { x: o, y: z, z: z, w: z },
            y: Vec4 { x: z, y: o, z: z, w: z },
            z: Vec4 { x: z, y: z, z: o, w: z },
            w: Vec4 { x: z, y: z, z: z, w: o },
        }
    }
}

} // verus!
