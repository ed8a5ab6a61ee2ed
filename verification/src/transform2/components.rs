//! The components that the propagation pass reads and writes.

use crate::scalar::Scalar;
use vstd::prelude::*;

verus! {

/// A pair of scalars: a position or a scale in the plane.
#[derive(Clone, Copy, Debug, PartialEq, Eq, Hash)]
pub struct Vec2<S> {
    /// The horizontal part.
    pub x: S,
    /// The vertical part.
    pub y: S,
}

impl<S: Scalar> Vec2<S> {
    /// The pair `(0, 0)`.
    pub open spec fn spec_zero() -> Vec2<S> {
        Vec2 { x: S::spec_zero(), y: S::spec_zero() }
    }

    /// The pair `(1, 1)`.
    pub open spec fn spec_one() -> Vec2<S> {
        Vec2 { x: S::spec_one(), y: S::spec_one() }
    }

    /// The pair `(x, y)`.
    pub fn new(x: S, y: S) -> (v: Vec2<S>)
        ensures
            v == (Vec2 { x, y }),
    {
        Vec2 { x, y }
    }

    /// The pair `(0, 0)`.
    #[verifier::when_used_as_spec(spec_zero)]
    pub fn zero() -> (v: Vec2<S>)
        ensures
            v == Vec2::<S>::spec_zero(),
    {
        Vec2 { x: S::zero(), y: S::zero() }
    }

    /// The pair `(1, 1)`.
    #[verifier::when_used_as_spec(spec_one)]
    pub fn one() -> (v: Vec2<S>)
        ensures
            v == Vec2::<S>::spec_one(),
    {
        Vec2 { x: S::one(), y: S::one() }
    }
}

/// A triple of scalars: a position or a scale in space.
#[derive(Clone, Copy, Debug, PartialEq, Eq, Hash)]
pub struct Vec3<S> {
    /// The horizontal part.
    pub x: S,
    /// The vertical part.
    pub y: S,
    /// The depth part.
    pub z: S,
}

impl<S: Scalar> Vec3<S> {
    /// The triple `(0, 0, 0)`.
    pub open spec fn spec_zero() -> Vec3<S> {
        Vec3 { x: S::spec_zero(), y: S::spec_zero(), z: S::spec_zero() }
    }

    /// The triple `(1, 1, 1)`.
    pub open spec fn spec_one() -> Vec3<S> {
        Vec3 { x: S::spec_one(), y: S::spec_one(), z: S::spec_one() }
    }

    /// The triple `(x, y, z)`.
    pub fn new(x: S, y: S, z: S) -> (v: Vec3<S>)
        ensures
            v == (Vec3 { x, y, z }),
    {
        Vec3 { x, y, z }
    }

    /// The triple `(0, 0, 0)`.
    #[verifier::when_used_as_spec(spec_zero)]
    pub fn zero() -> (v: Vec3<S>)
        ensures
            v == Vec3::<S>::spec_zero(),
    {
        Vec3 { x: S::zero(), y: S::zero(), z: S::zero() }
    }

    /// The triple `(1, 1, 1)`.
    #[verifier::when_used_as_spec(spec_one)]
    pub fn one() -> (v: Vec3<S>)
        ensures
            v == Vec3::<S>::spec_one(),
    {
        Vec3 { x: S::one(), y: S::one(), z: S::one() }
    }
}

/// The transform that the renderer consumes: a position in space, a rotation
/// about the z axis and a scale.
///
/// The propagation pass owns `translation`, `rotation` and the x and y parts
/// of `scale`; it never writes the z part of `scale`.
#[derive(Clone, Copy, Debug, PartialEq, Eq, Hash)]
pub struct Transform<S> {
    /// The position; its z part orders entities from back to front.
    pub translation: Vec3<S>,
    /// The angle of the rotation about the z axis.
    pub rotation: S,
    /// The scale on each axis.
    pub scale: Vec3<S>,
}

impl<S: Scalar> Transform<S> {
    /// The transform that moves, turns and scales nothing.
    pub open spec fn identity() -> Transform<S> {
        Transform {
            translation: Vec3::<S>::spec_zero(),
            rotation: S::spec_zero(),
            scale: Vec3::<S>::spec_one(),
        }
    }

    /// A transform at `translation`, with no rotation and a scale of 1 on
    /// all axes.
    pub fn from_translation(translation: Vec3<S>) -> (t: Transform<S>)
        ensures
            t == (Transform { translation, ..Transform::<S>::identity() }),
    {
        Transform { translation, rotation: S::zero(), scale: Vec3::one() }
    }
}

impl<S: Scalar> Default for Transform<S> {
    fn default() -> (t: Transform<S>)
        ensures
            t == Transform::<S>::identity(),
    {
        Transform { translation: Vec3::zero(), rotation: S::zero(), scale: Vec3::one() }
    }
}

/// A transform in the plane, relative to the parent entity.
///
/// Depth is kept apart from it, in [`Depth`]: this transform never touches
/// the z translation of the entity's [`Transform`].
#[derive(Clone, Copy, Debug, PartialEq, Eq, Hash)]
pub struct Transform2<S> {
    /// The position in the plane.
    pub translation: Vec2<S>,
    /// The angle of the rotation.
    pub rotation: S,
    /// The scale on each axis of the plane.
    pub scale: Vec2<S>,
}

impl<S: Scalar> Transform2<S> {
    /// The transform with no translation, no rotation and a scale of 1 on
    /// both axes.
    pub open spec fn identity() -> Transform2<S> {
        Transform2 {
            translation: Vec2::<S>::spec_zero(),
            rotation: S::spec_zero(),
            scale: Vec2::<S>::spec_one(),
        }
    }

    /// A transform at the position `(x, y)`, otherwise the identity.
    #[inline]
    #[must_use]
    pub fn from_xy(x: S, y: S) -> (t: Transform2<S>)
        ensures
            t == (Transform2 { translation: Vec2 { x, y }, ..Transform2::<S>::identity() }),
    {
        Transform2::from_translation(Vec2::new(x, y))
    }

    /// A transform with `translation`, no rotation and a scale of 1 on both
    /// axes.
    #[inline]
    #[must_use]
    pub fn from_translation(translation: Vec2<S>) -> (t: Transform2<S>)
        ensures
            t == (Transform2 { translation, ..Transform2::<S>::identity() }),
    {
        Transform2 { translation, rotation: S::zero(), scale: Vec2::one() }
    }

    /// A transform with `rotation`, no translation and a scale of 1 on both
    /// axes.
    #[inline]
    #[must_use]
    pub fn from_rotation(rotation: S) -> (t: Transform2<S>)
        ensures
            t == (Transform2 { rotation, ..Transform2::<S>::identity() }),
    {
        Transform2 { translation: Vec2::zero(), rotation, scale: Vec2::one() }
    }

    /// A transform with `scale`, no translation and no rotation.
    #[inline]
    #[must_use]
    pub fn from_scale(scale: Vec2<S>) -> (t: Transform2<S>)
        ensures
            t == (Transform2 { scale, ..Transform2::<S>::identity() }),
    {
        Transform2 { translation: Vec2::zero(), rotation: S::zero(), scale }
    }

    /// This transform with a new translation.
    #[inline]
    #[must_use]
    pub fn with_translation(self, translation: Vec2<S>) -> (t: Transform2<S>)
        ensures
            t == (Transform2 { translation, ..self }),
    {
        Transform2 { translation, rotation: self.rotation, scale: self.scale }
    }

    /// This transform with a new rotation.
    #[inline]
    #[must_use]
    pub fn with_rotation(self, rotation: S) -> (t: Transform2<S>)
        ensures
            t == (Transform2 { rotation, ..self }),
    {
        Transform2 { translation: self.translation, rotation, scale: self.scale }
    }

    /// This transform with a new scale.
    #[inline]
    #[must_use]
    pub fn with_scale(self, scale: Vec2<S>) -> (t: Transform2<S>)
        ensures
            t == (Transform2 { scale, ..self }),
    {
        Transform2 { translation: self.translation, rotation: self.rotation, scale }
    }
}

impl<S: Scalar> Default for Transform2<S> {
    fn default() -> (t: Transform2<S>)
        ensures
            t == Transform2::<S>::identity(),
    {
        Transform2 { translation: Vec2::zero(), rotation: S::zero(), scale: Vec2::one() }
    }
}

/// The z value that an entity asks for.
///
/// The pass writes the answer into the z translation of the entity's
/// [`Transform`], which is relative to the parent.
#[derive(Clone, Copy, Debug, PartialEq, Eq, Hash)]
pub enum Depth<S> {
    /// The entity asks for exactly this z value, whatever its ancestors hold.
    Exact(S),
    /// The entity asks for the z value of its parent plus this offset.
    Inherit(S),
}

} // verus!
