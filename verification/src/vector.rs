//! The vector arithmetic that the pointer mapping takes from the engine's
//! math library.
//!
//! Texture coordinates, cursor positions and barycentric weights are the
//! engine's own vector values. The library never looks inside one: it hands
//! them to the math library's operators and carries the results on. Each
//! operator is reached through one small function below whose contract is
//! believed, not proved; it equates the result with a named function of the
//! arguments, so that contracts elsewhere can say exactly which operator was
//! applied to which values, and in which order.

use bevy::math::UVec2;
use bevy::math::Vec2;
use bevy::math::Vec3;
use vstd::prelude::*;

verus! {

/// `glam::Vec2`, a pair of single-precision coordinates. Opaque here.
#[verifier::external_type_specification]
#[verifier::external_body]
pub struct ExVec2(Vec2);

/// `glam::Vec3`, a triple of single-precision coordinates. Opaque here.
#[verifier::external_type_specification]
#[verifier::external_body]
pub struct ExVec3(Vec3);

/// What `glam`'s `Vec2 + Vec2` returns: the component-wise sum.
pub uninterp spec fn vec2_sum(a: Vec2, b: Vec2) -> Vec2;

/// What `glam`'s `Vec2 - Vec2` returns: the component-wise difference.
pub uninterp spec fn vec2_difference(a: Vec2, b: Vec2) -> Vec2;

/// What `glam`'s `Vec2 * Vec2` returns: the component-wise product.
pub uninterp spec fn vec2_product(a: Vec2, b: Vec2) -> Vec2;

/// What `glam` returns for component `axis` of `weights` (0 for `x`, 1 for
/// `y`, 2 for `z`) times the vector `v`.
pub uninterp spec fn vec2_scaled(weights: Vec3, axis: int, v: Vec2) -> Vec2;

/// What `glam`'s `Vec2 != Vec2` returns: whether some component differs.
pub uninterp spec fn vec2_differs(a: Vec2, b: Vec2) -> bool;

/// What `glam`'s `UVec2::as_vec2` returns for the integer pair
/// `(width, height)`: both numbers cast to single precision.
pub uninterp spec fn uvec2_as_vec2(width: int, height: int) -> Vec2;

/// `glam`'s `impl Add<Vec2> for Vec2`. The result is named, not described.
#[verifier::external_body]
pub(crate) fn sum(a: Vec2, b: Vec2) -> (r: Vec2)
    ensures
        r == vec2_sum(a, b),
{
    a + b
}

/// `glam`'s `impl Sub<Vec2> for Vec2`. The result is named, not described.
#[verifier::external_body]
pub(crate) fn difference(a: Vec2, b: Vec2) -> (r: Vec2)
    ensures
        r == vec2_difference(a, b),
{
    a - b
}

/// `glam`'s `impl Mul<Vec2> for Vec2`. The result is named, not described.
#[verifier::external_body]
pub(crate) fn product(a: Vec2, b: Vec2) -> (r: Vec2)
    ensures
        r == vec2_product(a, b),
{
    a * b
}

/// `glam`'s `impl Mul<Vec2> for f32`, applied to one component of `weights`
/// picked by `glam`'s `impl Index<usize> for Vec3`. That index panics above
/// 2, which the precondition leaves out.
#[verifier::external_body]
pub(crate) fn scaled(weights: Vec3, axis: usize, v: Vec2) -> (r: Vec2)
    requires
        axis < 3,
    ensures
        r == vec2_scaled(weights, axis as int, v),
{
    weights[axis] * v
}

/// `glam`'s derived `PartialEq` for `Vec2`, through `!=`. Nothing is claimed
/// about when two vectors differ: a vector holding a NaN differs from itself.
#[verifier::external_body]
pub(crate) fn differs(a: Vec2, b: Vec2) -> (r: bool)
    ensures
        r == vec2_differs(a, b),
{
    a != b
}

/// `glam`'s `UVec2::as_vec2`, on the pair built by `UVec2::new`.
#[verifier::external_body]
pub(crate) fn as_vec2(width: u32, height: u32) -> (r: Vec2)
    ensures
        r == uvec2_as_vec2(width as int, height as int),
{
    UVec2::new(width, height).as_vec2()
}

} // verus!
