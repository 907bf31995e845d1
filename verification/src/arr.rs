//! Vectors and matrices as plain arrays, the form in which they are
//! written into GPU buffers.
use vstd::prelude::*;

verus! {

/// Conversion into a plain array.
pub trait ToArr {
    type Output;

    fn to_arr(&self) -> Self::Output;
}

/// Construction from a plain array.
pub trait FromArr: Sized {
    type Input;

    fn from_arr(array: Self::Input) -> Self;
}

/// A vector of three components.
#[derive(Clone, Copy, Debug, PartialEq, Eq, Structural)]
pub struct Vector3<T> {
    pub x: T,
    pub y: T,
    pub z: T,
}

/// A vector of four components.
#[derive(Clone, Copy, Debug, PartialEq, Eq, Structural)]
pub struct Vector4<T> {
    pub x: T,
    pub y: T,
    pub z: T,
    pub w: T,
}

/// A 4 by 4 matrix given by its four columns.
#[derive(Clone, Copy, Debug, PartialEq, Eq, Structural)]
pub struct Matrix4<T> {
    pub x: Vector4<T>,
    pub y: Vector4<T>,
    pub z: Vector4<T>,
    pub w: Vector4<T>,
}

/// The components of a three-vector, in order.
pub open spec fn vec3_seq<T>(v: Vector3<T>) -> Seq<T> {
    seq![v.x, v.y, v.z]
}

/// The three-vector with the components `s[0]`, `s[1]`, `s[2]`.
pub open spec fn vec3_of<T>(s: Seq<T>) -> Vector3<T> {
    Vector3 { x: s[0], y: s[1], z: s[2] }
}

/// The components of a four-vector, in order.
pub open spec fn vec4_seq<T>(v: Vector4<T>) -> Seq<T> {
    seq![v.x, v.y, v.z, v.w]
}

/// The four-vector with the components `s[0]` to `s[3]`.
pub open spec fn vec4_of<T>(s: Seq<T>) -> Vector4<T> {
    Vector4 { x: s[0], y: s[1], z: s[2], w: s[3] }
}

impl<T: Copy> Vector3<T> {
    pub fn new(x: T, y: T, z: T) -> (v: Vector3<T>)
        ensures
            v == (Vector3 { x, y, z }),
    {
        Vector3 { x, y, z }
    }
}

impl<T: Copy> Vector4<T> {
    pub fn new(x: T, y: T, z: T, w: T) -> (v: Vector4<T>)
        ensures
            v == (Vector4 { x, y, z, w }),
    {
        Vector4 { x, y, z, w }
    }
}

impl<T: Copy> ToArr for Vector3<T> {
    type Output = [T; 3];

    /// The components `[x, y, z]`.
    fn to_arr(&self) -> (a: [T; 3])
        ensures
            a@ == vec3_seq(*self),
    {
        let a = [self.x, self.y, self.z];
        assert(a@ =~= vec3_seq(*self));
        a
    }
}

impl<T: Copy> FromArr for Vector3<T> {
    type Input = [T; 3];

    /// The vector with components `array[0]`, `array[1]`, `array[2]`.
    fn from_arr(array: [T; 3]) -> (v: Vector3<T>)
        ensures
            v == vec3_of(array@),
    {
        Vector3::new(array[0], array[1], array[2])
    }
}

impl<T: Copy> ToArr for Vector4<T> {
    type Output = [T; 4];

    /// The components `[x, y, z, w]`.
    fn to_arr(&self) -> (a: [T; 4])
        ensures
            a@ == vec4_seq(*self),
    {
        let a = [self.x, self.y, self.z, self.w];
        assert(a@ =~= vec4_seq(*self));
        a
    }
}

impl<T: Copy> FromArr for Vector4<T> {
    type Input = [T; 4];

    /// The vector with components `array[0]` to `array[3]`.
    fn from_arr(array: [T; 4]) -> (v: Vector4<T>)
        ensures
            v == vec4_of(array@),
    {
        Vector4::new(array[0], array[1], array[2], array[3])
    }
}

impl<T: Copy> ToArr for Matrix4<T> {
    type Output = [[T; 4]; 4];

    /// The four columns, each as an array.
    fn to_arr(&self) -> (a: [[T; 4]; 4])
        ensures
            a@.len() == 4,
            a@[0]@ == vec4_seq(self.x),
            a@[1]@ == vec4_seq(self.y),
            a@[2]@ == vec4_seq(self.z),
            a@[3]@ == vec4_seq(self.w),
    {
        [self.x.to_arr(), self.y.to_arr(), self.z.to_arr(), self.w.to_arr()]
    }
}

/// Law: turning a vector into an array and back gives the vector, and
/// turning an array into a vector and back gives the array.
pub proof fn array_round_trips<T>(v3: Vector3<T>, a3: Seq<T>, v4: Vector4<T>, a4: Seq<T>)
    requires
        a3.len() == 3,
        a4.len() == 4,
    ensures
        vec3_of(vec3_seq(v3)) == v3,
        vec3_seq(vec3_of(a3)) == a3,
        vec4_of(vec4_seq(v4)) == v4,
        vec4_seq(vec4_of(a4)) == a4,
{
    assert(vec3_seq(vec3_of(a3)) =~= a3);
    assert(vec4_seq(vec4_of(a4)) =~= a4);
}

} // verus!
