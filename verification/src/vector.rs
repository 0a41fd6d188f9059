use vstd::prelude::*;

verus! {

/// A plain two-component vector.
#[derive(Clone, Copy, Debug, PartialEq, Eq, Structural)]
pub struct Vector2<T>(pub T, pub T);

/// A plain three-component vector; `Vector3<i32>` carries block
/// positions through the codec.
#[derive(Clone, Copy, Debug, PartialEq, Eq, Structural)]
pub struct Vector3<T>(pub T, pub T, pub T);

pub type Vector2i = Vector2<i32>;

pub type Vector2u = Vector2<u32>;

pub type Vector3i = Vector3<i32>;

pub type Vector3u = Vector3<u32>;

impl<T> Vector2<T> {
    pub fn new(x: T, y: T) -> (r: Self)
        ensures
            r.0 == x,
            r.1 == y,
    {
        Vector2(x, y)
    }
}

impl<T> Vector3<T> {
    pub fn new(x: T, y: T, z: T) -> (r: Self)
        ensures
            r.0 == x,
            r.1 == y,
            r.2 == z,
    {
        Vector3(x, y, z)
    }
}

} // verus!
