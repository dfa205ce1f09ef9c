//! Two-component vectors: grid positions, signed displacements and sizes.
use vstd::prelude::*;
use vstd::std_specs::convert::FromSpecImpl;

verus! {

/// A pair of coordinates.
#[derive(Clone, Copy, PartialEq, Eq, Debug, Structural)]
pub struct Vec2<T> {
    pub x: T,
    pub y: T,
}

/// A signed position or displacement.
pub type Position = Vec2<i64>;

/// An unsigned position on the grid.
pub type UPosition = Vec2<u64>;

/// The width and height of the grid.
pub type Size = Vec2<u64>;

/// Anything that stands on a cell of the grid.
pub trait HasPosition {
    /// The cell the value stands on.
    spec fn spec_position(&self) -> UPosition;

    fn position(&self) -> (pos: UPosition)
        ensures
            pos == self.spec_position(),
    ;

    fn position_mut(&mut self) -> (pos: &mut UPosition)
        ensures
            *pos == old(self).spec_position(),
            final(self).spec_position() == *final(pos),
    ;
}

impl<T: Copy> Vec2<T> {
    /// Builds the vector `(x, y)`.
    pub fn new(x: T, y: T) -> (v: Self)
        ensures
            v.x == x,
            v.y == y,
    {
        Vec2 { x, y }
    }

    /// The first coordinate.
    pub fn x(&self) -> (x: T)
        ensures
            x == self.x,
    {
        self.x
    }

    /// The second coordinate.
    pub fn y(&self) -> (y: T)
        ensures
            y == self.y,
    {
        self.y
    }

    /// A mutable handle on the first coordinate; the second is left as it is.
    pub fn x_mut(&mut self) -> (x: &mut T)
        ensures
            *x == old(self).x,
            final(self).x == *final(x),
            final(self).y == old(self).y,
    {
        &mut self.x
    }

    /// A mutable handle on the second coordinate; the first is left as it is.
    pub fn y_mut(&mut self) -> (y: &mut T)
        ensures
            *y == old(self).y,
            final(self).y == *final(y),
            final(self).x == old(self).x,
    {
        &mut self.y
    }

    /// Overwrites both coordinates with those of `other`.
    pub fn replace(&mut self, other: Vec2<T>)
        ensures
            *final(self) == other,
    {
        self.x = other.x;
        self.y = other.y;
    }
}

impl Default for Vec2<u64> {
    fn default() -> (v: Self)
        ensures
            v == (Vec2::<u64> { x: 0, y: 0 }),
    {
        Vec2 { x: 0, y: 0 }
    }
}

impl From<(u64, u64)> for Vec2<u64> {
    fn from(pair: (u64, u64)) -> (v: Self) {
        Vec2 { x: pair.0, y: pair.1 }
    }
}

impl FromSpecImpl<(u64, u64)> for Vec2<u64> {
    open spec fn obeys_from_spec() -> bool {
        true
    }

    open spec fn from_spec(pair: (u64, u64)) -> Self {
        Vec2 { x: pair.0, y: pair.1 }
    }
}

/// The coordinate `(at + by) mod side`, with the remainder taken so that it is never
/// negative.
pub open spec fn spec_wrap(at: int, by: int, side: int) -> int {
    (at + by) % side
}

/// Moves the coordinate `at` by `by` steps on an axis that wraps after `side` cells.
pub fn wrap_add(at: u64, by: i64, side: u64) -> (wrapped: u64)
    requires
        side > 0,
    ensures
        wrapped == spec_wrap(at as int, by as int, side as int),
        wrapped < side,
{
    let sum: i128 = at as i128 + by as i128;
    let modulus: i128 = side as i128;
    assert(0 <= (sum as int) % (modulus as int) < modulus) by {
        vstd::arithmetic::div_mod::lemma_mod_bound(sum as int, modulus as int);
    }
    match sum.checked_rem_euclid(modulus) {
        Some(rest) => rest as u64,
        None => 0,
    }
}

} // verus!
