//! Pairs of values along the two axes, and sizes and positions on screen.

use vstd::prelude::*;

verus! {

/// A pair of values, one for each axis.
#[derive(Clone, Copy, Debug, PartialEq, Eq, Hash)]
pub struct XY<T> {
    /// The horizontal component.
    pub x: T,
    /// The vertical component.
    pub y: T,
}

/// A size or a position on screen, in cells.
pub type Vec2 = XY<usize>;

impl<T> XY<T> {
    /// Makes a pair from its two components.
    pub fn new(x: T, y: T) -> (r: XY<T>)
        ensures
            r.x == x,
            r.y == y,
    {
        XY { x, y }
    }
}

impl XY<usize> {
    /// The origin, `(0, 0)`.
    pub fn zero() -> (r: Vec2)
        ensures
            r.x == 0,
            r.y == 0,
    {
        XY { x: 0, y: 0 }
    }

    /// `self - other`, or `None` if either component would go below zero.
    pub fn checked_sub(&self, other: Vec2) -> (r: Option<Vec2>)
        ensures
            r is Some <==> (other.x <= self.x && other.y <= self.y),
            r is Some ==> r->Some_0.x == self.x - other.x && r->Some_0.y == self.y - other.y,
    {
        if other.x <= self.x && other.y <= self.y {
            Some(XY { x: self.x - other.x, y: self.y - other.y })
        } else {
            None
        }
    }

    /// `self - other`, each component stopping at zero.
    pub fn saturating_sub(&self, other: Vec2) -> (r: Vec2)
        ensures
            r.x == if other.x <= self.x { self.x - other.x } else { 0 },
            r.y == if other.y <= self.y { self.y - other.y } else { 0 },
    {
        XY { x: self.x.saturating_sub(other.x), y: self.y.saturating_sub(other.y) }
    }

    /// Whether `self` lies in the rectangle of size `size` whose top-left
    /// corner is `top_left`.
    pub fn fits_in_rect(&self, top_left: Vec2, size: Vec2) -> (r: bool)
        ensures
            r == (top_left.x <= self.x < top_left.x + size.x && top_left.y <= self.y < top_left.y
                + size.y),
    {
        top_left.x <= self.x && self.x - top_left.x < size.x && top_left.y <= self.y && self.y
            - top_left.y < size.y
    }

    /// Component-wise sum.
    pub fn add(&self, other: Vec2) -> (r: Vec2)
        requires
            self.x + other.x <= usize::MAX,
            self.y + other.y <= usize::MAX,
        ensures
            r.x == self.x + other.x,
            r.y == self.y + other.y,
    {
        XY { x: self.x + other.x, y: self.y + other.y }
    }

    /// The box holding `self` with `other` set to its right.
    pub fn stack_horizontal(&self, other: Vec2) -> (r: Vec2)
        requires
            self.x + other.x <= usize::MAX,
        ensures
            r.x == self.x + other.x,
            r.y == if self.y >= other.y { self.y } else { other.y },
    {
        XY { x: self.x + other.x, y: if self.y >= other.y { self.y } else { other.y } }
    }

    /// The box holding `self` with `other` set below it.
    pub fn stack_vertical(&self, other: Vec2) -> (r: Vec2)
        requires
            self.y + other.y <= usize::MAX,
        ensures
            r.x == if self.x >= other.x { self.x } else { other.x },
            r.y == self.y + other.y,
    {
        XY { x: if self.x >= other.x { self.x } else { other.x }, y: self.y + other.y }
    }
}

/// A rectangle on screen.
#[derive(Clone, Copy, Debug, PartialEq, Eq)]
pub struct Rect {
    /// Its top-left corner.
    pub top_left: Vec2,
    /// Its width and height.
    pub size: Vec2,
}

impl Rect {
    /// The rectangle of size `size` whose top-left corner is `top_left`.
    pub fn from_size(top_left: Vec2, size: Vec2) -> (r: Rect)
        ensures
            r.top_left == top_left,
            r.size == size,
    {
        Rect { top_left, size }
    }
}

} // verus!
