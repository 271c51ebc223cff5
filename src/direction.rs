//! Orientations and directions: absolute (left, up, right, down) or relative
//! to an orientation (front, back).

use vstd::prelude::*;
use crate::xy::{Vec2, XY};

verus! {

/// Horizontal or vertical.
#[derive(Clone, Copy, Debug, PartialEq, Eq, Structural)]
pub enum Orientation {
    /// Along the x axis.
    Horizontal,
    /// Along the y axis.
    Vertical,
}

/// Width of a horizontal stack of boxes: the sum of their widths.
pub open spec fn sum_x(v: Seq<Vec2>) -> int
    decreases v.len(),
{
    if v.len() == 0 {
        0
    } else {
        sum_x(v.drop_last()) + v.last().x
    }
}

/// Height of a vertical stack of boxes: the sum of their heights.
pub open spec fn sum_y(v: Seq<Vec2>) -> int
    decreases v.len(),
{
    if v.len() == 0 {
        0
    } else {
        sum_y(v.drop_last()) + v.last().y
    }
}

/// Largest width among boxes (zero for none).
pub open spec fn max_x(v: Seq<Vec2>) -> int
    decreases v.len(),
{
    if v.len() == 0 {
        0
    } else if max_x(v.drop_last()) >= v.last().x {
        max_x(v.drop_last())
    } else {
        v.last().x as int
    }
}

/// Largest height among boxes (zero for none).
pub open spec fn max_y(v: Seq<Vec2>) -> int
    decreases v.len(),
{
    if v.len() == 0 {
        0
    } else if max_y(v.drop_last()) >= v.last().y {
        max_y(v.drop_last())
    } else {
        v.last().y as int
    }
}

proof fn lemma_sums_grow(v: Seq<Vec2>, i: int)
    requires
        0 <= i <= v.len(),
    ensures
        sum_x(v.take(i)) <= sum_x(v),
        sum_y(v.take(i)) <= sum_y(v),
        0 <= sum_x(v.take(i)),
        0 <= sum_y(v.take(i)),
    decreases v.len(),
{
    if v.len() > 0 {
        if i == v.len() {
            assert(v.take(i) =~= v);
            lemma_sums_grow(v.drop_last(), i - 1);
            assert(v.drop_last().take(i - 1) =~= v.drop_last().take(i - 1));
        } else {
            lemma_sums_grow(v.drop_last(), i);
            assert(v.drop_last().take(i) =~= v.take(i));
        }
    }
}

impl Orientation {
    /// Both orientations: `XY(Horizontal, Vertical)`.
    pub fn pair() -> (r: XY<Orientation>)
        ensures
            r.x == Orientation::Horizontal,
            r.y == Orientation::Vertical,
    {
        XY::new(Orientation::Horizontal, Orientation::Vertical)
    }

    /// The component of `v` along this orientation.
    pub fn get<T: Copy>(self, v: &XY<T>) -> (r: T)
        ensures
            r == if self == Orientation::Horizontal { v.x } else { v.y },
    {
        match self {
            Orientation::Horizontal => v.x,
            Orientation::Vertical => v.y,
        }
    }

    /// The other orientation.
    pub fn swap(self) -> (r: Orientation)
        ensures
            r != self,
    {
        match self {
            Orientation::Horizontal => Orientation::Vertical,
            Orientation::Vertical => Orientation::Horizontal,
        }
    }

    /// A mutable reference to the component of `v` along this orientation.
    pub fn get_ref<T>(self, v: &mut XY<T>) -> (r: &mut T)
        ensures
            self == Orientation::Horizontal ==> *r == old(v).x && *final(v) == (XY {
                x: *final(r),
                y: old(v).y,
            }),
            self == Orientation::Vertical ==> *r == old(v).y && *final(v) == (XY {
                x: old(v).x,
                y: *final(r),
            }),
    {
        match self {
            Orientation::Horizontal => &mut v.x,
            Orientation::Vertical => &mut v.y,
        }
    }

    /// The bounding box of `sizes` stacked along this orientation:
    /// `(sum of x, max of y)` horizontally, `(max of x, sum of y)` vertically.
    pub fn stack(self, sizes: &[Vec2]) -> (r: Vec2)
        requires
            self == Orientation::Horizontal ==> sum_x(sizes@) <= usize::MAX,
            self == Orientation::Vertical ==> sum_y(sizes@) <= usize::MAX,
        ensures
            self == Orientation::Horizontal ==> r.x == sum_x(sizes@) && r.y == max_y(sizes@),
            self == Orientation::Vertical ==> r.x == max_x(sizes@) && r.y == sum_y(sizes@),
    {
        let mut acc = Vec2::zero();
        let mut i: usize = 0;
        while i < sizes.len()
            invariant
                i <= sizes@.len(),
                self == Orientation::Horizontal ==> sum_x(sizes@) <= usize::MAX,
                self == Orientation::Vertical ==> sum_y(sizes@) <= usize::MAX,
                self == Orientation::Horizontal ==> acc.x == sum_x(sizes@.take(i as int))
                    && acc.y == max_y(sizes@.take(i as int)),
                self == Orientation::Vertical ==> acc.x == max_x(sizes@.take(i as int))
                    && acc.y == sum_y(sizes@.take(i as int)),
            decreases sizes@.len() - i,
        {
            proof {
                lemma_sums_grow(sizes@, i + 1);
                assert(sizes@.take(i + 1).drop_last() =~= sizes@.take(i as int));
            }
            acc = match self {
                Orientation::Horizontal => acc.stack_horizontal(sizes[i]),
                Orientation::Vertical => acc.stack_vertical(sizes[i]),
            };
            i = i + 1;
        }
        assert(sizes@.take(i as int) =~= sizes@);
        acc
    }

    /// A vector with `main_axis` along this orientation and `second_axis`
    /// along the other.
    pub fn make_vec(self, main_axis: usize, second_axis: usize) -> (r: Vec2)
        ensures
            self == Orientation::Horizontal ==> r.x == main_axis && r.y == second_axis,
            self == Orientation::Vertical ==> r.x == second_axis && r.y == main_axis,
    {
        let mut result = Vec2::zero();
        *self.get_ref(&mut result) = main_axis;
        *self.swap().get_ref(&mut result) = second_axis;
        result
    }
}

/// A direction: absolute, or relative to an orientation.
#[derive(Clone, Copy, Debug, PartialEq, Eq, Structural)]
pub enum Direction {
    /// An absolute direction.
    Abs(Absolute),
    /// A direction relative to the current orientation.
    Rel(Relative),
}

impl Direction {
    /// The relative direction in `orientation`, if there is one.
    pub fn relative(self, orientation: Orientation) -> (r: Option<Relative>)
        ensures
            r == match self {
                Direction::Abs(abs) => abs_to_rel(abs, orientation),
                Direction::Rel(rel) => Some(rel),
            },
    {
        match self {
            Direction::Abs(abs) => abs.relative(orientation),
            Direction::Rel(rel) => Some(rel),
        }
    }

    /// The absolute direction in `orientation`.
    pub fn absolute(self, orientation: Orientation) -> (r: Absolute)
        ensures
            r == match self {
                Direction::Abs(abs) => abs,
                Direction::Rel(rel) => rel_to_abs(rel, orientation),
            },
    {
        match self {
            Direction::Abs(abs) => abs,
            Direction::Rel(rel) => rel.absolute(orientation),
        }
    }

    /// `Rel(Back)`.
    pub fn back() -> (r: Direction)
        ensures
            r == Direction::Rel(Relative::Back),
    {
        Direction::Rel(Relative::Back)
    }

    /// `Rel(Front)`.
    pub fn front() -> (r: Direction)
        ensures
            r == Direction::Rel(Relative::Front),
    {
        Direction::Rel(Relative::Front)
    }

    /// `Abs(Left)`.
    pub fn left() -> (r: Direction)
        ensures
            r == Direction::Abs(Absolute::Left),
    {
        Direction::Abs(Absolute::Left)
    }

    /// `Abs(Right)`.
    pub fn right() -> (r: Direction)
        ensures
            r == Direction::Abs(Absolute::Right),
    {
        Direction::Abs(Absolute::Right)
    }

    /// `Abs(Up)`.
    pub fn up() -> (r: Direction)
        ensures
            r == Direction::Abs(Absolute::Up),
    {
        Direction::Abs(Absolute::Up)
    }

    /// `Abs(Down)`.
    pub fn down() -> (r: Direction)
        ensures
            r == Direction::Abs(Absolute::Down),
    {
        Direction::Abs(Absolute::Down)
    }

    /// `Abs(Unspecified)`.
    pub fn none() -> (r: Direction)
        ensures
            r == Direction::Abs(Absolute::Unspecified),
    {
        Direction::Abs(Absolute::Unspecified)
    }
}

/// A direction relative to an orientation.
#[derive(Clone, Copy, Debug, PartialEq, Eq, Structural)]
pub enum Relative {
    /// Left when horizontal, up when vertical.
    Front,
    /// Right when horizontal, down when vertical.
    Back,
}

/// The absolute direction of `rel` in `o`.
pub open spec fn rel_to_abs(rel: Relative, o: Orientation) -> Absolute {
    match (o, rel) {
        (Orientation::Horizontal, Relative::Front) => Absolute::Left,
        (Orientation::Horizontal, Relative::Back) => Absolute::Right,
        (Orientation::Vertical, Relative::Front) => Absolute::Up,
        (Orientation::Vertical, Relative::Back) => Absolute::Down,
    }
}

/// The relative direction of `abs` in `o`, if `abs` lies along `o`.
pub open spec fn abs_to_rel(abs: Absolute, o: Orientation) -> Option<Relative> {
    match (o, abs) {
        (Orientation::Horizontal, Absolute::Left) => Some(Relative::Front),
        (Orientation::Vertical, Absolute::Up) => Some(Relative::Front),
        (Orientation::Horizontal, Absolute::Right) => Some(Relative::Back),
        (Orientation::Vertical, Absolute::Down) => Some(Relative::Back),
        _ => None,
    }
}

impl Relative {
    /// The absolute direction in `orientation`.
    pub fn absolute(self, orientation: Orientation) -> (r: Absolute)
        ensures
            r == rel_to_abs(self, orientation),
    {
        match (orientation, self) {
            (Orientation::Horizontal, Relative::Front) => Absolute::Left,
            (Orientation::Horizontal, Relative::Back) => Absolute::Right,
            (Orientation::Vertical, Relative::Front) => Absolute::Up,
            (Orientation::Vertical, Relative::Back) => Absolute::Down,
        }
    }
}

/// An absolute direction.
#[derive(Clone, Copy, Debug, PartialEq, Eq, Structural)]
pub enum Absolute {
    /// Left
    Left,
    /// Up
    Up,
    /// Right
    Right,
    /// Down
    Down,
    /// No direction in the plane (across layers, say).
    Unspecified,
}

impl Absolute {
    /// The relative direction in `orientation`; `None` when this direction
    /// does not lie along it.
    pub fn relative(self, orientation: Orientation) -> (r: Option<Relative>)
        ensures
            r == abs_to_rel(self, orientation),
    {
        match (orientation, self) {
            (Orientation::Horizontal, Absolute::Left) | (Orientation::Vertical, Absolute::Up) => {
                Some(Relative::Front)
            },
            (Orientation::Horizontal, Absolute::Right) | (
                Orientation::Vertical,
                Absolute::Down,
            ) => Some(Relative::Back),
            _ => None,
        }
    }
}

} // verus!
