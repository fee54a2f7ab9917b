//! The mouse: which buttons and scroll directions there are, and whether the
//! cursor may be moved to a point.
//!
//! Coordinates are those of the screen, with the origin at the top left.

use crate::geometry::Point;
use crate::geometry::Size;
use crate::screen::is_point_visible;
use crate::screen::screen_rect;
use vstd::prelude::*;

verus! {

#[derive(Clone, Copy, Debug, PartialEq, Eq, Structural)]
pub enum Button {
    Left,
    Middle,
    Right,
}

#[derive(Clone, Copy, Debug, PartialEq, Eq, Structural)]
pub enum ScrollDirection {
    Up,
    Down,
}

#[derive(Debug)]
pub enum MouseError {
    /// The point does not lie on the screen.
    OutOfBounds,
}

impl Button {
    /// The number of this button in the X protocol.
    pub open spec fn spec_x_button(&self) -> u32 {
        match self {
            Button::Left => 1,
            Button::Middle => 2,
            Button::Right => 3,
        }
    }

    /// The number of this button in the X protocol.
    pub fn x_button(&self) -> (number: u32)
        ensures
            number == self.spec_x_button(),
    {
        match self {
            Button::Left => 1,
            Button::Middle => 2,
            Button::Right => 3,
        }
    }
}

impl ScrollDirection {
    /// The number of the button that scrolls in this direction in the X
    /// protocol.
    pub open spec fn spec_x_button(&self) -> u32 {
        match self {
            ScrollDirection::Up => 4,
            ScrollDirection::Down => 5,
        }
    }

    /// The number of the button that scrolls in this direction in the X
    /// protocol.
    pub fn x_button(&self) -> (number: u32)
        ensures
            number == self.spec_x_button(),
    {
        match self {
            ScrollDirection::Up => 4,
            ScrollDirection::Down => 5,
        }
    }
}

/// Whether the cursor may be moved to `point` on a screen of the given size:
/// `Ok` if the point lies on the screen, the error if it does not.
pub fn move_to(screen: Size, point: Point) -> (result: Result<(), MouseError>)
    ensures
        result is Ok <==> screen_rect(screen).spec_is_point_visible(point),
        result matches Err(e) ==> e is OutOfBounds,
{
    if !is_point_visible(screen, point) {
        Err(MouseError::OutOfBounds)
    } else {
        Ok(())
    }
}

} // verus!
