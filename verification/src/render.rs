//! Drawing commands: what a frame asks of a two-dimensional drawing surface.

use vstd::prelude::*;

verus! {

/// One request to the drawing surface.
#[derive(Clone, Copy, Debug, PartialEq, Eq, Structural)]
pub enum DrawCommand {
    /// Wipe the rectangle given by the four numbers of the court.
    Clear { x1: i64, y1: i64, x2: i64, y2: i64 },
    /// A filled disc of the given radius around `(x, y)`.
    Circle { x: i64, y: i64, radius: i64 },
    /// A filled rectangle with its top-left corner at `(x, y)`.
    Rect { x: i64, y: i64, width: i64, height: i64 },
    /// The number `value`, written in decimal at `(x, y)`.
    Text { value: i64, x: i64, y: i64 },
}

} // verus!
