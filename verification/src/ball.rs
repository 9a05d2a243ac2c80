//! The ball.

use crate::geometry::Position;
use crate::geometry::MAX_EXTENT;
use crate::render::DrawCommand;
use vstd::prelude::*;

verus! {

/// A ball: the position of its centre and its radius.
#[derive(Clone, Copy, Debug, PartialEq, Eq, Structural)]
pub struct Ball {
    pub position: Position,
    pub radius: i64,
}

impl Ball {
    /// A ball has a positive radius, no larger than `MAX_EXTENT`.
    pub open spec fn wf(self) -> bool {
        0 < self.radius <= MAX_EXTENT
    }

    /// Tests whether the radius of the ball is positive and no larger than
    /// `MAX_EXTENT`.
    pub fn is_wf(&self) -> (ok: bool)
        ensures
            ok == self.wf(),
    {
        0 < self.radius && self.radius <= MAX_EXTENT
    }

    /// The disc that shows the ball.
    pub open spec fn shape(self) -> DrawCommand {
        DrawCommand::Circle { x: self.position.x, y: self.position.y, radius: self.radius }
    }

    /// A ball of the given radius centred at `(x, y)`.
    pub fn new(x: i64, y: i64, radius: i64) -> (ball: Ball)
        ensures
            ball == (Ball { position: Position { x, y }, radius }),
    {
        Ball { position: Position { x, y }, radius }
    }

    /// Moves the centre of the ball to `(new_x, new_y)`.
    pub fn update(&mut self, new_x: i64, new_y: i64)
        ensures
            *final(self) == (Ball { position: Position { x: new_x, y: new_y }, radius: old(self).radius }),
    {
        self.position.update(new_x, new_y);
    }

    /// The command that draws the ball.
    pub fn draw(&self) -> (command: DrawCommand)
        ensures
            command == self.shape(),
    {
        DrawCommand::Circle { x: self.position.x, y: self.position.y, radius: self.radius }
    }
}

} // verus!
