//! Paddles and the edge with which each of them meets the ball.

use crate::geometry::Line;
use crate::geometry::Position;
use crate::render::DrawCommand;
use vstd::prelude::*;

verus! {

/// The side of the court that a paddle defends.
#[derive(Clone, Copy, Debug, PartialEq, Eq, Structural)]
pub enum Side {
    Left,
    Right,
}

/// A paddle: a rectangle given by its top-left corner, its width and its
/// height, together with the edge that faces the centre of the court.
#[derive(Clone, Copy, Debug, PartialEq, Eq, Structural)]
pub struct Paddle {
    pub position: Position,
    pub width: i64,
    pub height: i64,
    pub side: Side,
    pub collision_line: Line,
}

impl Paddle {
    /// Whether the corners of the inward edge of a paddle at `(x, y)` can be
    /// represented: for a left paddle `x + width`, for both `y + height`.
    pub open spec fn edge_fits(side: Side, x: i64, y: i64, width: i64, height: i64) -> bool {
        &&& side == Side::Left ==> i64::MIN <= x + width <= i64::MAX
        &&& i64::MIN <= y + height <= i64::MAX
    }

    /// The inward edge of a paddle whose top-left corner is `(x, y)`: the
    /// right edge of a left paddle, the left edge of a right paddle, over the
    /// full height of the paddle.
    pub open spec fn inner_edge(side: Side, x: i64, y: i64, width: i64, height: i64) -> Line {
        let edge_x = match side {
            Side::Left => (x + width) as i64,
            Side::Right => x,
        };
        Line {
            p1: Position { x: edge_x, y },
            p2: Position { x: edge_x, y: (y + height) as i64 },
        }
    }

    /// The collision line of the paddle is its inward edge.
    pub open spec fn wf(self) -> bool {
        &&& Self::edge_fits(self.side, self.position.x, self.position.y, self.width, self.height)
        &&& self.collision_line == Self::inner_edge(
            self.side,
            self.position.x,
            self.position.y,
            self.width,
            self.height,
        )
    }

    /// Tests whether the collision line of the paddle is its inward edge.
    pub fn is_wf(&self) -> (ok: bool)
        ensures
            ok == self.wf(),
    {
        let fits_x = match self.side {
            Side::Left => self.position.x.checked_add(self.width).is_some(),
            Side::Right => true,
        };
        let fits_y = self.position.y.checked_add(self.height).is_some();
        if fits_x && fits_y {
            let edge = Self::create_collision_line(
                &self.side,
                &self.position.x,
                &self.position.y,
                &self.width,
                &self.height,
            );
            self.collision_line == edge
        } else {
            false
        }
    }

    /// The rectangle that shows the paddle.
    pub open spec fn shape(self) -> DrawCommand {
        DrawCommand::Rect {
            x: self.position.x,
            y: self.position.y,
            width: self.width,
            height: self.height,
        }
    }

    /// The paddle moved so that its top-left corner is `(new_x, new_y)`.
    pub open spec fn updated(self, new_x: i64, new_y: i64) -> Paddle {
        Paddle {
            position: Position { x: new_x, y: new_y },
            collision_line: Self::inner_edge(self.side, new_x, new_y, self.width, self.height),
            ..self
        }
    }

    /// A paddle of the given size on the given side, with its top-left corner
    /// at `position`.
    pub fn new(position: Position, width: i64, height: i64, side: Side) -> (paddle: Paddle)
        requires
            Self::edge_fits(side, position.x, position.y, width, height),
        ensures
            paddle == (Paddle {
                position,
                width,
                height,
                side,
                collision_line: Self::inner_edge(side, position.x, position.y, width, height),
            }),
            paddle.wf(),
    {
        let collision_line = Self::create_collision_line(
            &side,
            &position.x,
            &position.y,
            &width,
            &height,
        );
        Paddle { position, width, height, side, collision_line }
    }

    /// Moves the paddle so that its top-left corner is `(new_x, new_y)` and
    /// recomputes its collision line.
    pub fn update(&mut self, new_x: i64, new_y: i64)
        requires
            Self::edge_fits(old(self).side, new_x, new_y, old(self).width, old(self).height),
        ensures
            *final(self) == old(self).updated(new_x, new_y),
            final(self).wf(),
    {
        let collision_line = Self::create_collision_line(
            &self.side,
            &new_x,
            &new_y,
            &self.width,
            &self.height,
        );
        self.collision_line = collision_line;
        self.position.update(new_x, new_y);
    }

    /// The inward edge of a paddle of the given size whose top-left corner is
    /// `(x, y)`.
    pub fn create_collision_line(side: &Side, x: &i64, y: &i64, width: &i64, height: &i64) -> (line:
        Line)
        requires
            Self::edge_fits(*side, *x, *y, *width, *height),
        ensures
            line == Self::inner_edge(*side, *x, *y, *width, *height),
    {
        match side {
            Side::Left => Line {
                p1: Position::new(*x + *width, *y),
                p2: Position::new(*x + *width, *y + *height),
            },
            Side::Right => Line {
                p1: Position::new(*x, *y),
                p2: Position::new(*x, *y + *height),
            },
        }
    }

    /// The command that draws the paddle.
    pub fn draw(&self) -> (command: DrawCommand)
        ensures
            command == self.shape(),
    {
        DrawCommand::Rect {
            x: self.position.x,
            y: self.position.y,
            width: self.width,
            height: self.height,
        }
    }
}

/// Moving a paddle to where it already stands changes nothing: a second
/// update with the same coordinates leaves the paddle, and so its collision
/// line, exactly as the first one did.
pub proof fn lemma_update_idempotent(paddle: Paddle, x: i64, y: i64)
    ensures
        paddle.updated(x, y).updated(x, y) == paddle.updated(x, y),
        paddle.updated(x, y).updated(x, y).collision_line == paddle.updated(x, y).collision_line,
{
}

} // verus!
