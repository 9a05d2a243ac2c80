//! The game: the court, the scores, the players and the per-frame rules.

use crate::ball::Ball;
use crate::geometry::Line;
use crate::geometry::Position;
use crate::geometry::COORD_MAX;
use crate::geometry::MAX_EXTENT;
use crate::input::command_for_key;
use crate::input::command_of;
use crate::paddle::Paddle;
use crate::paddle::Side;
use crate::render::DrawCommand;
use vstd::prelude::*;

verus! {

/// Width of both paddles.
pub const PADDLE_WIDTH: i64 = 12;

/// Height of both paddles.
pub const PADDLE_HEIGHT: i64 = 80;

/// Radius of the ball.
pub const BALL_RADIUS: i64 = 6;

/// Distance that the ball travels along each axis in one frame of a new game.
pub const INITIAL_SPEED: i64 = 3;

/// Score with which both players start.
pub const INITIAL_SCORE: i64 = 5;

/// Where the centre of the ball starts.
pub const BALL_START_X: i64 = 15;

/// Where the centre of the ball starts.
pub const BALL_START_Y: i64 = 50;

/// Gap between a paddle and the near horizontal wall at the start of a game.
pub const PADDLE_MARGIN: i64 = 10;

/// How many frames' worth of ball travel one paddle command moves a paddle.
pub const PADDLE_STRIDE: i64 = 5;

/// Horizontal distance of each score from the middle of the court.
pub const SCORE_OFFSET_X: i64 = 50;

/// Vertical distance of both scores from the top of the court.
pub const SCORE_OFFSET_Y: i64 = 30;

/// The direction of a paddle command. `Up` is towards smaller `y`.
#[derive(Clone, Copy, Debug, PartialEq, Eq, Structural)]
pub enum Direction {
    Up,
    Down,
}

/// The court: the rectangle `[x1, x2] x [y1, y2]`.
#[derive(Clone, Copy, Debug, PartialEq, Eq, Structural)]
pub struct Constraints {
    pub x1: i64,
    pub x2: i64,
    pub y1: i64,
    pub y2: i64,
}

/// A score and where it is shown.
#[derive(Clone, Copy, Debug, PartialEq, Eq, Structural)]
pub struct Score {
    pub position: Position,
    pub value: i64,
}

/// Whether a player is connected.
#[derive(Clone, Copy, Debug, PartialEq, Eq, Hash, Structural)]
pub enum Connection {
    Established,
    NotConnected,
}

/// A player.
#[derive(Clone, Copy, Debug, PartialEq, Eq, Hash, Structural)]
pub struct Player {
    pub connection: Connection,
    pub id: u32,
}

/// The whole state of a game.
#[derive(Clone, Copy, Debug, PartialEq, Eq)]
pub struct PongGame {
    pub ball: Ball,
    pub ball_direction_x: i64,
    pub ball_direction_y: i64,
    pub paddles: (Paddle, Paddle),
    pub players: (Player, Player),
    pub speed: i64,
    pub scores: (Score, Score),
    pub constraints: Constraints,
    pub collision_lines: (Line, Line),
}

impl Constraints {
    /// The court is not empty, its corners lie within `COORD_MAX` of the
    /// origin and it is at most `MAX_EXTENT` high.
    pub open spec fn wf(self) -> bool {
        &&& self.x1 < self.x2
        &&& self.y1 < self.y2
        &&& -COORD_MAX <= self.x1
        &&& self.x2 <= COORD_MAX
        &&& -COORD_MAX <= self.y1
        &&& self.y2 <= COORD_MAX
        &&& self.y2 - self.y1 <= MAX_EXTENT
    }

    /// Tests whether a game can be played on the court.
    pub fn is_wf(&self) -> (ok: bool)
        ensures
            ok == self.wf(),
    {
        self.x1 < self.x2 && self.y1 < self.y2 && -COORD_MAX <= self.x1 && self.x2 <= COORD_MAX
            && -COORD_MAX <= self.y1 && self.y2 <= COORD_MAX && self.y2 - self.y1 <= MAX_EXTENT
    }

    /// The left and the right edge of the court, each from top to bottom.
    pub open spec fn boundary_lines(self) -> (Line, Line) {
        (
            Line {
                p1: Position { x: self.x1, y: self.y1 },
                p2: Position { x: self.x1, y: self.y2 },
            },
            Line {
                p1: Position { x: self.x2, y: self.y1 },
                p2: Position { x: self.x2, y: self.y2 },
            },
        )
    }

    /// The `x` coordinate halfway between the left and the right edge,
    /// rounded down to a whole unit.
    pub open spec fn middle_x(self) -> int {
        (self.x1 + self.x2) / 2
    }
}

impl Score {
    /// The text that shows the score.
    pub open spec fn shape(self) -> DrawCommand {
        DrawCommand::Text { value: self.value, x: self.position.x, y: self.position.y }
    }

    /// The command that draws the score.
    pub fn draw(&self) -> (command: DrawCommand)
        ensures
            command == self.shape(),
    {
        DrawCommand::Text { value: self.value, x: self.position.x, y: self.position.y }
    }
}

impl PongGame {
    /// A paddle that the game can move and test for collisions: its collision
    /// line is its inward edge, and neither its width nor its height is
    /// negative or above `MAX_EXTENT`.
    pub open spec fn paddle_fits(paddle: Paddle) -> bool {
        &&& paddle.wf()
        &&& 0 <= paddle.width <= MAX_EXTENT
        &&& 0 <= paddle.height <= MAX_EXTENT
    }

    /// The invariant of a game.
    pub open spec fn wf(self) -> bool {
        &&& self.constraints.wf()
        &&& self.ball.wf()
        &&& (self.ball_direction_x == 1 || self.ball_direction_x == -1)
        &&& (self.ball_direction_y == 1 || self.ball_direction_y == -1)
        &&& 0 < self.speed <= MAX_EXTENT
        &&& self.paddles.0.side == Side::Left
        &&& self.paddles.1.side == Side::Right
        &&& Self::paddle_fits(self.paddles.0)
        &&& Self::paddle_fits(self.paddles.1)
        &&& self.collision_lines == self.constraints.boundary_lines()
    }

    /// Tests whether a paddle is one that the game can move and test for
    /// collisions.
    fn paddle_is_fit(paddle: &Paddle) -> (ok: bool)
        ensures
            ok == Self::paddle_fits(*paddle),
    {
        paddle.is_wf() && 0 <= paddle.width && paddle.width <= MAX_EXTENT && 0 <= paddle.height
            && paddle.height <= MAX_EXTENT
    }

    /// Tests the invariant of the game.
    pub fn is_wf(&self) -> (ok: bool)
        ensures
            ok == self.wf(),
    {
        if !self.constraints.is_wf() {
            return false;
        }
        let left_edge = Line {
            p1: Position::new(self.constraints.x1, self.constraints.y1),
            p2: Position::new(self.constraints.x1, self.constraints.y2),
        };
        let right_edge = Line {
            p1: Position::new(self.constraints.x2, self.constraints.y1),
            p2: Position::new(self.constraints.x2, self.constraints.y2),
        };
        let directions_fit = (self.ball_direction_x == 1 || self.ball_direction_x == -1) && (
        self.ball_direction_y == 1 || self.ball_direction_y == -1);
        let speed_fits = 0 < self.speed && self.speed <= MAX_EXTENT;
        let paddles_fit = self.paddles.0.side == Side::Left && self.paddles.1.side == Side::Right
            && Self::paddle_is_fit(&self.paddles.0) && Self::paddle_is_fit(&self.paddles.1);
        let edges_fit = self.collision_lines.0 == left_edge && self.collision_lines.1
            == right_edge;
        self.ball.is_wf() && directions_fit && speed_fits && paddles_fit && edges_fit
    }

    /// The state in which a game on the given court starts.
    pub open spec fn initial(constraints: Constraints) -> PongGame {
        let left = Position { x: constraints.x1, y: (constraints.y1 + PADDLE_MARGIN) as i64 };
        let right = Position {
            x: (constraints.x2 - PADDLE_WIDTH) as i64,
            y: (constraints.y2 - PADDLE_HEIGHT - PADDLE_MARGIN) as i64,
        };
        PongGame {
            ball: Ball {
                position: Position { x: BALL_START_X, y: BALL_START_Y },
                radius: BALL_RADIUS,
            },
            ball_direction_x: 1,
            ball_direction_y: 1,
            paddles: (
                Paddle {
                    position: left,
                    width: PADDLE_WIDTH,
                    height: PADDLE_HEIGHT,
                    side: Side::Left,
                    collision_line: Paddle::inner_edge(
                        Side::Left,
                        left.x,
                        left.y,
                        PADDLE_WIDTH,
                        PADDLE_HEIGHT,
                    ),
                },
                Paddle {
                    position: right,
                    width: PADDLE_WIDTH,
                    height: PADDLE_HEIGHT,
                    side: Side::Right,
                    collision_line: Paddle::inner_edge(
                        Side::Right,
                        right.x,
                        right.y,
                        PADDLE_WIDTH,
                        PADDLE_HEIGHT,
                    ),
                },
            ),
            players: (
                Player { connection: Connection::NotConnected, id: 1 },
                Player { connection: Connection::NotConnected, id: 2 },
            ),
            speed: INITIAL_SPEED,
            scores: (
                Score {
                    position: Position {
                        x: (constraints.middle_x() - SCORE_OFFSET_X) as i64,
                        y: (constraints.y1 + SCORE_OFFSET_Y) as i64,
                    },
                    value: INITIAL_SCORE,
                },
                Score {
                    position: Position {
                        x: (constraints.middle_x() + SCORE_OFFSET_X) as i64,
                        y: (constraints.y1 + SCORE_OFFSET_Y) as i64,
                    },
                    value: INITIAL_SCORE,
                },
            ),
            constraints,
            collision_lines: constraints.boundary_lines(),
        }
    }

    /// Starts a game on the given court.
    pub fn new(constraints: Constraints) -> (game: PongGame)
        requires
            constraints.wf(),
        ensures
            game == Self::initial(constraints),
            game.wf(),
    {
        let ball = Ball::new(BALL_START_X, BALL_START_Y, BALL_RADIUS);

        let player_one = Player { id: 1, connection: Connection::NotConnected };
        let player_two = Player { id: 2, connection: Connection::NotConnected };

        let paddle_one = Paddle::new(
            Position::new(constraints.x1, constraints.y1 + PADDLE_MARGIN),
            PADDLE_WIDTH,
            PADDLE_HEIGHT,
            Side::Left,
        );
        let paddle_two = Paddle::new(
            Position::new(
                constraints.x2 - PADDLE_WIDTH,
                constraints.y2 - PADDLE_HEIGHT - PADDLE_MARGIN,
            ),
            PADDLE_WIDTH,
            PADDLE_HEIGHT,
            Side::Right,
        );

        let middle: i64 = constraints.x1 + (constraints.x2 - constraints.x1) / 2;
        let score_1 = Score {
            value: INITIAL_SCORE,
            position: Position::new(middle - SCORE_OFFSET_X, constraints.y1 + SCORE_OFFSET_Y),
        };
        let score_2 = Score {
            value: INITIAL_SCORE,
            position: Position::new(middle + SCORE_OFFSET_X, constraints.y1 + SCORE_OFFSET_Y),
        };

        let collision_line1 = Line {
            p1: Position::new(constraints.x1, constraints.y1),
            p2: Position::new(constraints.x1, constraints.y2),
        };
        let collision_line2 = Line {
            p1: Position::new(constraints.x2, constraints.y1),
            p2: Position::new(constraints.x2, constraints.y2),
        };

        PongGame {
            ball,
            scores: (score_1, score_2),
            paddles: (paddle_one, paddle_two),
            players: (player_one, player_two),
            speed: INITIAL_SPEED,
            constraints,
            ball_direction_x: 1,
            ball_direction_y: 1,
            collision_lines: (collision_line1, collision_line2),
        }
    }

    /// Where a paddle command would put the top of `paddle`: a fixed stride of
    /// `PADDLE_STRIDE` frames of ball travel up or down from where it stands.
    pub open spec fn paddle_target(self, paddle: Paddle, direction: Direction) -> int {
        match direction {
            Direction::Down => paddle.position.y + self.speed * PADDLE_STRIDE,
            Direction::Up => paddle.position.y - self.speed * PADDLE_STRIDE,
        }
    }

    /// Whether a paddle of the height of `paddle` with its top at `y` lies
    /// between the horizontal walls.
    pub open spec fn clear_of_walls(self, paddle: Paddle, y: int) -> bool {
        self.constraints.y1 <= y <= self.constraints.y2 - paddle.height
    }

    /// Both paddles lie between the horizontal walls.
    pub open spec fn paddles_in_court(self) -> bool {
        &&& self.clear_of_walls(self.paddles.0, self.paddles.0.position.y as int)
        &&& self.clear_of_walls(self.paddles.1, self.paddles.1.position.y as int)
    }

    /// `paddle` after a command in the given direction: moved to its target
    /// where that lies between the horizontal walls, left alone where not.
    pub open spec fn moved_paddle(self, paddle: Paddle, direction: Direction) -> Paddle {
        let target = self.paddle_target(paddle, direction);
        if self.clear_of_walls(paddle, target) {
            paddle.updated(paddle.position.x, target as i64)
        } else {
            paddle
        }
    }

    /// The game after a paddle command: paddle `0` is the left one, paddle `1`
    /// the right one, and a command for any other paddle changes nothing.
    pub open spec fn with_paddle_moved(self, direction: Direction, paddle: usize) -> PongGame {
        if paddle == 0 {
            PongGame {
                paddles: (self.moved_paddle(self.paddles.0, direction), self.paddles.1),
                ..self
            }
        } else if paddle == 1 {
            PongGame {
                paddles: (self.paddles.0, self.moved_paddle(self.paddles.1, direction)),
                ..self
            }
        } else {
            self
        }
    }

    /// The game after the paddle commands of `commands`, applied in order.
    pub open spec fn after_commands(self, commands: Seq<(Direction, usize)>) -> PongGame
        decreases commands.len(),
    {
        if commands.len() == 0 {
            self
        } else {
            let command = commands.last();
            self.after_commands(commands.drop_last()).with_paddle_moved(command.0, command.1)
        }
    }

    /// Applies a paddle command to one paddle.
    fn shift(&self, paddle: Paddle, direction: Direction) -> (moved: Paddle)
        requires
            self.wf(),
            Self::paddle_fits(paddle),
        ensures
            moved == self.moved_paddle(paddle, direction),
            Self::paddle_fits(moved),
            moved.side == paddle.side,
    {
        let stride: i64 = self.speed * PADDLE_STRIDE;
        let target: Option<i64> = match direction {
            Direction::Down => paddle.position.y.checked_add(stride),
            Direction::Up => paddle.position.y.checked_sub(stride),
        };
        let mut moved = paddle;
        match target {
            Some(new_y) => {
                if self.constraints.y1 <= new_y && new_y <= self.constraints.y2 - paddle.height {
                    moved.update(paddle.position.x, new_y);
                }
            },
            None => {},
        }
        moved
    }

    /// Applies a paddle command: moves the left paddle (`paddle == 0`) or the
    /// right one (`paddle == 1`) by one stride up or down, unless it would
    /// then reach past a horizontal wall.
    pub fn move_paddle(&mut self, direction: Direction, paddle: usize)
        requires
            old(self).wf(),
        ensures
            *final(self) == old(self).with_paddle_moved(direction, paddle),
            final(self).wf(),
            old(self).paddles_in_court() ==> final(self).paddles_in_court(),
    {
        if paddle == 0 {
            let moved = self.shift(self.paddles.0, direction);
            self.paddles.0 = moved;
        } else if paddle == 1 {
            let moved = self.shift(self.paddles.1, direction);
            self.paddles.1 = moved;
        }
    }

    /// The game after the key named `key` was pressed: after the paddle
    /// command that the key stands for, or unchanged where it stands for none.
    pub open spec fn with_key_pressed(self, key: Seq<char>) -> PongGame {
        match command_of(key) {
            Some(command) => self.with_paddle_moved(command.0, command.1),
            None => self,
        }
    }

    /// Handles a key press: applies the paddle command that the key stands
    /// for, and ignores a key that stands for none.
    pub fn key_pressed(&mut self, key: &str)
        requires
            old(self).wf(),
        ensures
            *final(self) == old(self).with_key_pressed(key@),
            final(self).wf(),
            old(self).paddles_in_court() ==> final(self).paddles_in_court(),
    {
        match command_for_key(key) {
            Some((direction, paddle)) => {
                self.move_paddle(direction, paddle);
            },
            None => {},
        }
    }

    /// The ball touches the inward edge of the left paddle.
    pub open spec fn hits_left_paddle(self) -> bool {
        self.paddles.0.collision_line.collides(self.ball)
    }

    /// The ball touches the inward edge of the right paddle.
    pub open spec fn hits_right_paddle(self) -> bool {
        self.paddles.1.collision_line.collides(self.ball)
    }

    /// The ball touches the left edge of the court.
    pub open spec fn hits_left_boundary(self) -> bool {
        self.collision_lines.0.collides(self.ball)
    }

    /// The ball touches the right edge of the court.
    pub open spec fn hits_right_boundary(self) -> bool {
        self.collision_lines.1.collides(self.ball)
    }

    /// The ball, moving left, bounces off the left paddle in this frame.
    pub open spec fn bounces_left(self) -> bool {
        self.hits_left_paddle() && self.ball_direction_x < 0
    }

    /// The horizontal direction once the left paddle has had its say.
    pub open spec fn direction_x_past_left(self) -> int {
        if self.bounces_left() {
            -self.ball_direction_x
        } else {
            self.ball_direction_x as int
        }
    }

    /// The ball, still moving left, is on the left edge of the court in this
    /// frame: the left player loses a point.
    pub open spec fn scores_left(self) -> bool {
        self.hits_left_boundary() && self.direction_x_past_left() < 0
    }

    /// The ball, moving right, bounces off the right paddle in this frame.
    pub open spec fn bounces_right(self) -> bool {
        self.hits_right_paddle() && self.direction_x_past_left() > 0
    }

    /// The horizontal direction in which the ball leaves this frame.
    pub open spec fn next_direction_x(self) -> int {
        if self.bounces_right() {
            -self.direction_x_past_left()
        } else {
            self.direction_x_past_left()
        }
    }

    /// The ball, still moving right, is on the right edge of the court in
    /// this frame: the right player loses a point.
    pub open spec fn scores_right(self) -> bool {
        self.hits_right_boundary() && self.next_direction_x() > 0
    }

    /// The ball has reached or passed the top wall while moving up, or the
    /// bottom wall while moving down.
    pub open spec fn turns_at_wall(self) -> bool {
        ||| self.ball.position.y <= self.constraints.y1 && self.ball_direction_y < 0
        ||| self.ball.position.y >= self.constraints.y2 && self.ball_direction_y > 0
    }

    /// The vertical direction in which the ball leaves this frame.
    pub open spec fn next_direction_y(self) -> int {
        if self.turns_at_wall() {
            -self.ball_direction_y
        } else {
            self.ball_direction_y as int
        }
    }

    /// Where the centre of the ball is after this frame, horizontally.
    pub open spec fn next_ball_x(self) -> int {
        self.ball.position.x + self.speed * self.next_direction_x()
    }

    /// Where the centre of the ball is after this frame, vertically.
    pub open spec fn next_ball_y(self) -> int {
        self.ball.position.y + self.speed * self.next_direction_y()
    }

    /// The score of the left player after this frame.
    pub open spec fn next_score_left(self) -> int {
        if self.scores_left() {
            self.scores.0.value - 1
        } else {
            self.scores.0.value as int
        }
    }

    /// The score of the right player after this frame.
    pub open spec fn next_score_right(self) -> int {
        if self.scores_right() {
            self.scores.1.value - 1
        } else {
            self.scores.1.value as int
        }
    }

    /// The ball is between the horizontal walls, or has overshot one of them
    /// by less than one frame's travel and is still heading outwards, so that
    /// the next frame turns it back.
    pub open spec fn ball_in_play(self) -> bool {
        let y = self.ball.position.y;
        ||| self.constraints.y1 <= y <= self.constraints.y2
        ||| y > self.constraints.y2 && self.ball_direction_y > 0 && y - self.speed < self.constraints.y2
        ||| y < self.constraints.y1 && self.ball_direction_y < 0 && y + self.speed > self.constraints.y1
    }

    /// One frame of ball travel is no more than the height of the court.
    pub open spec fn court_holds_a_step(self) -> bool {
        self.speed <= self.constraints.y2 - self.constraints.y1
    }

    /// The position of the ball and both scores after this frame can be
    /// represented.
    pub open spec fn steppable(self) -> bool {
        &&& i64::MIN <= self.next_ball_x() <= i64::MAX
        &&& i64::MIN <= self.next_ball_y() <= i64::MAX
        &&& i64::MIN <= self.next_score_left()
        &&& i64::MIN <= self.next_score_right()
    }

    /// The game one frame later, for a game that is `steppable`.
    ///
    /// The four collision tests look at the ball where it stands before the
    /// frame. The rules then apply in a fixed order: bounce off the left
    /// paddle, point against the left player, bounce off the right paddle,
    /// point against the right player, turn at a horizontal wall, advance.
    pub open spec fn stepped(self) -> PongGame {
        PongGame {
            ball: Ball {
                position: Position { x: self.next_ball_x() as i64, y: self.next_ball_y() as i64 },
                radius: self.ball.radius,
            },
            ball_direction_x: self.next_direction_x() as i64,
            ball_direction_y: self.next_direction_y() as i64,
            scores: (
                Score { position: self.scores.0.position, value: self.next_score_left() as i64 },
                Score { position: self.scores.1.position, value: self.next_score_right() as i64 },
            ),
            ..self
        }
    }

    /// The game one frame later, or `None` where the position of the ball or
    /// a score would leave the range of `i64`.
    pub fn next_frame(&self) -> (next: Option<PongGame>)
        requires
            self.wf(),
        ensures
            next == if self.steppable() {
                Some(self.stepped())
            } else {
                None
            },
            next is Some ==> next->0.wf(),
            next is Some && self.ball_in_play() && self.court_holds_a_step()
                ==> next->0.ball_in_play(),
    {
        let is_0_collide = self.paddles.0.collision_line.collide_with_ball(&self.ball);
        let is_1_collide = self.paddles.1.collision_line.collide_with_ball(&self.ball);
        let is_left_line_collide = self.collision_lines.0.collide_with_ball(&self.ball);
        let is_right_line_collide = self.collision_lines.1.collide_with_ball(&self.ball);

        let mut next = *self;
        if is_0_collide && next.ball_direction_x < 0 {
            next.ball_direction_x = -next.ball_direction_x;
        }
        if is_left_line_collide && next.ball_direction_x < 0 {
            match next.scores.0.value.checked_sub(1) {
                Some(value) => {
                    next.scores.0.value = value;
                },
                None => {
                    return None;
                },
            }
        }
        if is_1_collide && next.ball_direction_x > 0 {
            next.ball_direction_x = -next.ball_direction_x;
        }
        if is_right_line_collide && next.ball_direction_x > 0 {
            match next.scores.1.value.checked_sub(1) {
                Some(value) => {
                    next.scores.1.value = value;
                },
                None => {
                    return None;
                },
            }
        }

        if self.ball.position.y <= self.constraints.y1 && next.ball_direction_y < 0
            || self.ball.position.y >= self.constraints.y2 && next.ball_direction_y > 0 {
            next.ball_direction_y = -next.ball_direction_y;
        }

        proof {
            let speed = self.speed as int;
            let dx = next.ball_direction_x as int;
            let dy = next.ball_direction_y as int;
            assert(speed * dx == if dx == 1 { speed } else { -speed }) by (nonlinear_arith)
                requires
                    dx == 1 || dx == -1,
            ;
            assert(speed * dy == if dy == 1 { speed } else { -speed }) by (nonlinear_arith)
                requires
                    dy == 1 || dy == -1,
            ;
        }
        let new_x = self.ball.position.x.checked_add(self.speed * next.ball_direction_x);
        let new_y = self.ball.position.y.checked_add(self.speed * next.ball_direction_y);
        match (new_x, new_y) {
            (Some(x), Some(y)) => {
                next.ball.update(x, y);
                Some(next)
            },
            _ => None,
        }
    }

    /// Advances the game by one frame.
    pub fn move_ball(&mut self)
        requires
            old(self).wf(),
            old(self).steppable(),
        ensures
            *final(self) == old(self).stepped(),
            final(self).wf(),
            old(self).ball_in_play() && old(self).court_holds_a_step() ==> final(self).ball_in_play(),
    {
        match self.next_frame() {
            Some(next) => {
                *self = next;
            },
            None => {},
        }
    }

    /// What a frame shows: the ball, then the left and the right paddle, then
    /// the left and the right score.
    pub open spec fn picture(self) -> Seq<DrawCommand> {
        seq![
            self.ball.shape(),
            self.paddles.0.shape(),
            self.paddles.1.shape(),
            self.scores.0.shape(),
            self.scores.1.shape(),
        ]
    }

    /// What a frame asks of the drawing surface: to wipe the court, then to
    /// draw the picture.
    pub open spec fn frame_commands(self) -> Seq<DrawCommand> {
        seq![
            DrawCommand::Clear {
                x1: self.constraints.x1,
                y1: self.constraints.y1,
                x2: self.constraints.x2,
                y2: self.constraints.y2,
            },
        ] + self.picture()
    }

    /// The commands that draw the game, in the order in which they are to be
    /// carried out.
    pub fn draw(&self) -> (commands: Vec<DrawCommand>)
        ensures
            commands@ == self.picture(),
    {
        let mut commands: Vec<DrawCommand> = Vec::new();
        commands.push(self.ball.draw());
        commands.push(self.paddles.0.draw());
        commands.push(self.paddles.1.draw());
        commands.push(self.scores.0.draw());
        commands.push(self.scores.1.draw());
        assert(commands@ =~= self.picture());
        commands
    }

    /// One tick of the game: advances the ball by one frame and returns the
    /// commands that wipe the court and draw the new state. Where the frame
    /// cannot be represented the game is left as it is and `None` tells the
    /// caller to stop.
    pub fn tick(&mut self) -> (frame: Option<Vec<DrawCommand>>)
        requires
            old(self).wf(),
        ensures
            final(self).wf(),
            old(self).steppable() ==> *final(self) == old(self).stepped() && frame is Some
                && frame->0@ == final(self).frame_commands(),
            !old(self).steppable() ==> *final(self) == *old(self) && frame is None,
    {
        match self.next_frame() {
            Some(next) => {
                *self = next;
                let mut commands: Vec<DrawCommand> = Vec::new();
                commands.push(
                    DrawCommand::Clear {
                        x1: self.constraints.x1,
                        y1: self.constraints.y1,
                        x2: self.constraints.x2,
                        y2: self.constraints.y2,
                    },
                );
                let mut picture = self.draw();
                commands.append(&mut picture);
                assert(commands@ =~= self.frame_commands());
                Some(commands)
            },
            None => None,
        }
    }

    /// One whole frame: applies the paddle commands gathered since the last
    /// frame, in order, then advances the ball and returns the commands that
    /// wipe the court and draw the new state. Where the ball cannot advance
    /// the paddle commands still apply, and `None` tells the caller to stop.
    pub fn run_frame(&mut self, commands: &Vec<(Direction, usize)>) -> (frame: Option<
        Vec<DrawCommand>,
    >)
        requires
            old(self).wf(),
        ensures
            final(self).wf(),
            ({
                let ready = old(self).after_commands(commands@);
                if ready.steppable() {
                    &&& *final(self) == ready.stepped()
                    &&& frame is Some
                    &&& frame->0@ == final(self).frame_commands()
                } else {
                    &&& *final(self) == ready
                    &&& frame is None
                }
            }),
            old(self).paddles_in_court() ==> final(self).paddles_in_court(),
    {
        let mut i: usize = 0;
        while i < commands.len()
            invariant
                i <= commands@.len(),
                self.wf(),
                *self == old(self).after_commands(commands@.take(i as int)),
                old(self).paddles_in_court() ==> self.paddles_in_court(),
            decreases commands@.len() - i,
        {
            let command = commands[i];
            assert(commands@.take(i + 1).drop_last() =~= commands@.take(i as int));
            self.move_paddle(command.0, command.1);
            i += 1;
        }
        assert(commands@.take(i as int) =~= commands@);
        self.tick()
    }
}

} // verus!
