//! What holds of a game over any number of frames and paddle commands.

use crate::game::Constraints;
use crate::game::Direction;
use crate::game::PongGame;
use crate::game::BALL_START_Y;
use crate::game::PADDLE_HEIGHT;
use crate::game::PADDLE_MARGIN;
use vstd::prelude::*;

verus! {

impl PongGame {
    /// The game `n` frames later.
    pub open spec fn after_frames(self, n: nat) -> PongGame
        decreases n,
    {
        if n == 0 {
            self
        } else {
            self.after_frames((n - 1) as nat).stepped()
        }
    }

    /// Each of the next `n` frames can be represented.
    pub open spec fn runs_for(self, n: nat) -> bool {
        forall|i: nat| i < n ==> #[trigger] self.after_frames(i).steppable()
    }
}

/// A frame keeps the invariant of the game.
pub proof fn lemma_step_keeps_wf(game: PongGame)
    requires
        game.wf(),
        game.steppable(),
    ensures
        game.stepped().wf(),
{
}

/// A frame keeps the ball in play, provided that the court is at least as
/// high as the ball travels in one frame.
pub proof fn lemma_step_keeps_ball_in_play(game: PongGame)
    requires
        game.wf(),
        game.steppable(),
        game.ball_in_play(),
        game.court_holds_a_step(),
    ensures
        game.stepped().ball_in_play(),
{
    let speed = game.speed as int;
    let dy = game.next_direction_y();
    assert(speed * dy == if dy == 1 { speed } else { -speed }) by (nonlinear_arith)
        requires
            dy == 1 || dy == -1,
    ;
}

/// A ball in play is never further outside the horizontal walls than it
/// travels in one frame.
pub proof fn lemma_ball_in_play_is_near(game: PongGame)
    requires
        game.wf(),
        game.ball_in_play(),
    ensures
        game.constraints.y1 - game.speed < game.ball.position.y < game.constraints.y2 + game.speed,
{
}

/// The frame in which a ball in play turns at a horizontal wall puts it
/// between the walls.
pub proof fn lemma_turn_returns_ball(game: PongGame)
    requires
        game.wf(),
        game.steppable(),
        game.ball_in_play(),
        game.court_holds_a_step(),
        game.turns_at_wall(),
    ensures
        game.constraints.y1 <= game.stepped().ball.position.y <= game.constraints.y2,
{
    let speed = game.speed as int;
    let dy = game.next_direction_y();
    assert(speed * dy == if dy == 1 { speed } else { -speed }) by (nonlinear_arith)
        requires
            dy == 1 || dy == -1,
    ;
}

/// Over any number of frames a ball in play stays in play: between the
/// horizontal walls, but for an overshoot of less than one frame's travel
/// that the following frame turns back.
pub proof fn lemma_ball_stays_in_play(game: PongGame, n: nat)
    requires
        game.wf(),
        game.ball_in_play(),
        game.court_holds_a_step(),
        game.runs_for(n),
    ensures
        game.after_frames(n).wf(),
        game.after_frames(n).ball_in_play(),
        game.after_frames(n).constraints == game.constraints,
        game.after_frames(n).speed == game.speed,
        game.constraints.y1 - game.speed < game.after_frames(n).ball.position.y
            < game.constraints.y2 + game.speed,
    decreases n,
{
    if n > 0 {
        let m = (n - 1) as nat;
        assert(game.runs_for(m));
        lemma_ball_stays_in_play(game, m);
        let before = game.after_frames(m);
        assert(before.steppable());
        lemma_step_keeps_wf(before);
        lemma_step_keeps_ball_in_play(before);
    }
    lemma_ball_in_play_is_near(game.after_frames(n));
}

/// A paddle command keeps the invariant of the game, and keeps both paddles
/// between the horizontal walls if they were.
pub proof fn lemma_command_keeps_paddles_in_court(game: PongGame, direction: Direction, paddle: usize)
    requires
        game.wf(),
    ensures
        game.with_paddle_moved(direction, paddle).wf(),
        game.paddles_in_court() ==> game.with_paddle_moved(direction, paddle).paddles_in_court(),
{
}

/// No sequence of paddle commands takes a paddle past a horizontal wall.
pub proof fn lemma_paddles_stay_in_court(game: PongGame, commands: Seq<(Direction, usize)>)
    requires
        game.wf(),
        game.paddles_in_court(),
    ensures
        game.after_commands(commands).wf(),
        game.after_commands(commands).paddles_in_court(),
    decreases commands.len(),
{
    if commands.len() > 0 {
        let command = commands.last();
        lemma_paddles_stay_in_court(game, commands.drop_last());
        lemma_command_keeps_paddles_in_court(
            game.after_commands(commands.drop_last()),
            command.0,
            command.1,
        );
    }
}

/// A new game has both paddles between the horizontal walls exactly when the
/// court is high enough for a paddle and its margin.
pub proof fn lemma_initial_paddles_in_court(constraints: Constraints)
    requires
        constraints.wf(),
    ensures
        PongGame::initial(constraints).paddles_in_court() <==> constraints.y2 - constraints.y1
            >= PADDLE_HEIGHT + PADDLE_MARGIN,
{
}

/// A ball that one paddle, and not the other in the same frame, has turned is
/// not turned by that paddle again in the next frame, however close to the
/// paddle it still is: it moves away from the paddle.
pub proof fn lemma_turned_ball_moves_away(game: PongGame)
    requires
        game.wf(),
        game.steppable(),
    ensures
        game.bounces_left() && !game.bounces_right() ==> !game.stepped().bounces_left(),
        game.bounces_right() && !game.stepped().bounces_left() ==> !game.stepped().bounces_right(),
{
}

/// A frame takes at most one point from each player, and takes none from a
/// player towards whom the ball does not move when the frame is over with
/// the paddles.
pub proof fn lemma_points_lost_in_a_frame(game: PongGame)
    requires
        game.wf(),
        game.steppable(),
    ensures
        game.scores.0.value - 1 <= game.stepped().scores.0.value <= game.scores.0.value,
        game.scores.1.value - 1 <= game.stepped().scores.1.value <= game.scores.1.value,
        game.stepped().scores.1.value < game.scores.1.value ==> game.stepped().ball_direction_x > 0,
        game.stepped().scores.0.value < game.scores.0.value ==> game.direction_x_past_left() < 0,
{
}

/// A new game has the ball in play where the court holds the height at
/// which the ball starts.
pub proof fn lemma_initial_ball_in_play(constraints: Constraints)
    requires
        constraints.wf(),
        constraints.y1 <= BALL_START_Y <= constraints.y2,
    ensures
        PongGame::initial(constraints).wf(),
        PongGame::initial(constraints).ball_in_play(),
{
}

} // verus!
