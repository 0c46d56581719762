//! The state machine around the rounds: a round runs until the ship is hit,
//! the game-over prompt waits for one of two keys, and a new round or the
//! end follows.

use vstd::prelude::*;
use crate::round::{
    Round, RoundState, create_new_world, distinct, frame_outcome, hit, initial_model,
};

verus! {

/// Where the game stands, without the world: in a round with the score so
/// far, at the game-over prompt with the final score, or over.
#[derive(Clone, Copy, Debug, PartialEq, Eq, Structural)]
pub enum Phase {
    Round(u64),
    GameOverPrompt(u64),
    Quit,
}

/// What the player chose at the game-over prompt.
#[derive(Clone, Copy, Debug, PartialEq, Eq, Structural)]
pub enum Decision {
    Restart,
    Quit,
}

/// The keys that were pressed on a frame.
#[derive(Clone, Copy, Debug, PartialEq, Eq, Structural)]
pub struct Input {
    pub right: bool,
    pub left: bool,
    pub space: bool,
    pub enter: bool,
}

/// The game: a round in play, the game-over prompt with the final score and
/// the grid of the next round, or the end.
pub enum Game {
    Playing(Round),
    Over { score: u64, grid: (u16, u16) },
    Quit,
}

/// The choice that the keys make at the prompt: space restarts, and is
/// looked at first; enter quits; anything else is no choice.
pub open spec fn decision(space: bool, enter: bool) -> Option<Decision> {
    if space {
        Some(Decision::Restart)
    } else if enter {
        Some(Decision::Quit)
    } else {
        None
    }
}

/// The phase after a frame of a round that left the score at `score`.
pub open spec fn phase_after_frame(state: RoundState, score: u64) -> Phase {
    match state {
        RoundState::Running => Phase::Round(score),
        RoundState::Ended => Phase::GameOverPrompt(score),
    }
}

/// The phase after a frame at the prompt.
pub open spec fn phase_after_prompt(score: u64, space: bool, enter: bool) -> Phase {
    match decision(space, enter) {
        Some(Decision::Restart) => Phase::Round(0),
        Some(Decision::Quit) => Phase::Quit,
        None => Phase::GameOverPrompt(score),
    }
}

/// The choice that the keys make at the prompt.
pub fn prompt_decision(space: bool, enter: bool) -> (choice: Option<Decision>)
    ensures
        choice == decision(space, enter),
{
    if space {
        Some(Decision::Restart)
    } else if enter {
        Some(Decision::Quit)
    } else {
        None
    }
}

/// The phase after a frame of a round.
pub fn after_frame(state: RoundState, score: u64) -> (phase: Phase)
    ensures
        phase == phase_after_frame(state, score),
{
    match state {
        RoundState::Running => Phase::Round(score),
        RoundState::Ended => Phase::GameOverPrompt(score),
    }
}

/// The phase after a frame at the prompt.
pub fn after_prompt(score: u64, space: bool, enter: bool) -> (phase: Phase)
    ensures
        phase == phase_after_prompt(score, space, enter),
{
    match prompt_decision(space, enter) {
        Some(Decision::Restart) => Phase::Round(0),
        Some(Decision::Quit) => Phase::Quit,
        None => Phase::GameOverPrompt(score),
    }
}

impl Game {
    /// The round is well formed, and the grid of the next one can hold a ship.
    pub open spec fn wf(&self) -> bool {
        match *self {
            Game::Playing(round) => round.wf(),
            Game::Over { score, grid } => grid.0 >= 1 && grid.1 >= 2,
            Game::Quit => true,
        }
    }

    /// The phase that the game is in.
    pub open spec fn phase(&self) -> Phase {
        match *self {
            Game::Playing(round) => Phase::Round(round.score()),
            Game::Over { score, grid } => Phase::GameOverPrompt(score),
            Game::Quit => Phase::Quit,
        }
    }

    /// `next` follows on `self` by one frame with the keys `input`: a round
    /// goes one frame further and ends at the prompt if the ship was hit; the
    /// prompt stays, or leads to a new round with everything as at the start,
    /// or to the end; the end stays.
    pub open spec fn leads_to(&self, next: Game, input: Input) -> bool {
        match *self {
            Game::Playing(round) => {
                exists|hole: u16, after: Round|
                    {
                        &&& hole < round.grid.0
                        &&& after.wf()
                        &&& after.handles == round.handles
                        &&& after.grid == round.grid
                        &&& #[trigger] frame_outcome(
                            round@,
                            after@,
                            round.handles,
                            round.grid,
                            input.right,
                            input.left,
                            hole,
                        )
                        &&& next == if hit(after@, after.ship_position()) {
                            Game::Over { score: after.score(), grid: after.grid }
                        } else {
                            Game::Playing(after)
                        }
                    }
            },
            Game::Over { score, grid } => match decision(input.space, input.enter) {
                Some(Decision::Restart) => {
                    &&& next is Playing
                    &&& next->Playing_0.wf()
                    &&& next->Playing_0.grid == grid
                    &&& distinct(next->Playing_0.handles)
                    &&& next->Playing_0@ == initial_model(next->Playing_0.handles, grid)
                },
                Some(Decision::Quit) => next is Quit,
                None => next == *self,
            },
            Game::Quit => next is Quit,
        }
    }

    /// A game at the start of its first round.
    pub fn new(grid: (u16, u16)) -> (game: Game)
        requires
            grid.0 >= 1,
            grid.1 >= 2,
        ensures
            game.wf(),
            game is Playing,
            game->Playing_0.grid == grid,
            distinct(game->Playing_0.handles),
            game->Playing_0@ == initial_model(game->Playing_0.handles, grid),
            game.phase() == Phase::Round(0),
    {
        Game::Playing(create_new_world(grid))
    }

    /// The game one frame later, with the keys `input`.
    pub fn advance(self, input: Input) -> (next: Game)
        requires
            self.wf(),
        ensures
            next.wf(),
            self.leads_to(next, input),
            self is Over ==> next.phase() == phase_after_prompt(
                self->Over_score,
                input.space,
                input.enter,
            ),
            self is Over && input.space ==> next is Playing && next->Playing_0.score() == 0
                && next->Playing_0.ship_position() == (
                self->Over_grid.0 / 2,
                (self->Over_grid.1 - 2) as u16,
            ),
            self is Quit ==> next is Quit,
    {
        match self {
            Game::Playing(mut round) => {
                let state = round.step(input.right, input.left);
                let score = round.current_score();
                match after_frame(state, score) {
                    Phase::GameOverPrompt(score) => Game::Over { score, grid: round.grid },
                    _ => Game::Playing(round),
                }
            },
            Game::Over { score, grid } => match after_prompt(score, input.space, input.enter) {
                Phase::Round(_) => Game::Playing(create_new_world(grid)),
                Phase::GameOverPrompt(score) => Game::Over { score, grid },
                Phase::Quit => Game::Quit,
            },
            Game::Quit => Game::Quit,
        }
    }
}

} // verus!
