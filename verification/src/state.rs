//! The mode state machine: two independent two-state axes. GameState picks
//! which simulation exists (puzzle or life), PausedState independently gates
//! whether any simulation runs. Each axis toggles on its own key edge.

use vstd::prelude::*;

verus! {

/// Which of the two coupled modes the toy is in.
#[derive(Clone, Copy, PartialEq, Eq, Structural, Debug)]
pub enum GameState {
    Playing,
    Living,
}

/// Whether the simulations are frozen.
#[derive(Clone, Copy, PartialEq, Eq, Structural, Debug)]
pub enum PausedState {
    Paused,
    Unpaused,
}

pub open spec fn toggled_game(g: GameState) -> GameState {
    match g {
        GameState::Playing => GameState::Living,
        GameState::Living => GameState::Playing,
    }
}

pub open spec fn toggled_paused(p: PausedState) -> PausedState {
    match p {
        PausedState::Paused => PausedState::Unpaused,
        PausedState::Unpaused => PausedState::Paused,
    }
}

/// The movement controller and push resolver run only in this combination.
pub open spec fn puzzle_runs(g: GameState, p: PausedState) -> bool {
    g is Playing && p is Unpaused
}

/// The cellular automaton runs only in this combination.
pub open spec fn life_runs(g: GameState, p: PausedState) -> bool {
    g is Living && p is Unpaused
}

/// The two simulations can never run within the same frame: the game-state
/// axis is exclusive.
pub proof fn lemma_modes_exclusive(g: GameState, p: PausedState)
    ensures
        !(puzzle_runs(g, p) && life_runs(g, p)),
{
}

impl GameState {
    /// The other mode; toggled on the mode key's press edge.
    pub fn toggled(self) -> (r: GameState)
        ensures
            r == toggled_game(self),
    {
        match self {
            GameState::Playing => GameState::Living,
            GameState::Living => GameState::Playing,
        }
    }
}

impl PausedState {
    /// The other pause state; toggled on the pause key's press edge.
    pub fn toggled(self) -> (r: PausedState)
        ensures
            r == toggled_paused(self),
    {
        match self {
            PausedState::Paused => PausedState::Unpaused,
            PausedState::Unpaused => PausedState::Paused,
        }
    }
}

} // verus!
