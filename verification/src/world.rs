//! The whole toy as one explicit state record, advanced by a per-frame tick:
//! the current mode and pause values gate the movement controller, push
//! resolver and automaton, and the mode toggle triggers the edge-triggered
//! entry actions (spawn the player and level, or build the automaton from the
//! block layout and tear the puzzle entities down).

use vstd::prelude::*;
use crate::grid::{Pos, Tile, TileKind, in_area, MAX_TILES};
use crate::movement::{InputState, Player, movement_model, movement_frame, STEP_TIME_MS};
use crate::push::{back_resolved, pushed_tiles, resolve_push, tiles_in_area};
use crate::life::{Sim, sim_wf, sim_frame, sim_from_tiles, seeded_cells, out_of_grid_positions,
    tile_positions, stepped_cells, GRID_LIMIT, SIM_STEP_MS};
use crate::state::{GameState, PausedState, toggled_game, toggled_paused, puzzle_runs, life_runs};
use crate::timer::{Timer, timer_wf, ticked_wrapping, fires};

verus! {

/// Everything one frame learns from the keyboard: the held directional keys
/// and the two toggle keys' press edges.
#[derive(Clone, Copy, PartialEq, Eq, Structural, Debug)]
pub struct FrameInput {
    pub dirs: InputState,
    pub toggle_pause: bool,
    pub toggle_mode: bool,
}

/// The full state of the toy between frames.
#[derive(Clone, PartialEq, Eq, Debug)]
pub struct World {
    pub game_state: GameState,
    pub paused_state: PausedState,
    pub player: Option<Player>,
    pub tiles: Vec<Tile>,
    pub sim: Option<Sim>,
    pub level: Vec<Pos>,
    pub sim_width: usize,
    pub sim_height: usize,
}

/// The tiles spawned on entry to Playing: one movable tile per level
/// position.
pub open spec fn level_to_tiles(level: Seq<Pos>) -> Seq<Tile> {
    level.map_values(|p: Pos| Tile { kind: TileKind::Movable, pos: p })
}

/// The player as spawned on entry to Playing: at the origin, no direction
/// committed or buffered, a fresh step timer.
pub open spec fn initial_player() -> Player {
    Player {
        pos: Pos { x: 0, y: 0 },
        movement_timer: Timer { elapsed_ms: 0, duration_ms: STEP_TIME_MS },
        move_dir: None,
        next_move_dir: None,
    }
}

/// Structural world invariant: exactly the entities of the current mode
/// exist, and every component is well-formed. Tick preserves it.
pub open spec fn world_wf(w: World) -> bool {
    &&& 0 < w.sim_width <= GRID_LIMIT
    &&& 0 < w.sim_height <= GRID_LIMIT
    &&& w.level@.len() <= MAX_TILES
    &&& forall|j: int| 0 <= j < w.level@.len() ==> in_area(#[trigger] w.level@[j])
    &&& w.tiles@.len() <= MAX_TILES
    &&& (w.game_state is Playing ==> w.player is Some && w.sim is None)
    &&& (w.game_state is Living ==> w.player is None && w.sim is Some && w.tiles@.len() == 0)
    &&& (w.player matches Some(p) ==> timer_wf(p.movement_timer))
    &&& (w.sim matches Some(s) ==> sim_wf(s))
}

/// The drifting positions stay inside the play area. Walking or pushing can
/// move them, so the host re-checks this machine bound before each frame.
pub open spec fn world_positions_bounded(w: World) -> bool {
    &&& (w.player matches Some(p) ==> in_area(p.pos))
    &&& tiles_in_area(w.tiles@)
}

/// The player after an unpaused puzzle frame: one movement frame, then the
/// immovable pass of push resolution against the (pre-push) tile layout.
pub open spec fn puzzle_player_after(p: Player, i: InputState, dt: u64, tiles: Seq<Tile>) -> Player {
    let moved = movement_model(p, i, dt);
    Player { pos: back_resolved(moved.pos, moved.move_dir, tiles), ..moved }
}

/// The tiles after an unpaused puzzle frame: the movable pass of push
/// resolution against the resolved player position.
pub open spec fn puzzle_tiles_after(p: Player, i: InputState, dt: u64, tiles: Seq<Tile>) -> Seq<Tile> {
    let moved = movement_model(p, i, dt);
    pushed_tiles(tiles, back_resolved(moved.pos, moved.move_dir, tiles), moved.move_dir)
}

/// `s1` is `s0` advanced by one automaton frame of `dt` milliseconds.
pub open spec fn sim_advanced(s0: Sim, s1: Sim, dt: u64) -> bool {
    &&& s1.width == s0.width
    &&& s1.height == s0.height
    &&& s1.timer == ticked_wrapping(s0.timer, dt)
    &&& s1.cells@ == if fires(s0.timer, dt) {
        stepped_cells(s0.cells@, s0.width as int, s0.height as int)
    } else {
        s0.cells@
    }
}

/// The tile layout standing after this frame's gated systems and before any
/// mode transition: the automaton is seeded from it on entry to Living.
pub open spec fn tiles_after_systems(w: World, input: FrameInput, dt: u64) -> Seq<Tile> {
    if puzzle_runs(w.game_state, w.paused_state) {
        puzzle_tiles_after(w.player->0, input.dirs, dt, w.tiles@)
    } else {
        w.tiles@
    }
}

impl World {
    /// A fresh world: puzzle mode, paused, the player at the origin, the
    /// level's movable tiles spawned, no automaton.
    pub fn new(level: Vec<Pos>, sim_width: usize, sim_height: usize) -> (w: World)
        requires
            0 < sim_width <= GRID_LIMIT,
            0 < sim_height <= GRID_LIMIT,
            level@.len() <= MAX_TILES,
            forall|j: int| 0 <= j < level@.len() ==> in_area(#[trigger] level@[j]),
        ensures
            world_wf(w),
            world_positions_bounded(w),
            w.game_state is Playing,
            w.paused_state is Paused,
            w.player == Some(initial_player()),
            w.tiles@ == level_to_tiles(level@),
            w.sim is None,
            w.level@ == level@,
            w.sim_width == sim_width,
            w.sim_height == sim_height,
    {
        let tiles = spawn_level_tiles(&level);
        World {
            game_state: GameState::Playing,
            paused_state: PausedState::Paused,
            player: Some(
                Player {
                    pos: Pos { x: 0, y: 0 },
                    movement_timer: Timer::new(STEP_TIME_MS),
                    move_dir: None,
                    next_move_dir: None,
                },
            ),
            tiles,
            sim: None,
            level,
            sim_width,
            sim_height,
        }
    }

    /// Advance the toy by one frame of `dt_ms` milliseconds.
    ///
    /// The systems of the current mode run first, gated by the pause axis;
    /// the toggle edges are applied afterwards, so a transition's entry
    /// actions see the frame's settled state. On entry to Living the
    /// automaton is seeded from the tiles before they are despawned; the
    /// returned positions are the ones that fell outside the automaton grid
    /// and were skipped (reported, not fatal).
    pub fn tick(&mut self, input: FrameInput, dt_ms: u64) -> (rejected: Vec<Pos>)
        requires
            world_wf(*old(self)),
            world_positions_bounded(*old(self)),
        ensures
            world_wf(*final(self)),
            final(self).level@ == old(self).level@,
            final(self).sim_width == old(self).sim_width,
            final(self).sim_height == old(self).sim_height,
            final(self).paused_state == if input.toggle_pause {
                toggled_paused(old(self).paused_state)
            } else {
                old(self).paused_state
            },
            final(self).game_state == if input.toggle_mode {
                toggled_game(old(self).game_state)
            } else {
                old(self).game_state
            },
            // A paused frame without a mode toggle freezes the simulations:
            // nothing advances and nothing of their state is lost.
            old(self).paused_state is Paused && !input.toggle_mode ==> {
                &&& final(self).player == old(self).player
                &&& final(self).tiles@ == old(self).tiles@
                &&& final(self).sim == old(self).sim
            },
            // An unpaused puzzle frame runs movement then push resolution.
            puzzle_runs(old(self).game_state, old(self).paused_state) && !input.toggle_mode ==> {
                &&& final(self).player == Some(
                    puzzle_player_after(old(self).player->0, input.dirs, dt_ms, old(self).tiles@),
                )
                &&& final(self).tiles@ == puzzle_tiles_after(
                    old(self).player->0,
                    input.dirs,
                    dt_ms,
                    old(self).tiles@,
                )
                &&& final(self).sim is None
            },
            // An unpaused life frame advances the automaton by one frame.
            life_runs(old(self).game_state, old(self).paused_state) && !input.toggle_mode ==> {
                &&& final(self).player is None
                &&& final(self).tiles@ == old(self).tiles@
                &&& final(self).sim is Some
                &&& sim_advanced(old(self).sim->0, final(self).sim->0, dt_ms)
            },
            // Entering Living: the automaton is seeded from the settled
            // tiles, the puzzle entities are destroyed.
            input.toggle_mode && old(self).game_state is Playing ==> {
                &&& final(self).player is None
                &&& final(self).tiles@.len() == 0
                &&& final(self).sim is Some
                &&& final(self).sim->0.width == old(self).sim_width
                &&& final(self).sim->0.height == old(self).sim_height
                &&& final(self).sim->0.timer == (Timer { elapsed_ms: 0, duration_ms: SIM_STEP_MS })
                &&& final(self).sim->0.cells@ == seeded_cells(
                    tile_positions(tiles_after_systems(*old(self), input, dt_ms)),
                    old(self).sim_width as int,
                    old(self).sim_height as int,
                )
                &&& rejected@ == out_of_grid_positions(
                    tile_positions(tiles_after_systems(*old(self), input, dt_ms)),
                    old(self).sim_width as int,
                    old(self).sim_height as int,
                )
            },
            // Entering Playing: the player respawns and the level reloads,
            // the automaton is destroyed.
            input.toggle_mode && old(self).game_state is Living ==> {
                &&& final(self).player == Some(initial_player())
                &&& final(self).tiles@ == level_to_tiles(old(self).level@)
                &&& final(self).sim is None
            },
            !(input.toggle_mode && old(self).game_state is Playing) ==> rejected@.len() == 0,
    {
        let mut rejected: Vec<Pos> = Vec::new();

        // Gated per-frame systems, under the states current at frame start.
        if self.paused_state == PausedState::Unpaused {
            match self.game_state {
                GameState::Playing => {
                    let pl_opt = self.player;
                    match pl_opt {
                        Some(mut pl) => {
                            movement_frame(&mut pl, input.dirs, dt_ms);
                            resolve_push(&mut pl.pos, pl.move_dir, &mut self.tiles);
                            self.player = Some(pl);
                        },
                        None => {
                            proof {
                                assert(false);
                            }
                        },
                    }
                },
                GameState::Living => {
                    match &mut self.sim {
                        Some(s) => {
                            sim_frame(s, dt_ms);
                        },
                        None => {
                            proof {
                                assert(false);
                            }
                        },
                    }
                },
            }
        }

        // Edge-triggered transitions, applied after the frame's systems.
        if input.toggle_pause {
            self.paused_state = self.paused_state.toggled();
        }
        if input.toggle_mode {
            let entered = self.game_state.toggled();
            self.game_state = entered;
            match entered {
                GameState::Living => {
                    // Build the automaton from the tiles before despawning
                    // them: construction precedes teardown in the same frame.
                    let (sim, rej) = sim_from_tiles(&self.tiles, self.sim_width, self.sim_height);
                    self.sim = Some(sim);
                    rejected = rej;
                    self.player = None;
                    self.tiles = Vec::new();
                },
                GameState::Playing => {
                    self.player = Some(
                        Player {
                            pos: Pos { x: 0, y: 0 },
                            movement_timer: Timer::new(STEP_TIME_MS),
                            move_dir: None,
                            next_move_dir: None,
                        },
                    );
                    self.tiles = spawn_level_tiles(&self.level);
                    self.sim = None;
                },
            }
        }
        rejected
    }
}

/// Spawn one movable tile per level position.
fn spawn_level_tiles(level: &Vec<Pos>) -> (tiles: Vec<Tile>)
    ensures
        tiles@ == level_to_tiles(level@),
{
    let mut tiles: Vec<Tile> = Vec::new();
    let n = level.len();
    let mut i: usize = 0;
    while i < n
        invariant
            n == level@.len(),
            0 <= i <= n,
            tiles@.len() == i,
            forall|j: int|
                0 <= j < i ==> #[trigger] tiles@[j] == (Tile {
                    kind: TileKind::Movable,
                    pos: level@[j],
                }),
        decreases n - i,
    {
        tiles.push(Tile { kind: TileKind::Movable, pos: level[i] });
        i = i + 1;
    }
    proof {
        assert(tiles@ =~= level_to_tiles(level@));
    }
    tiles
}

} // verus!
