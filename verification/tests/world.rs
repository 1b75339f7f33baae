use gridlife::grid::{Pos, TileKind};
use gridlife::life::LifeType;
use gridlife::movement::{InputState, STEP_TIME_MS};
use gridlife::state::{GameState, PausedState};
use gridlife::world::{FrameInput, World};

fn idle() -> FrameInput {
    FrameInput {
        dirs: InputState { up: false, down: false, left: false, right: false },
        toggle_pause: false,
        toggle_mode: false,
    }
}

fn hold_up() -> FrameInput {
    FrameInput {
        dirs: InputState { up: true, down: false, left: false, right: false },
        toggle_pause: false,
        toggle_mode: false,
    }
}

fn pause_key() -> FrameInput {
    FrameInput { toggle_pause: true, ..idle() }
}

fn mode_key() -> FrameInput {
    FrameInput { toggle_mode: true, ..idle() }
}

fn player_pos(w: &World) -> Pos {
    w.player.as_ref().expect("puzzle mode has a player").pos
}

#[test]
fn new_world_spawns_player_and_level() {
    let w = World::new(vec![Pos { x: 2, y: 0 }], 8, 8);
    assert_eq!(w.game_state, GameState::Playing);
    assert_eq!(w.paused_state, PausedState::Paused);
    assert_eq!(player_pos(&w), Pos { x: 0, y: 0 });
    assert_eq!(w.tiles.len(), 1);
    assert_eq!(w.tiles[0].kind, TileKind::Movable);
    assert_eq!(w.tiles[0].pos, Pos { x: 2, y: 0 });
    assert!(w.sim.is_none());
}

#[test]
fn pausing_freezes_movement_without_losing_progress() {
    let mut w = World::new(vec![], 8, 8);
    w.tick(pause_key(), 0);
    assert_eq!(w.paused_state, PausedState::Unpaused);

    // Half a step interval accumulates, no step yet.
    w.tick(hold_up(), STEP_TIME_MS / 2);
    assert_eq!(player_pos(&w), Pos { x: 0, y: 0 });

    // Freeze mid-interval: nothing advances, however long the pause lasts.
    w.tick(pause_key(), 0);
    assert_eq!(w.paused_state, PausedState::Paused);
    let frozen = w.player.clone();
    for _ in 0..5 {
        w.tick(hold_up(), 10 * STEP_TIME_MS);
    }
    assert_eq!(w.player, frozen);

    // Unpause: the half-done interval resumes where it stopped, so exactly
    // the missing half completes the step. No progress is lost or repeated.
    w.tick(pause_key(), 0);
    w.tick(hold_up(), STEP_TIME_MS / 2);
    assert_eq!(player_pos(&w), Pos { x: 0, y: 1 });
}

#[test]
fn entering_living_builds_the_automaton_and_tears_down_the_puzzle() {
    let level = vec![Pos { x: 0, y: 0 }, Pos { x: 1, y: 1 }, Pos { x: 2, y: 2 }];
    let mut w = World::new(level, 4, 4);
    let rejected = w.tick(mode_key(), 0);
    assert_eq!(rejected, vec![]);
    assert_eq!(w.game_state, GameState::Living);
    assert!(w.player.is_none());
    assert!(w.tiles.is_empty());
    let sim = w.sim.as_ref().expect("life mode has the automaton");
    let living = sim.cells.iter().filter(|c| c.curstate == LifeType::Living).count();
    let dead = sim.cells.iter().filter(|c| c.curstate == LifeType::Dead).count();
    assert_eq!(living, 3);
    assert_eq!(dead, 4 * 4 - 3);
}

#[test]
fn entering_living_reports_tiles_off_the_automaton_grid() {
    let level = vec![Pos { x: 9, y: 9 }, Pos { x: 1, y: 0 }];
    let mut w = World::new(level, 3, 3);
    let rejected = w.tick(mode_key(), 0);
    assert_eq!(rejected, vec![Pos { x: 9, y: 9 }]);
    let sim = w.sim.as_ref().unwrap();
    let living = sim.cells.iter().filter(|c| c.curstate == LifeType::Living).count();
    assert_eq!(living, 1);
}

#[test]
fn returning_to_playing_reloads_the_level() {
    let level = vec![Pos { x: 2, y: 1 }];
    let mut w = World::new(level, 4, 4);
    w.tick(mode_key(), 0);
    assert_eq!(w.game_state, GameState::Living);
    w.tick(mode_key(), 0);
    assert_eq!(w.game_state, GameState::Playing);
    assert_eq!(player_pos(&w), Pos { x: 0, y: 0 });
    assert_eq!(w.tiles.len(), 1);
    assert_eq!(w.tiles[0].pos, Pos { x: 2, y: 1 });
    assert!(w.sim.is_none());
}

#[test]
fn paused_life_mode_does_not_advance_generations() {
    let level = vec![Pos { x: 1, y: 1 }];
    let mut w = World::new(level, 3, 3);
    w.tick(mode_key(), 0);
    // Still paused: the automaton's lone cell would die on a fired interval.
    w.tick(idle(), 10_000);
    let sim = w.sim.as_ref().unwrap();
    let living = sim.cells.iter().filter(|c| c.curstate == LifeType::Living).count();
    assert_eq!(living, 1);

    // Unpaused, a full interval kills the lonely cell.
    w.tick(pause_key(), 0);
    w.tick(idle(), 2_000);
    let sim = w.sim.as_ref().unwrap();
    let living = sim.cells.iter().filter(|c| c.curstate == LifeType::Living).count();
    assert_eq!(living, 0);
}

#[test]
fn puzzle_frame_pushes_blocks_and_blocks_on_walls() {
    let level = vec![Pos { x: 0, y: 1 }];
    let mut w = World::new(level, 8, 8);
    w.tick(pause_key(), 0);
    // Step up onto the movable tile: it is pushed onward, the player follows.
    w.tick(hold_up(), STEP_TIME_MS);
    assert_eq!(player_pos(&w), Pos { x: 0, y: 1 });
    assert_eq!(w.tiles[0].pos, Pos { x: 0, y: 2 });
}
