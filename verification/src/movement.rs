//! The grid movement controller: buffers directional input between steps and
//! advances the player by exactly one tile per fixed step interval.

use vstd::prelude::*;
use crate::grid::{Dir, Pos, forward, can_move, step_forward};
use crate::timer::{Timer, timer_wf, ticked_saturating, finished};

verus! {

/// Milliseconds of one movement step interval.
pub const STEP_TIME_MS: u64 = 200;

/// Which directional keys are held during a frame.
#[derive(Clone, Copy, PartialEq, Eq, Structural, Debug)]
pub struct InputState {
    pub up: bool,
    pub down: bool,
    pub left: bool,
    pub right: bool,
}

/// The puzzle-mode player: its tile position, the step timer, the committed
/// direction of the step in progress, and the buffered direction for the next
/// step.
#[derive(Clone, Copy, PartialEq, Eq, Debug)]
pub struct Player {
    pub pos: Pos,
    pub movement_timer: Timer,
    pub move_dir: Option<Dir>,
    pub next_move_dir: Option<Dir>,
}

pub open spec fn player_wf(p: Player) -> bool {
    &&& timer_wf(p.movement_timer)
    &&& can_move(p.pos)
}

/// The key matching direction `d` is held.
pub open spec fn dir_held(i: InputState, d: Dir) -> bool {
    match d {
        Dir::Up => i.up,
        Dir::Down => i.down,
        Dir::Left => i.left,
        Dir::Right => i.right,
    }
}

/// The first held direction in the fixed priority order Up, Down, Right,
/// Left; `None` when no directional key is held.
pub open spec fn first_held(i: InputState) -> Option<Dir> {
    if i.up {
        Some(Dir::Up)
    } else if i.down {
        Some(Dir::Down)
    } else if i.right {
        Some(Dir::Right)
    } else if i.left {
        Some(Dir::Left)
    } else {
        None
    }
}

/// Direction-buffer selection: continuing the committed direction has
/// priority when its key is still held; otherwise the first held key in the
/// fixed priority order wins; with nothing held the buffer clears.
pub open spec fn selected_dir(cur: Option<Dir>, i: InputState) -> Option<Dir> {
    match cur {
        Some(d) => if dir_held(i, d) {
            Some(d)
        } else {
            first_held(i)
        },
        None => first_held(i),
    }
}

/// The player after one movement frame: the buffer takes the selected
/// direction, the step timer accumulates `dt`, and when it reaches the step
/// duration the buffered direction is committed, the position translates one
/// tile along it (a committed `None` instead leaves the timer saturated), and
/// the buffer clears.
pub open spec fn movement_model(p: Player, i: InputState, dt: u64) -> Player {
    let sel = selected_dir(p.move_dir, i);
    let t = ticked_saturating(p.movement_timer, dt);
    if finished(t) {
        match sel {
            Some(d) => Player {
                pos: forward(p.pos, sel),
                movement_timer: Timer { elapsed_ms: 0, duration_ms: t.duration_ms },
                move_dir: sel,
                next_move_dir: None,
            },
            None => Player {
                pos: p.pos,
                movement_timer: Timer { elapsed_ms: t.duration_ms, duration_ms: t.duration_ms },
                move_dir: None,
                next_move_dir: None,
            },
        }
    } else {
        Player { pos: p.pos, movement_timer: t, move_dir: p.move_dir, next_move_dir: sel }
    }
}

/// Run one frame of the movement controller. Translation is atomic: the
/// position either stays or moves by exactly one whole tile.
pub fn movement_frame(player: &mut Player, input: InputState, dt_ms: u64)
    requires
        player_wf(*old(player)),
    ensures
        *final(player) == movement_model(*old(player), input, dt_ms),
        timer_wf(final(player).movement_timer),
{
    let held_current = match player.move_dir {
        Some(Dir::Up) => input.up,
        Some(Dir::Down) => input.down,
        Some(Dir::Left) => input.left,
        Some(Dir::Right) => input.right,
        None => false,
    };
    if held_current {
        player.next_move_dir = player.move_dir;
    } else if input.up {
        player.next_move_dir = Some(Dir::Up);
    } else if input.down {
        player.next_move_dir = Some(Dir::Down);
    } else if input.right {
        player.next_move_dir = Some(Dir::Right);
    } else if input.left {
        player.next_move_dir = Some(Dir::Left);
    } else {
        player.next_move_dir = None;
    }

    player.movement_timer.tick_saturating(dt_ms);

    if player.movement_timer.elapsed_ms >= player.movement_timer.duration_ms {
        player.movement_timer.reset();
        player.move_dir = player.next_move_dir;
        match player.move_dir {
            Some(_) => {
                player.pos = step_forward(player.pos, player.move_dir);
            },
            None => {
                player.movement_timer.saturate();
            },
        }
        player.next_move_dir = None;
    }
}

} // verus!
