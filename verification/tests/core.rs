use gridlife::grid::{Dir, Pos, Tile, TileKind};
use gridlife::level::parse_level;
use gridlife::life::{life_step, sim_frame, sim_from_tiles, LifeType, Lifetile, Sim, SIM_STEP_MS};
use gridlife::movement::{movement_frame, InputState, Player, STEP_TIME_MS};
use gridlife::push::resolve_push;
use gridlife::timer::Timer;

fn no_keys() -> InputState {
    InputState { up: false, down: false, left: false, right: false }
}

fn only(d: Dir) -> InputState {
    InputState {
        up: matches!(d, Dir::Up),
        down: matches!(d, Dir::Down),
        left: matches!(d, Dir::Left),
        right: matches!(d, Dir::Right),
    }
}

fn fresh_player(x: i64, y: i64) -> Player {
    Player {
        pos: Pos { x, y },
        movement_timer: Timer::new(STEP_TIME_MS),
        move_dir: None,
        next_move_dir: None,
    }
}

#[test]
fn up_then_down_round_trips() {
    let mut p = fresh_player(5, 7);
    movement_frame(&mut p, only(Dir::Up), STEP_TIME_MS);
    assert_eq!(p.pos, Pos { x: 5, y: 8 });
    assert_eq!(p.move_dir, Some(Dir::Up));
    movement_frame(&mut p, only(Dir::Down), STEP_TIME_MS);
    assert_eq!(p.pos, Pos { x: 5, y: 7 });
    assert_eq!(p.move_dir, Some(Dir::Down));
}

#[test]
fn all_four_directions_translate_one_tile() {
    for (d, dx, dy) in [
        (Dir::Up, 0, 1),
        (Dir::Down, 0, -1),
        (Dir::Left, -1, 0),
        (Dir::Right, 1, 0),
    ] {
        let mut p = fresh_player(0, 0);
        movement_frame(&mut p, only(d), STEP_TIME_MS);
        assert_eq!(p.pos, Pos { x: dx, y: dy });
    }
}

#[test]
fn no_step_before_interval_elapses() {
    let mut p = fresh_player(0, 0);
    movement_frame(&mut p, only(Dir::Right), STEP_TIME_MS - 1);
    assert_eq!(p.pos, Pos { x: 0, y: 0 });
    assert_eq!(p.next_move_dir, Some(Dir::Right));
    movement_frame(&mut p, only(Dir::Right), 1);
    assert_eq!(p.pos, Pos { x: 1, y: 0 });
    assert_eq!(p.next_move_dir, None);
}

#[test]
fn new_press_priority_order_is_up_down_right_left() {
    let mut p = fresh_player(0, 0);
    let all = InputState { up: true, down: true, left: true, right: true };
    movement_frame(&mut p, all, STEP_TIME_MS);
    assert_eq!(p.move_dir, Some(Dir::Up));

    let mut q = fresh_player(0, 0);
    let dl = InputState { up: false, down: true, left: true, right: false };
    movement_frame(&mut q, dl, STEP_TIME_MS);
    assert_eq!(q.move_dir, Some(Dir::Down));
}

#[test]
fn held_current_direction_wins_over_new_press() {
    let mut p = fresh_player(0, 0);
    p.move_dir = Some(Dir::Left);
    let both = InputState { up: true, down: false, left: true, right: false };
    movement_frame(&mut p, both, STEP_TIME_MS);
    assert_eq!(p.move_dir, Some(Dir::Left));
    assert_eq!(p.pos, Pos { x: -1, y: 0 });
}

#[test]
fn idle_timer_saturates_and_fires_at_once() {
    let mut p = fresh_player(0, 0);
    movement_frame(&mut p, no_keys(), STEP_TIME_MS + 50);
    assert_eq!(p.pos, Pos { x: 0, y: 0 });
    assert_eq!(p.movement_timer.elapsed_ms, STEP_TIME_MS);
    // The saturated timer fires immediately once a key is pressed.
    movement_frame(&mut p, only(Dir::Up), 0);
    assert_eq!(p.pos, Pos { x: 0, y: 1 });
}

#[test]
fn push_displaces_movable_not_player() {
    // The player has just stepped right onto the movable tile's cell.
    let mut ppos = Pos { x: 1, y: 0 };
    let mut tiles = vec![Tile { kind: TileKind::Movable, pos: Pos { x: 1, y: 0 } }];
    resolve_push(&mut ppos, Some(Dir::Right), &mut tiles);
    assert_eq!(ppos, Pos { x: 1, y: 0 });
    assert_eq!(tiles[0].pos, Pos { x: 2, y: 0 });
    assert_eq!(tiles[0].kind, TileKind::Movable);
}

#[test]
fn immovable_pushes_player_back() {
    let mut ppos = Pos { x: 1, y: 0 };
    let mut tiles = vec![Tile { kind: TileKind::Immovable, pos: Pos { x: 1, y: 0 } }];
    resolve_push(&mut ppos, Some(Dir::Right), &mut tiles);
    assert_eq!(ppos, Pos { x: 0, y: 0 });
    assert_eq!(tiles[0].pos, Pos { x: 1, y: 0 });
}

#[test]
fn distant_tiles_are_untouched() {
    let mut ppos = Pos { x: 0, y: 0 };
    let mut tiles = vec![
        Tile { kind: TileKind::Movable, pos: Pos { x: 3, y: 0 } },
        Tile { kind: TileKind::Immovable, pos: Pos { x: 0, y: 2 } },
    ];
    resolve_push(&mut ppos, Some(Dir::Up), &mut tiles);
    assert_eq!(ppos, Pos { x: 0, y: 0 });
    assert_eq!(tiles[0].pos, Pos { x: 3, y: 0 });
    assert_eq!(tiles[1].pos, Pos { x: 0, y: 2 });
}

#[test]
fn pushed_tile_is_not_rechecked_against_walls() {
    // The known gap is kept: a movable tile may be pushed onto an immovable.
    let mut ppos = Pos { x: 1, y: 0 };
    let mut tiles = vec![
        Tile { kind: TileKind::Movable, pos: Pos { x: 1, y: 0 } },
        Tile { kind: TileKind::Immovable, pos: Pos { x: 2, y: 0 } },
    ];
    resolve_push(&mut ppos, Some(Dir::Right), &mut tiles);
    assert_eq!(tiles[0].pos, Pos { x: 2, y: 0 });
    assert_eq!(tiles[1].pos, Pos { x: 2, y: 0 });
}

fn grid(width: usize, height: usize, living: &[(usize, usize)]) -> Sim {
    let mut cells = Vec::new();
    for _ in 0..width * height {
        cells.push(Lifetile { curstate: LifeType::Dead, nextstate: LifeType::Dead });
    }
    for &(x, y) in living {
        cells[y * width + x] = Lifetile { curstate: LifeType::Living, nextstate: LifeType::Living };
    }
    Sim { cells, width, height, timer: Timer::new(SIM_STEP_MS) }
}

fn living_cells(sim: &Sim) -> Vec<(usize, usize)> {
    let mut out = Vec::new();
    for (i, c) in sim.cells.iter().enumerate() {
        if c.curstate == LifeType::Living {
            out.push((i % sim.width, i / sim.width));
        }
    }
    out
}

#[test]
fn lonely_cell_dies_and_three_neighbors_give_birth() {
    let mut sim = grid(3, 3, &[(1, 1)]);
    life_step(&mut sim);
    assert_eq!(living_cells(&sim), vec![]);

    let mut sim = grid(3, 3, &[(0, 0), (1, 0), (0, 1)]);
    life_step(&mut sim);
    // The three survive (2 neighbors each) and their common neighbor is born.
    assert_eq!(living_cells(&sim), vec![(0, 0), (1, 0), (0, 1), (1, 1)]);
}

#[test]
fn overcrowded_cell_dies() {
    let mut sim = grid(3, 3, &[(1, 1), (0, 0), (2, 0), (0, 2), (2, 2)]);
    life_step(&mut sim);
    // The center has 4 neighbors and dies; each corner keeps 1 and dies too,
    // while the side cells are born with 3.
    assert_eq!(living_cells(&sim), vec![(1, 0), (0, 1), (2, 1), (1, 2)]);
}

#[test]
fn block_is_still_life() {
    let start = grid(4, 4, &[(1, 1), (2, 1), (1, 2), (2, 2)]);
    let mut sim = grid(4, 4, &[(1, 1), (2, 1), (1, 2), (2, 2)]);
    for _ in 0..3 {
        life_step(&mut sim);
        assert_eq!(living_cells(&sim), living_cells(&start));
    }
}

#[test]
fn blinker_oscillates_with_period_two() {
    let mut sim = grid(5, 5, &[(1, 2), (2, 2), (3, 2)]);
    life_step(&mut sim);
    assert_eq!(living_cells(&sim), vec![(2, 1), (2, 2), (2, 3)]);
    life_step(&mut sim);
    assert_eq!(living_cells(&sim), vec![(1, 2), (2, 2), (3, 2)]);
}

#[test]
fn rows_do_not_wrap_at_the_grid_edge() {
    // A vertical triple on the right edge: with flat-offset wrap-around its
    // ends would feed cells of the next rows; bounded addressing gives the
    // truncated result below.
    let mut sim = grid(3, 3, &[(2, 0), (2, 1), (2, 2)]);
    life_step(&mut sim);
    assert_eq!(living_cells(&sim), vec![(1, 1), (2, 1)]);
}

#[test]
fn sim_timer_only_fires_on_its_interval() {
    let mut sim = grid(3, 3, &[(1, 1)]);
    sim_frame(&mut sim, SIM_STEP_MS - 1);
    assert_eq!(living_cells(&sim), vec![(1, 1)]);
    sim_frame(&mut sim, 1);
    assert_eq!(living_cells(&sim), vec![]);
}

#[test]
fn seeding_turns_each_tile_into_a_living_cell() {
    let tiles = vec![
        Tile { kind: TileKind::Movable, pos: Pos { x: 0, y: 0 } },
        Tile { kind: TileKind::Movable, pos: Pos { x: 1, y: 1 } },
    ];
    let (sim, rejected) = sim_from_tiles(&tiles, 3, 3);
    assert_eq!(rejected, vec![]);
    assert_eq!(sim.width, 3);
    assert_eq!(sim.height, 3);
    assert_eq!(sim.cells.len(), 9);
    assert_eq!(living_cells(&sim), vec![(0, 0), (1, 1)]);
    let dead = sim.cells.iter().filter(|c| c.curstate == LifeType::Dead).count();
    assert_eq!(dead, 7);
}

#[test]
fn seeding_reports_and_skips_out_of_grid_tiles() {
    let tiles = vec![
        Tile { kind: TileKind::Movable, pos: Pos { x: 5, y: 0 } },
        Tile { kind: TileKind::Movable, pos: Pos { x: 1, y: 0 } },
        Tile { kind: TileKind::Movable, pos: Pos { x: 0, y: -1 } },
    ];
    let (sim, rejected) = sim_from_tiles(&tiles, 3, 3);
    assert_eq!(rejected, vec![Pos { x: 5, y: 0 }, Pos { x: 0, y: -1 }]);
    assert_eq!(living_cells(&sim), vec![(1, 0)]);
}

fn rows(texts: &[&str]) -> Vec<Vec<char>> {
    texts.iter().map(|t| t.chars().collect()).collect()
}

#[test]
fn hash_at_row_zero_column_one_is_the_origin_tile() {
    let tiles = parse_level(&rows(&[" #"]));
    assert_eq!(tiles, vec![Pos { x: 0, y: 0 }]);
}

#[test]
fn even_columns_are_ignored() {
    let tiles = parse_level(&rows(&["#", "##"]));
    assert_eq!(tiles, vec![Pos { x: 0, y: 1 }]);
}

#[test]
fn rows_and_columns_map_to_grid_positions() {
    let tiles = parse_level(&rows(&[" # #", "", " x #"]));
    assert_eq!(tiles, vec![Pos { x: 0, y: 0 }, Pos { x: 1, y: 0 }, Pos { x: 1, y: 2 }]);
}

#[test]
fn empty_map_has_no_tiles() {
    let tiles = parse_level(&rows(&[]));
    assert_eq!(tiles, vec![]);
}

#[test]
fn cell_states_pick_their_texture() {
    assert_eq!(gridlife::life::texture_for(LifeType::Living), "cell.png");
    assert_eq!(gridlife::life::texture_for(LifeType::Dead), "dead_cell.png");
}
