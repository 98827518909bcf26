//! Tests for the per-turn lifecycle of the world.

use ants::ant::Ant;
use ants::direction::Direction;
use ants::error::Error;
use ants::params::Params;
use ants::player::Player;
use ants::point::Point;
use ants::tile::Tile;
use ants::world::{parse_update, vision_offsets, Update, World};

fn example_params() -> Params {
    let mut params = Params::new();
    params.update("loadtime 3000").unwrap();
    params.update("turntime 1000").unwrap();
    params.update("rows 20").unwrap();
    params.update("cols 20").unwrap();
    params.update("turns 500").unwrap();
    params.update("viewradius2 55").unwrap();
    params.update("attackradius2 5").unwrap();
    params.update("spawnradius2 1").unwrap();
    params.update("player_seed 42").unwrap();
    params
}

fn snapshot(world: &World) -> Vec<Option<Tile>> {
    let mut cells = Vec::new();
    let mut it = world.grid.tiles();
    while let Some((_, t)) = it.next() {
        cells.push(t);
    }
    cells
}

#[test]
fn end_to_end_turn() {
    let params = example_params();
    let mut world = World::new(&params);
    assert_eq!(world.turn(), 0);
    world.update("turn 1").unwrap();
    world.update("a 3 4 0").unwrap();
    world.update("w 0 0").unwrap();
    assert_eq!(world.turn(), 1);
    assert_eq!(world.grid.get(Point { row: 0, col: 0 }), Some(Tile::Water));
    assert_eq!(
        world.grid.get(Point { row: 3, col: 4 }),
        Some(Tile::Ant(Ant { alive: true, owner: Player::Me }))
    );
    for dr in -8..=8i32 {
        for dc in -8..=8i32 {
            let d = dr * dr + dc * dc;
            if 0 < d && d <= 55 {
                let p = Point { row: 3 + dr, col: 4 + dc };
                assert!(world.grid.get(p).is_some(), "cell {:?} should be observed", p);
            }
        }
    }
}

#[test]
fn malformed_line_leaves_grid_unchanged() {
    let params = example_params();
    let mut world = World::new(&params);
    world.update("f 5 6").unwrap();
    let before = snapshot(&world);
    assert_eq!(world.update("x 1 2"), Err(Error::UnknownCommand));
    assert_eq!(snapshot(&world), before);
}

#[test]
fn vision_refresh_is_idempotent() {
    let params = example_params();
    let mut once = World::new(&params);
    once.update("a 3 4 0").unwrap();
    let mut twice = World::new(&params);
    twice.update("a 3 4 0").unwrap();
    twice.update("a 3 4 0").unwrap();
    assert_eq!(snapshot(&once), snapshot(&twice));
}

#[test]
fn vision_refresh_never_overwrites_known_content() {
    let params = example_params();
    let mut world = World::new(&params);
    world.update("f 3 5").unwrap();
    world.update("a 3 4 0").unwrap();
    assert_eq!(world.grid.get(Point { row: 3, col: 5 }), Some(Tile::Food));
}

#[test]
fn vision_refresh_only_for_own_living_ants() {
    let params = example_params();
    let mut world = World::new(&params);
    world.update("d 3 4 0").unwrap();
    world.update("a 10 10 2").unwrap();
    assert_eq!(world.grid.get(Point { row: 3, col: 5 }), None);
    assert_eq!(world.grid.get(Point { row: 10, col: 11 }), None);
}

#[test]
fn clear_forgets_everything_but_water() {
    let params = example_params();
    let mut world = World::new(&params);
    world.update("w 0 0").unwrap();
    world.update("f 5 6").unwrap();
    world.update("a 3 4 0").unwrap();
    world.clear();
    assert_eq!(world.grid.get(Point { row: 0, col: 0 }), Some(Tile::Water));
    assert_eq!(world.grid.get(Point { row: 5, col: 6 }), None);
    assert_eq!(world.grid.get(Point { row: 3, col: 4 }), None);
    world.clear();
    world.clear();
    assert_eq!(world.grid.get(Point { row: 0, col: 0 }), Some(Tile::Water));
}

#[test]
fn turn_line_only_moves_the_counter() {
    let params = example_params();
    let mut world = World::new(&params);
    world.update("f 5 6").unwrap();
    let before = snapshot(&world);
    world.update("turn 41").unwrap();
    assert_eq!(world.turn(), 41);
    assert_eq!(snapshot(&world), before);
}

#[test]
fn update_reports_each_error_kind() {
    let params = example_params();
    let mut world = World::new(&params);
    assert_eq!(world.update(""), Err(Error::UnexpectedLine));
    assert_eq!(world.update("w 1"), Err(Error::UnexpectedLine));
    assert_eq!(world.update("turn x"), Err(Error::ParseInt));
    assert_eq!(world.update("w a b"), Err(Error::ParseInt));
    assert_eq!(world.update("a 1 2"), Err(Error::UnknownCommand));
    assert_eq!(world.update("a 1 2 300"), Err(Error::ParseInt));
    assert_eq!(world.update("x 1 2 3"), Err(Error::UnknownCommand));
    assert_eq!(world.turn(), 0);
}

#[test]
fn update_accepts_each_command() {
    let params = example_params();
    let mut world = World::new(&params);
    world.update("w 1 1").unwrap();
    world.update("f 2 2").unwrap();
    world.update("h 4 4 1").unwrap();
    world.update("a 5 5 2").unwrap();
    world.update("d 6 6 0").unwrap();
    assert_eq!(world.grid.get(Point { row: 1, col: 1 }), Some(Tile::Water));
    assert_eq!(world.grid.get(Point { row: 2, col: 2 }), Some(Tile::Food));
    assert_eq!(world.grid.get(Point { row: 4, col: 4 }), Some(Tile::Hill(Player::Other(1))));
    assert_eq!(
        world.grid.get(Point { row: 5, col: 5 }),
        Some(Tile::Ant(Ant { alive: true, owner: Player::Other(2) }))
    );
    assert_eq!(
        world.grid.get(Point { row: 6, col: 6 }),
        Some(Tile::Ant(Ant { alive: false, owner: Player::Me }))
    );
}

#[test]
fn trailing_tokens_are_rejected() {
    let params = example_params();
    let mut world = World::new(&params);
    let before = snapshot(&world);
    assert_eq!(world.update("w 1 2 9"), Err(Error::UnknownCommand));
    assert_eq!(world.update("f 1 2 9"), Err(Error::UnknownCommand));
    assert_eq!(world.update("h 1 2 3 4"), Err(Error::UnknownCommand));
    assert_eq!(snapshot(&world), before);
}

#[test]
fn parse_update_reads_lines() {
    assert_eq!(parse_update("turn 7"), Ok(Update::Turn(7)));
    assert_eq!(
        parse_update("f -1 3"),
        Ok(Update::Cell(Point { row: -1, col: 3 }, Tile::Food))
    );
    assert_eq!(parse_update("turn 1 2 3"), Err(Error::UnknownCommand));
    assert_eq!(parse_update("go go"), Err(Error::UnexpectedLine));
}

#[test]
fn order_renders_protocol_line() {
    let params = example_params();
    let world = World::new(&params);
    assert_eq!(world.order(Point { row: 1, col: 2 }, Direction::North), "o 1 2 n");
    assert_eq!(world.order(Point { row: -3, col: 40 }, Direction::West), "o -3 40 w");
    assert_eq!(world.order(Point { row: 0, col: 0 }, Direction::South), "o 0 0 s");
    assert_eq!(
        world.order(Point { row: 2147483647, col: -2147483648 }, Direction::East),
        "o 2147483647 -2147483648 e"
    );
}

#[test]
fn vision_offsets_match_radius() {
    let mut params = Params::new();
    params.update("viewradius2 2").unwrap();
    let offs = vision_offsets(&params);
    assert_eq!(offs.len(), 8);
    for off in &offs {
        let d = off.row * off.row + off.col * off.col;
        assert!(0 < d && d <= 2);
    }
    let mut zero = Params::new();
    zero.update("viewradius2 0").unwrap();
    assert_eq!(vision_offsets(&zero).len(), 0);
}

#[test]
fn extreme_coordinates_wrap_onto_the_grid() {
    let params = example_params();
    let mut world = World::new(&params);
    world.update("f 2147483647 -2147483648").unwrap();
    assert_eq!(world.grid.get(Point { row: 7, col: 12 }), Some(Tile::Food));
}

#[test]
fn wrapped_coordinates_reach_the_same_cell() {
    let params = example_params();
    let mut world = World::new(&params);
    world.update("f 22 -1").unwrap();
    assert_eq!(world.grid.get(Point { row: 2, col: 19 }), Some(Tile::Food));
}
