//! Tests for points, directions, tiles and the grid.

use ants::ant::Ant;
use ants::direction::Direction;
use ants::grid::Grid;
use ants::player::Player;
use ants::point::Point;
use ants::tile::Tile;

#[test]
fn wrap() {
    let p = Point { row: 2, col: -1 };
    assert_eq!(p.wrap(2, 2), Point { row: 0, col: 1 });
}

#[test]
fn wrap_is_true_modulo() {
    assert_eq!(ants::point::wrap(-1, 5), 4);
    assert_eq!(ants::point::wrap(-5, 5), 0);
    assert_eq!(ants::point::wrap(-6, 5), 4);
    assert_eq!(ants::point::wrap(7, 5), 2);
    assert_eq!(ants::point::wrap(0, 5), 0);
    for n in -20..20 {
        let r = ants::point::wrap(n, 7);
        assert!(0 <= r && r < 7);
        assert_eq!(r, ants::point::wrap(n + 7, 7));
    }
}

#[test]
fn wrap_sum_matches_wrap_of_sum() {
    assert_eq!(ants::point::wrap_sum(3, -4, 5), 4);
    assert_eq!(ants::point::wrap_sum(2147483647, 1, 5), 3);
    assert_eq!(ants::point::wrap_sum(-2147483648, -2147483648, 20), 4);
}

#[test]
fn add_is_component_wise_and_unwrapped() {
    let p = Point { row: 2, col: 3 };
    let q = Point { row: -4, col: 10 };
    assert_eq!(p.add(q), Point { row: -2, col: 13 });
}

#[test]
fn direction_vectors() {
    assert_eq!(Direction::North.into_point(), Point { row: -1, col: 0 });
    assert_eq!(Direction::South.into_point(), Point { row: 1, col: 0 });
    assert_eq!(Direction::East.into_point(), Point { row: 0, col: 1 });
    assert_eq!(Direction::West.into_point(), Point { row: 0, col: -1 });
}

#[test]
fn direction_letters() {
    assert_eq!(Direction::North.letter(), "n");
    assert_eq!(Direction::South.letter(), "s");
    assert_eq!(Direction::East.letter(), "e");
    assert_eq!(Direction::West.letter(), "w");
}

#[test]
fn tile_passability() {
    assert!(!Tile::Water.is_passable());
    assert!(Tile::Food.is_passable());
    assert!(Tile::Land.is_passable());
    assert!(Tile::Hill(Player::Me).is_passable());
    assert!(Tile::Ant(Ant { alive: true, owner: Player::Me }).is_passable());
}

#[test]
fn tile_occupancy() {
    assert!(Tile::Land.is_unoccupied());
    assert!(Tile::Ant(Ant { alive: false, owner: Player::Other(2) }).is_unoccupied());
    assert!(!Tile::Ant(Ant { alive: true, owner: Player::Me }).is_unoccupied());
    assert!(!Tile::Food.is_unoccupied());
    assert!(!Tile::Water.is_unoccupied());
    assert!(!Tile::Hill(Player::Me).is_unoccupied());
}

#[test]
fn player_from_str() {
    assert_eq!(Player::from_str("0"), Ok(Player::Me));
    assert_eq!(Player::from_str("3"), Ok(Player::Other(3)));
    assert_eq!(Player::from_str("255"), Ok(Player::Other(255)));
    assert!(Player::from_str("-1").is_err());
    assert!(Player::from_str("256").is_err());
    assert!(Player::from_str("").is_err());
    assert!(Player::from_str("x").is_err());
}

#[test]
fn grid_starts_unobserved() {
    let g = Grid::new(3, 4);
    for row in 0..3 {
        for col in 0..4 {
            assert_eq!(g.get(Point { row, col }), None);
        }
    }
}

#[test]
fn grid_set_and_get_wrap() {
    let mut g = Grid::new(2, 2);
    g.set(Point { row: 2, col: -1 }, Some(Tile::Food));
    assert_eq!(g.get(Point { row: 0, col: 1 }), Some(Tile::Food));
    assert_eq!(g.get(Point { row: 2, col: -1 }), Some(Tile::Food));
    assert_eq!(g.get(Point { row: 0, col: 0 }), None);
}

#[test]
fn grid_clear_keeps_only_water() {
    let mut g = Grid::new(2, 2);
    g.set(Point { row: 0, col: 0 }, Some(Tile::Water));
    g.set(Point { row: 1, col: 1 }, Some(Tile::Food));
    g.clear_except_water();
    assert_eq!(g.get(Point { row: 0, col: 0 }), Some(Tile::Water));
    assert_eq!(g.get(Point { row: 1, col: 1 }), None);
    g.clear_except_water();
    g.clear_except_water();
    assert_eq!(g.get(Point { row: 0, col: 0 }), Some(Tile::Water));
}

#[test]
fn tiles_cursor_visits_every_cell_once() {
    let mut g = Grid::new(2, 3);
    g.set(Point { row: 1, col: 2 }, Some(Tile::Food));
    let mut it = g.tiles();
    let mut seen: Vec<(Point, Option<Tile>)> = Vec::new();
    while let Some(cell) = it.next() {
        seen.push(cell);
    }
    assert_eq!(seen.len(), 6);
    assert_eq!(seen[0].0, Point { row: 0, col: 0 });
    assert_eq!(seen[5].0, Point { row: 1, col: 2 });
    assert_eq!(seen[5].1, Some(Tile::Food));
    assert!(seen[0..5].iter().all(|(_, t)| t.is_none()));
}

#[test]
fn tiles_mut_cursor_positions() {
    let mut g = Grid::new(2, 2);
    let mut it = g.tiles_mut();
    let mut points: Vec<Point> = Vec::new();
    while let Some(p) = it.next() {
        points.push(p);
    }
    assert_eq!(
        points,
        vec![
            Point { row: 0, col: 0 },
            Point { row: 0, col: 1 },
            Point { row: 1, col: 0 },
            Point { row: 1, col: 1 },
        ]
    );
    for p in points {
        g.set(p, Some(Tile::Land));
        assert_eq!(g.get(p), Some(Tile::Land));
    }
}
