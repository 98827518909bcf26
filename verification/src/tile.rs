//! Map tiles.

use crate::ant::Ant;
use crate::player::Player;
use vstd::prelude::*;

verus! {

/// One tile on the game map.
#[derive(Clone, Copy, Debug, PartialEq, Eq, Structural)]
pub enum Tile {
    /// Is (and always will be) impassable water.
    Water,
    /// Currently contains food.
    Food,
    /// Currently contains an ant (or many ants, if all dead).
    Ant(Ant),
    /// Currently contains an ant hill owned by the given `Player`.
    Hill(Player),
    /// Currently just vacant land.
    Land,
}

/// Whether a tile can be crossed by an ant (or could be at some point):
/// everything but water.
pub open spec fn spec_passable(t: Tile) -> bool {
    !(t is Water)
}

/// Whether a tile has nothing on it (except maybe dead ants).
pub open spec fn spec_unoccupied(t: Tile) -> bool {
    t is Land || (t matches Tile::Ant(a) && !a.alive)
}

impl Tile {
    /// Whether the tile can be crossed by an ant (or could be at some point).
    pub fn is_passable(&self) -> (r: bool)
        ensures
            r == spec_passable(*self),
    {
        match *self {
            Tile::Water => false,
            _ => true,
        }
    }

    /// Whether the tile has nothing on it (except maybe dead ants).
    pub fn is_unoccupied(&self) -> (r: bool)
        ensures
            r == spec_unoccupied(*self),
    {
        match *self {
            Tile::Land | Tile::Ant(Ant { alive: false, .. }) => true,
            _ => false,
        }
    }
}

} // verus!
