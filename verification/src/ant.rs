//! Ants currently in play.

use crate::player::Player;
use vstd::prelude::*;

verus! {

/// An ant that is currently in play.
///
/// A dead ant stands for any number of dead ants, as they can stack; the
/// protocol collapses this to a single flag rather than a count.
#[derive(Clone, Copy, Debug, PartialEq, Eq, Structural)]
pub struct Ant {
    /// Whether the ant is alive or dead.
    pub alive: bool,
    /// Which player controls this ant.
    pub owner: Player,
}

impl Default for Ant {
    /// The default ant is a dead ant of our own.
    fn default() -> (r: Ant)
        ensures
            r == (Ant { alive: false, owner: Player::Me }),
    {
        Ant { alive: false, owner: Player::Me }
    }
}

} // verus!
