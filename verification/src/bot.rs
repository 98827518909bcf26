//! Home of the `Bot` trait, where a user specifies their bot's behavior.

use crate::error::Error;
use crate::world::World;
use vstd::prelude::*;

verus! {

/// The `Bot` describes the unique functionality of all bots.
///
/// Every user of the crate should implement this trait somewhere.  The
/// surrounding program drives the protocol: once per turn, after all diff
/// lines have been applied, it hands the world to `do_turn`; the bot reads
/// the world's state and issues orders for its ants.
pub trait Bot {
    /// The per-turn logic of the bot.
    ///
    /// This is called only once per game turn.  By the time it is called,
    /// all input for that turn is processed.  If the return is `Ok(())`,
    /// the turn is ended and the next turn begins; if it is `Err(..)`, the
    /// bot exits.
    fn do_turn<'a>(&mut self, world: &mut World<'a>) -> Result<(), Error>;
}

} // verus!
