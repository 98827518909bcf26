//! Game players.

use crate::error::Error;
use crate::parse::{chars_of, int_token_val, parse_u8, parse_u8_ok};
use vstd::prelude::*;

verus! {

/// One game player.
#[derive(Clone, Copy, Debug, PartialEq, Eq, Structural)]
pub enum Player {
    /// The controlling player: our own bot.
    Me,
    /// Any other player, identified by a small nonzero number.
    Other(u8),
}

/// The player a numeric owner field denotes: `0` is always ourselves, any
/// other value an opposing player by that id.
pub open spec fn player_of(n: int) -> Player {
    if n == 0 {
        Player::Me
    } else {
        Player::Other(n as u8)
    }
}

/// What an owner field of the protocol denotes, or the error it earns.
pub open spec fn spec_parse_player(s: Seq<char>) -> Result<Player, Error> {
    if parse_u8_ok(s) {
        Ok(player_of(int_token_val(s)))
    } else {
        Err(Error::ParseInt)
    }
}

impl Player {
    /// Read a player from its numeric protocol field.
    pub fn from_str(s: &str) -> (r: Result<Player, Error>)
        ensures
            r == spec_parse_player(s@),
    {
        let chars = chars_of(s);
        match parse_u8(&chars) {
            Err(e) => Err(e),
            Ok(0) => Ok(Player::Me),
            Ok(n) => Ok(Player::Other(n)),
        }
    }
}

impl Default for Player {
    /// The default player is ourselves.
    fn default() -> (r: Player)
        ensures
            r == Player::Me,
    {
        Player::Me
    }
}

} // verus!
