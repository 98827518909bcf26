//! Constant parameters set once per game.

use crate::error::Error;
use crate::parse::{
    chars_of, int_token_val, parse_i32, parse_i32_ok, parse_i64, parse_i64_ok, split_spaces,
    split_spaces_spec, str_eq, token_eq_str, token_views,
};
use vstd::prelude::*;

verus! {

/// Parameters supplied once before the game begins.
#[derive(Clone, Copy, Debug, PartialEq, Eq, Structural)]
pub struct Params {
    pub loadtime: i32,
    pub turntime: i32,
    pub rows: i32,
    pub cols: i32,
    pub turns: i32,
    pub viewradius2: i32,
    pub attackradius2: i32,
    pub spawnradius2: i32,
    pub player_seed: i64,
}

/// The all-zero parameters a fresh `Params` starts from.
pub open spec fn params_default() -> Params {
    Params {
        loadtime: 0,
        turntime: 0,
        rows: 0,
        cols: 0,
        turns: 0,
        viewradius2: 0,
        attackradius2: 0,
        spawnradius2: 0,
        player_seed: 0,
    }
}

/// What one setup line does to the parameters: exactly two tokens, a known
/// key and an integer value, or the error the line earns.
pub open spec fn spec_param_line(p: Params, line: Seq<char>) -> Result<Params, Error> {
    let toks = split_spaces_spec(line);
    if toks.len() != 2 {
        Err(Error::BadParameter)
    } else {
        let key = toks[0];
        let val = toks[1];
        if key == "loadtime"@ {
            if parse_i32_ok(val) {
                Ok(Params { loadtime: int_token_val(val) as i32, ..p })
            } else {
                Err(Error::ParseInt)
            }
        } else if key == "turntime"@ {
            if parse_i32_ok(val) {
                Ok(Params { turntime: int_token_val(val) as i32, ..p })
            } else {
                Err(Error::ParseInt)
            }
        } else if key == "rows"@ {
            if parse_i32_ok(val) {
                Ok(Params { rows: int_token_val(val) as i32, ..p })
            } else {
                Err(Error::ParseInt)
            }
        } else if key == "cols"@ {
            if parse_i32_ok(val) {
                Ok(Params { cols: int_token_val(val) as i32, ..p })
            } else {
                Err(Error::ParseInt)
            }
        } else if key == "turns"@ {
            if parse_i32_ok(val) {
                Ok(Params { turns: int_token_val(val) as i32, ..p })
            } else {
                Err(Error::ParseInt)
            }
        } else if key == "viewradius2"@ {
            if parse_i32_ok(val) {
                Ok(Params { viewradius2: int_token_val(val) as i32, ..p })
            } else {
                Err(Error::ParseInt)
            }
        } else if key == "attackradius2"@ {
            if parse_i32_ok(val) {
                Ok(Params { attackradius2: int_token_val(val) as i32, ..p })
            } else {
                Err(Error::ParseInt)
            }
        } else if key == "spawnradius2"@ {
            if parse_i32_ok(val) {
                Ok(Params { spawnradius2: int_token_val(val) as i32, ..p })
            } else {
                Err(Error::ParseInt)
            }
        } else if key == "player_seed"@ {
            if parse_i64_ok(val) {
                Ok(Params { player_seed: int_token_val(val) as i64, ..p })
            } else {
                Err(Error::ParseInt)
            }
        } else {
            Err(Error::BadParameter)
        }
    }
}

/// What the setup lines after the opening `turn 0` yield: parameters
/// accumulate until a `ready` line, the first bad line decides the error,
/// and running out of lines before `ready` is an unexpected end of input.
pub open spec fn spec_setup_rest(lines: Seq<Seq<char>>, p: Params) -> Result<Params, Error>
    decreases lines.len(),
{
    if lines.len() == 0 {
        Err(Error::UnexpectedEof)
    } else if lines[0] == "ready"@ {
        Ok(p)
    } else {
        match spec_param_line(p, lines[0]) {
            Ok(p2) => spec_setup_rest(lines.skip(1), p2),
            Err(e) => Err(e),
        }
    }
}

/// What a whole setup handshake yields: it must open with `turn 0`; the
/// remaining lines are read by [`spec_setup_rest`].
pub open spec fn spec_setup(lines: Seq<Seq<char>>) -> Result<Params, Error> {
    if lines.len() == 0 {
        Err(Error::UnexpectedEof)
    } else if lines[0] != "turn 0"@ {
        Err(Error::UnexpectedLine)
    } else {
        spec_setup_rest(lines.skip(1), params_default())
    }
}

/// The views of a sequence of owned lines.
pub open spec fn line_views(lines: Seq<String>) -> Seq<Seq<char>> {
    lines.map_values(|l: String| l@)
}

impl Params {
    /// Construct a new `Params` with default values.
    pub fn new() -> (p: Params)
        ensures
            p == params_default(),
    {
        Params {
            loadtime: 0,
            turntime: 0,
            rows: 0,
            cols: 0,
            turns: 0,
            viewradius2: 0,
            attackradius2: 0,
            spawnradius2: 0,
            player_seed: 0,
        }
    }

    /// Parse the given line as a setup parameter command and update self.
    pub fn update(&mut self, line: &str) -> (r: Result<(), Error>)
        ensures
            match spec_param_line(*old(self), line@) {
                Ok(p2) => r == Ok::<(), Error>(()) && *final(self) == p2,
                Err(e) => r == Err::<(), Error>(e) && *final(self) == *old(self),
            },
    {
        let chars = chars_of(line);
        let toks = split_spaces(&chars);
        proof {
            assert(toks@.len() == token_views(toks@).len());
            assert(token_views(toks@) == split_spaces_spec(line@));
        }
        if toks.len() != 2 {
            return Err(Error::BadParameter);
        }
        proof {
            assert(toks@[0]@ == split_spaces_spec(line@)[0]);
            assert(toks@[1]@ == split_spaces_spec(line@)[1]);
        }
        let key = &toks[0];
        let val = &toks[1];
        if token_eq_str(key, "loadtime") {
            self.loadtime = parse_i32(val)?;
        } else if token_eq_str(key, "turntime") {
            self.turntime = parse_i32(val)?;
        } else if token_eq_str(key, "rows") {
            self.rows = parse_i32(val)?;
        } else if token_eq_str(key, "cols") {
            self.cols = parse_i32(val)?;
        } else if token_eq_str(key, "turns") {
            self.turns = parse_i32(val)?;
        } else if token_eq_str(key, "viewradius2") {
            self.viewradius2 = parse_i32(val)?;
        } else if token_eq_str(key, "attackradius2") {
            self.attackradius2 = parse_i32(val)?;
        } else if token_eq_str(key, "spawnradius2") {
            self.spawnradius2 = parse_i32(val)?;
        } else if token_eq_str(key, "player_seed") {
            self.player_seed = parse_i64(val)?;
        } else {
            return Err(Error::BadParameter);
        }
        Ok(())
    }

    /// Consume the setup handshake, already read line by line from the
    /// input buffer, to populate a `Params`.
    ///
    /// Input must start with the line `turn 0`, end with the line `ready`,
    /// and have only valid parameter commands in-between; input that runs
    /// out before `ready` is an unexpected end of input.
    pub fn from_buf_read(lines: &Vec<String>) -> (r: Result<Params, Error>)
        ensures
            r == spec_setup(line_views(lines@)),
    {
        let n = lines.len();
        proof {
            assert(line_views(lines@).len() == n);
        }
        if n == 0 {
            return Err(Error::UnexpectedEof);
        }
        if !str_eq(lines[0].as_str(), "turn 0") {
            return Err(Error::UnexpectedLine);
        }
        let mut params = Params::new();
        let mut i: usize = 1;
        while i < n
            invariant
                1 <= i <= n,
                n == lines@.len(),
                forall|j: int| 0 <= j < n ==> line_views(lines@)[j] == lines@[j]@,
                spec_setup(line_views(lines@)) == spec_setup_rest(
                    line_views(lines@).skip(i as int),
                    params,
                ),
            decreases n - i,
        {
            let ghost pre = line_views(lines@).skip(i as int);
            if str_eq(lines[i].as_str(), "ready") {
                proof {
                    assert(pre[0] == "ready"@);
                    assert(spec_setup_rest(pre, params) == Ok::<Params, Error>(params));
                }
                return Ok(params);
            }
            let res = params.update(lines[i].as_str());
            match res {
                Ok(()) => {},
                Err(e) => {
                    return Err(e);
                },
            }
            proof {
                assert(pre.skip(1) =~= line_views(lines@).skip(i + 1));
            }
            i = i + 1;
        }
        proof {
            assert(line_views(lines@).skip(n as int) =~= Seq::<Seq<char>>::empty());
        }
        Err(Error::UnexpectedEof)
    }
}

impl Default for Params {
    /// Construct a new `Params` with default values.
    fn default() -> (p: Params)
        ensures
            p == params_default(),
    {
        Params::new()
    }
}

} // verus!
