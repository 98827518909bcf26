//! Tests for the setup handshake and its parameters.

use ants::error::Error;
use ants::params::Params;

#[test]
fn new() {
    assert_eq!(
        Params::new(),
        Params {
            loadtime: 0i32,
            turntime: 0i32,
            rows: 0i32,
            cols: 0i32,
            turns: 0i32,
            viewradius2: 0i32,
            attackradius2: 0i32,
            spawnradius2: 0i32,
            player_seed: 0i64,
        }
    );
}

#[test]
fn example() {
    let mut params = Params::new();
    params.update("loadtime 3000").unwrap();
    params.update("turntime 1000").unwrap();
    params.update("rows 20").unwrap();
    params.update("cols 20").unwrap();
    params.update("turns 500").unwrap();
    params.update("viewradius2 55").unwrap();
    params.update("attackradius2 5").unwrap();
    params.update("spawnradius2 1").unwrap();
    params.update("player_seed 42").unwrap();
    assert_eq!(
        params,
        Params {
            loadtime: 3000,
            turntime: 1000,
            rows: 20,
            cols: 20,
            turns: 500,
            viewradius2: 55,
            attackradius2: 5,
            spawnradius2: 1,
            player_seed: 42,
        }
    );
}

#[test]
fn handshake_example() {
    let lines: Vec<String> = [
        "turn 0",
        "loadtime 3000",
        "turntime 1000",
        "rows 20",
        "cols 20",
        "turns 500",
        "viewradius2 55",
        "attackradius2 5",
        "spawnradius2 1",
        "player_seed 42",
        "ready",
    ]
    .iter()
    .map(|s| s.to_string())
    .collect();
    let params = Params::from_buf_read(&lines).unwrap();
    assert_eq!(
        params,
        Params {
            loadtime: 3000,
            turntime: 1000,
            rows: 20,
            cols: 20,
            turns: 500,
            viewradius2: 55,
            attackradius2: 5,
            spawnradius2: 1,
            player_seed: 42,
        }
    );
}

#[test]
fn handshake_empty_input_is_eof() {
    let lines: Vec<String> = Vec::new();
    assert_eq!(Params::from_buf_read(&lines), Err(Error::UnexpectedEof));
}

#[test]
fn handshake_must_open_with_turn_zero() {
    let lines: Vec<String> = vec!["rows 20".to_string(), "ready".to_string()];
    assert_eq!(Params::from_buf_read(&lines), Err(Error::UnexpectedLine));
}

#[test]
fn handshake_unknown_key_is_bad_parameter() {
    let lines: Vec<String> = vec!["turn 0".to_string(), "color blue".to_string()];
    assert_eq!(Params::from_buf_read(&lines), Err(Error::BadParameter));
}

#[test]
fn handshake_without_ready_is_eof() {
    let lines: Vec<String> = vec!["turn 0".to_string(), "rows 7".to_string()];
    assert_eq!(Params::from_buf_read(&lines), Err(Error::UnexpectedEof));
    let lines: Vec<String> = vec!["turn 0".to_string()];
    assert_eq!(Params::from_buf_read(&lines), Err(Error::UnexpectedEof));
}

#[test]
fn update_rejects_wrong_token_count() {
    let mut params = Params::new();
    assert_eq!(params.update("rows"), Err(Error::BadParameter));
    assert_eq!(params.update("rows 20 30"), Err(Error::BadParameter));
    assert_eq!(params, Params::new());
}

#[test]
fn update_rejects_bad_integer() {
    let mut params = Params::new();
    assert_eq!(params.update("rows abc"), Err(Error::ParseInt));
    assert_eq!(params.update("rows 99999999999999999999"), Err(Error::ParseInt));
    assert_eq!(params, Params::new());
}

#[test]
fn update_parses_negative_and_wide_values() {
    let mut params = Params::new();
    params.update("loadtime -5").unwrap();
    params.update("player_seed 9223372036854775807").unwrap();
    assert_eq!(params.loadtime, -5);
    assert_eq!(params.player_seed, 9223372036854775807);
}

#[test]
fn params_default_matches_new() {
    assert_eq!(Params::default(), Params::new());
}

#[test]
fn error_description_names_each_kind() {
    assert_eq!(Error::BadParameter.description(), "Bad world parameter");
    assert_eq!(Error::ParseInt.description(), "Integer parse failure");
    assert_eq!(Error::UnexpectedLine.description(), "Unexpected line");
    assert_eq!(Error::UnexpectedEof.description(), "Unexpected Eof");
    assert_eq!(Error::Io.description(), "IO error");
    assert_eq!(Error::UnknownCommand.description(), "Unknown command");
}
