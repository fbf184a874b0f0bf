//! Scoring a rock-paper-scissors strategy guide.
//!
//! Each line of the guide holds the other player's play and a second column
//! that is read either as a play of our own or as a demanded outcome; a
//! round scores the shape played plus the result of the round.

use crate::parse_utils::split_lines;
use vstd::prelude::*;
use vstd::string::StringSliceAdditionalSpecFns;

verus! {

/// One of the three shapes of the game.
#[derive(Clone, Copy, Debug)]
pub enum Play {
    Rock,
    Paper,
    Scissors,
}

/// The rank of a shape: rock 0, paper 1, scissors 2.  Each shape beats the
/// one ranked directly below it, cyclically.
pub open spec fn spec_val(a: Play) -> int {
    match a {
        Play::Rock => 0,
        Play::Paper => 1,
        Play::Scissors => 2,
    }
}

/// The score of a round: 3 for a draw, 6 for a win of `me`, 0 for a loss.
pub open spec fn spec_game_score(other: Play, me: Play) -> int {
    let d = (spec_val(me) - spec_val(other) + 3) % 3;
    if d == 0 {
        3
    } else if d == 1 {
        6
    } else {
        0
    }
}

/// The play read from a strategy-guide column, if the byte names one.
pub open spec fn spec_parse_play(b: u8) -> Option<Play> {
    if b == 65 || b == 88 {
        Some(Play::Rock)
    } else if b == 66 || b == 89 {
        Some(Play::Paper)
    } else if b == 67 || b == 90 {
        Some(Play::Scissors)
    } else {
        None
    }
}

/// The demanded outcome read from the second column: lose, draw or win.
pub open spec fn spec_parse_outcome(b: u8) -> Option<int> {
    if b == 88 {
        Some(-1int)
    } else if b == 89 {
        Some(0int)
    } else if b == 90 {
        Some(1int)
    } else {
        None
    }
}

/// What a guide line is worth when the second column is our play.
pub open spec fn spec_resolve1(bs: Seq<u8>) -> Option<int> {
    if bs.len() < 3 {
        None
    } else {
        match (spec_parse_play(bs[0]), spec_parse_play(bs[2])) {
            (Some(other), Some(me)) => Some(spec_val(me) + 1 + spec_game_score(other, me)),
            _ => None,
        }
    }
}

/// The shape of the given rank.
pub open spec fn spec_play_from_val(v: int) -> Play {
    if v == 0 {
        Play::Rock
    } else if v == 1 {
        Play::Paper
    } else {
        Play::Scissors
    }
}

/// What a guide line is worth when the second column is the demanded
/// outcome: the play achieving that outcome is scored.
pub open spec fn spec_resolve2(bs: Seq<u8>) -> Option<int> {
    if bs.len() < 3 {
        None
    } else {
        match (spec_parse_play(bs[0]), spec_parse_outcome(bs[2])) {
            (Some(other), Some(outcome)) => {
                let me = spec_play_from_val((spec_val(other) + outcome + 3) % 3);
                Some(spec_val(me) + 1 + spec_game_score(other, me))
            },
            _ => None,
        }
    }
}

/// The shape of the given rank.
fn play_from_val(a: i32) -> (r: Play)
    requires
        0 <= a < 3,
    ensures
        spec_val(r) == a,
{
    match a {
        0 => Play::Rock,
        1 => Play::Paper,
        _ => Play::Scissors,
    }
}

/// The rank of a shape.
fn val_of(a: Play) -> (r: i32)
    ensures
        r == spec_val(a),
{
    match a {
        Play::Rock => 0,
        Play::Paper => 1,
        Play::Scissors => 2,
    }
}

/// The score of a round between the two plays.
pub fn score_of_game(other: Play, me: Play) -> (r: i32)
    ensures
        r == spec_game_score(other, me),
{
    match (val_of(me) - val_of(other) + 3) % 3 {
        0 => 3,
        1 => 6,
        _ => 0,
    }
}

/// The score of playing a shape at all.
fn score_of_play(a: Play) -> (r: i32)
    ensures
        r == spec_val(a) + 1,
{
    match a {
        Play::Rock => 1,
        Play::Paper => 2,
        Play::Scissors => 3,
    }
}

/// The play named by a strategy-guide byte; `line` is carried for reporting
/// only.
fn parse_play(_line: usize, b: u8) -> (r: Option<Play>)
    ensures
        r == spec_parse_play(b),
{
    match b {
        65 => Some(Play::Rock),
        66 => Some(Play::Paper),
        67 => Some(Play::Scissors),
        88 => Some(Play::Rock),
        89 => Some(Play::Paper),
        90 => Some(Play::Scissors),
        _ => None,
    }
}

/// The demanded outcome named by a strategy-guide byte.
fn parse_outcome(_line: usize, b: u8) -> (r: Option<i32>)
    ensures
        match r {
            Some(v) => spec_parse_outcome(b) == Some(v as int),
            None => spec_parse_outcome(b) is None,
        },
{
    match b {
        88 => Some(-1),
        89 => Some(0),
        90 => Some(1),
        _ => None,
    }
}

/// Scores one guide line reading the second column as our play.
pub fn resolve_game_pt1(line: usize, s: &str) -> (r: Option<i32>)
    ensures
        match r {
            Some(v) => spec_resolve1(s.spec_bytes()) == Some(v as int),
            None => spec_resolve1(s.spec_bytes()) is None,
        },
{
    let bs = s.as_bytes();
    if bs.len() < 3 {
        return None;
    }
    let other = match parse_play(line, bs[0]) {
        Some(p) => p,
        None => {
            return None;
        },
    };
    let me = match parse_play(line, bs[2]) {
        Some(p) => p,
        None => {
            return None;
        },
    };
    Some(score_of_play(me) + score_of_game(other, me))
}

/// Scores one guide line, given as bytes, reading the second column as the
/// demanded outcome.
fn resolve2_bytes(line: usize, bs: &[u8]) -> (r: Option<i32>)
    ensures
        match r {
            Some(v) => spec_resolve2(bs@) == Some(v as int),
            None => spec_resolve2(bs@) is None,
        },
{
    if bs.len() < 3 {
        return None;
    }
    let other = match parse_play(line, bs[0]) {
        Some(p) => p,
        None => {
            return None;
        },
    };
    let outcome = match parse_outcome(line, bs[2]) {
        Some(v) => v,
        None => {
            return None;
        },
    };
    let me = play_from_val((val_of(other) + outcome + 3) % 3);
    Some(score_of_play(me) + score_of_game(other, me))
}

/// Scores one guide line reading the second column as the demanded outcome.
pub fn resolve_game_pt2(line: usize, s: &str) -> (r: Option<i32>)
    ensures
        match r {
            Some(v) => spec_resolve2(s.spec_bytes()) == Some(v as int),
            None => spec_resolve2(s.spec_bytes()) is None,
        },
{
    resolve2_bytes(line, s.as_bytes())
}

/// Scores the whole guide with the outcome reading, skipping empty lines;
/// yields the total and the round count, or nothing on a malformed guide or
/// an overflowing total.
pub fn solve(input: &str) -> (r: Option<(i32, usize)>)
{
    let lines = split_lines(input);
    let mut score: i32 = 0;
    let mut line_count: usize = 0;
    let n = lines.len();
    for i in 0..n
        invariant
            n == lines@.len(),
            line_count <= i,
    {
        let line = &lines[i];
        if line.len() > 0 {
            line_count = line_count + 1;
            let round = match resolve2_bytes(line_count, line.as_slice()) {
                Some(v) => v,
                None => {
                    return None;
                },
            };
            score = match score.checked_add(round) {
                Some(v) => v,
                None => {
                    return None;
                },
            };
        }
    }
    Some((score, line_count))
}

} // verus!
