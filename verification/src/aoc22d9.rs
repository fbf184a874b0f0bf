//! Rope physics on a grid.
//!
//! A rope of knots starts in one spot; the head follows a list of moves
//! and every knot behind it drags along, stepping diagonally when it falls
//! two behind.  The answer counts the cells the tail knot visits.

use crate::parse_utils::ByteIterator;
use crate::parse_utils::ParseError;
use crate::parse_utils::consume_white_space;
use crate::parse_utils::parse_number;
use crate::parse_utils::split_lines;
use vstd::prelude::*;

verus! {

/// A grid position or direction.
#[derive(Clone, Copy, Debug, PartialEq, Eq, Structural)]
pub struct Vec2 {
    pub x: i32,
    pub y: i32,
}

/// Reads a move line: a direction letter and a distance.  The direction
/// comes back as a unit vector.
pub fn parse_move(line: &[u8]) -> (r: Result<(Vec2, usize), ParseError>)
    ensures
        match r {
            Ok(md) => {
                let d = md.0;
                (d.x == 0 && (d.y == 1 || d.y == -1)) || (d.y == 0 && (d.x == 1 || d.x == -1))
            },
            Err(_) => true,
        },
{
    let mut it = ByteIterator::new(line);
    let dir = match it.next() {
        Some((_, 85u8)) => Vec2 { x: 0, y: 1 },
        Some((_, 68u8)) => Vec2 { x: 0, y: -1 },
        Some((_, 76u8)) => Vec2 { x: -1, y: 0 },
        Some((_, 82u8)) => Vec2 { x: 1, y: 0 },
        Some(_) => {
            return Err(ParseError::UnexpectedByte);
        },
        None => {
            return Err(ParseError::UnexpectedEnd);
        },
    };
    consume_white_space(&mut it);
    let dist = match parse_number(&mut it) {
        Ok(v) => v,
        Err(e) => {
            return Err(e);
        },
    };
    if dist < 0 {
        return Err(ParseError::NotANumber);
    }
    Ok((dir, dist as usize))
}

/// Is `p` among the visited positions?
fn contains_pos(visited: &Vec<Vec2>, p: Vec2) -> (r: bool)
    ensures
        r == visited@.contains(p),
{
    let n = visited.len();
    for i in 0..n
        invariant
            n == visited@.len(),
            forall|j: int| 0 <= j < i ==> visited@[j] != p,
    {
        if visited[i] == p {
            proof {
                assert(visited@[i as int] == p);
            }
            return true;
        }
    }
    proof {
        assert(!visited@.contains(p)) by {
            if visited@.contains(p) {
                let j = choose|j: int| 0 <= j < visited@.len() && visited@[j] == p;
            }
        }
    }
    false
}

/// Runs the whole move list over a rope of `length` knots and counts the
/// distinct cells the tail visits.  Nothing on malformed input or on a
/// rope that wanders out of the coordinate range.
pub fn solve(input: &str, length: usize) -> (r: Option<usize>)
    requires
        1 <= length,
    ensures
        match r {
            Some(v) => v >= 1,
            None => true,
        },
{
    let mut visited: Vec<Vec2> = Vec::new();
    let mut rope: Vec<Vec2> = Vec::new();
    for _k in 0..length
        invariant
            rope@.len() == _k,
    {
        rope.push(Vec2 { x: 0, y: 0 });
    }
    visited.push(rope[length - 1]);
    let lines = split_lines(input);
    let n = lines.len();
    for li in 0..n
        invariant
            n == lines@.len(),
            rope@.len() == length,
            1 <= length,
            visited@.len() >= 1,
    {
        let line = &lines[li];
        if line.len() > 0 {
            let (dir, dist) = match parse_move(line.as_slice()) {
                Ok(v) => v,
                Err(_) => {
                    return None;
                },
            };
            for _s in 0..dist
                invariant
                    rope@.len() == length,
                    1 <= length,
                    visited@.len() >= 1,
            {
                let head = rope[0];
                let hx = match head.x.checked_add(dir.x) {
                    Some(v) => v,
                    None => {
                        return None;
                    },
                };
                let hy = match head.y.checked_add(dir.y) {
                    Some(v) => v,
                    None => {
                        return None;
                    },
                };
                rope.set(0, Vec2 { x: hx, y: hy });
                for i in 0..(length - 1)
                    invariant
                        rope@.len() == length,
                        1 <= length,
                {
                    let front = rope[i];
                    let back = rope[i + 1];
                    let dx = match front.x.checked_sub(back.x) {
                        Some(v) => v,
                        None => {
                            return None;
                        },
                    };
                    let dy = match front.y.checked_sub(back.y) {
                        Some(v) => v,
                        None => {
                            return None;
                        },
                    };
                    if dx >= 2 || dx <= -2 || dy >= 2 || dy <= -2 {
                        let mut bx = back.x;
                        let mut by = back.y;
                        if front.x > back.x {
                            bx = match bx.checked_add(1) {
                                Some(v) => v,
                                None => {
                                    return None;
                                },
                            };
                        } else if front.x < back.x {
                            bx = match bx.checked_sub(1) {
                                Some(v) => v,
                                None => {
                                    return None;
                                },
                            };
                        }
                        if front.y > back.y {
                            by = match by.checked_add(1) {
                                Some(v) => v,
                                None => {
                                    return None;
                                },
                            };
                        } else if front.y < back.y {
                            by = match by.checked_sub(1) {
                                Some(v) => v,
                                None => {
                                    return None;
                                },
                            };
                        }
                        rope.set(i + 1, Vec2 { x: bx, y: by });
                    }
                }
                let tail = rope[length - 1];
                if !contains_pos(&visited, tail) {
                    visited.push(tail);
                }
            }
        }
    }
    Some(visited.len())
}

} // verus!
