//! Signal strengths of a cycle-counting CPU.
//!
//! The machine runs `addx` (two cycles) and `noop` (one cycle)
//! instructions against a single register.  The first answer sums the
//! register times the cycle number each time the cycle count passes a
//! multiple-of-forty checkpoint; the second renders the sprite to a
//! forty-column screen.

use crate::parse_utils::ByteIterator;
use crate::parse_utils::ParseError;
use crate::parse_utils::consume_sequence;
use crate::parse_utils::consume_white_space;
use crate::parse_utils::parse_number;
use crate::parse_utils::split_lines;
use vstd::prelude::*;

verus! {

/// Where inside the current forty-cycle set a cycle count sits, measured
/// so that the rollover happens twenty cycles before each checkpoint.
pub fn cycle_mod(cycle: isize) -> (r: isize)
    requires
        0 <= cycle <= isize::MAX - 20,
    ensures
        r == (cycle + 20) % 40,
{
    (cycle + 20) % 40
}

/// One parsed instruction: how many cycles it takes and what it adds to
/// the register.
fn parse_instruction(line: &[u8]) -> (r: Result<(isize, isize), ParseError>)
    ensures
        match r {
            Ok(cd) => cd.0 == 1 || cd.0 == 2,
            Err(_) => true,
        },
{
    let mut it = ByteIterator::new(line);
    match consume_sequence(&mut it, &[97u8, 100u8, 100u8, 120u8]) {
        Ok(true) => {
            consume_white_space(&mut it);
            let delta = match parse_number(&mut it) {
                Ok(v) => v,
                Err(e) => {
                    return Err(e);
                },
            };
            consume_white_space(&mut it);
            match it.peek() {
                Some(_) => Err(ParseError::UnexpectedByte),
                None => Ok((2, delta)),
            }
        },
        Ok(false) => {
            match consume_sequence(&mut it, &[110u8, 111u8, 111u8, 112u8]) {
                Ok(true) => {
                    consume_white_space(&mut it);
                    match it.peek() {
                        Some(_) => Err(ParseError::UnexpectedByte),
                        None => Ok((1, 0)),
                    }
                },
                Ok(false) => Err(ParseError::UnexpectedByte),
                Err(e) => Err(e),
            }
        },
        Err(e) => Err(e),
    }
}

/// The summed signal strengths at the checkpoints the program's cycle
/// count passes.
pub fn solve(input: &str) -> (r: Result<isize, ParseError>) {
    let lines = split_lines(input);
    let mut output: isize = 0;
    let mut x_val: isize = 1;
    let mut cycle: isize = 0;
    let n = lines.len();
    for li in 0..n
        invariant
            n == lines@.len(),
            0 <= cycle,
    {
        let line = &lines[li];
        if line.len() > 0 {
            let old_cycle = cycle;
            let (cycles, delta) = match parse_instruction(line.as_slice()) {
                Ok(v) => v,
                Err(e) => {
                    return Err(e);
                },
            };
            cycle = match cycle.checked_add(cycles) {
                Some(v) => v,
                None => {
                    return Err(ParseError::Overflow);
                },
            };
            if cycle > isize::MAX - 20 {
                return Err(ParseError::Overflow);
            }
            if cycle_mod(cycle) < cycle_mod(old_cycle) {
                let points = match (cycle / 20).checked_mul(20) {
                    Some(v) => v,
                    None => {
                        return Err(ParseError::Overflow);
                    },
                };
                let strength = match points.checked_mul(x_val) {
                    Some(v) => v,
                    None => {
                        return Err(ParseError::Overflow);
                    },
                };
                output = match output.checked_add(strength) {
                    Some(v) => v,
                    None => {
                        return Err(ParseError::Overflow);
                    },
                };
            }
            x_val = match x_val.checked_add(delta) {
                Some(v) => v,
                None => {
                    return Err(ParseError::Overflow);
                },
            };
        }
    }
    Ok(output)
}

/// Draws one cycle's pixel: a mark when the sprite covers the current
/// column, a blank otherwise, and a line break at the end of each row.
fn check_draw(x_val: isize, cycle: isize, screen: &mut Vec<u8>)
    requires
        0 <= cycle,
    ensures
        old(screen)@.len() < final(screen)@.len(),
{
    let cycle_pos = cycle % 40;
    if x_val <= cycle_pos && cycle_pos - 2 <= x_val {
        screen.push(35);
    } else {
        screen.push(32);
    }
    if cycle % 40 == 0 {
        screen.push(10);
    }
}

/// Renders the whole program to a screen of mark and blank pixels, row by
/// row.
pub fn solve2(input: &str) -> (r: Result<Vec<u8>, ParseError>) {
    let lines = split_lines(input);
    let mut screen: Vec<u8> = Vec::new();
    let mut x_val: isize = 1;
    let mut cycle: isize = 0;
    let n = lines.len();
    for li in 0..n
        invariant
            n == lines@.len(),
            0 <= cycle,
    {
        let line = &lines[li];
        if line.len() > 0 {
            let (cycles, delta) = match parse_instruction(line.as_slice()) {
                Ok(v) => v,
                Err(e) => {
                    return Err(e);
                },
            };
            let mut c: isize = 0;
            while c < cycles
                invariant
                    0 <= cycle,
                    cycles <= 2,
                decreases cycles - c,
            {
                cycle = match cycle.checked_add(1) {
                    Some(v) => v,
                    None => {
                        return Err(ParseError::Overflow);
                    },
                };
                check_draw(x_val, cycle, &mut screen);
                c = c + 1;
            }
            x_val = match x_val.checked_add(delta) {
                Some(v) => v,
                None => {
                    return Err(ParseError::Overflow);
                },
            };
        }
    }
    Ok(screen)
}

} // verus!
