//! Counting pairs of section ranges that contain or overlap each other.
//!
//! Each line holds two dash-separated ranges joined by a comma; one count
//! asks how many pairs have one range fully inside the other, the second
//! how many pairs overlap at all.

use crate::parse_utils::split_lines;
use crate::parse_utils::ByteIterator;
use crate::parse_utils::ParseError;
use crate::parse_utils::consume_sequence;
use crate::parse_utils::parse_number;
use vstd::prelude::*;

verus! {

/// Reads a `start-end` range of non-negative numbers at the cursor.
fn parse_range(it: &mut ByteIterator) -> (r: Result<(usize, usize), ParseError>)
    requires
        old(it).wf(),
    ensures
        final(it).wf(),
        final(it).bytes() == old(it).bytes(),
        old(it).pos() <= final(it).pos(),
{
    let s = match parse_number(it) {
        Ok(v) => v,
        Err(e) => {
            return Err(e);
        },
    };
    if s < 0 {
        return Err(ParseError::NotANumber);
    }
    match consume_sequence(it, &[45u8]) {
        Ok(true) => {},
        Ok(false) => {
            return Err(ParseError::UnexpectedByte);
        },
        Err(e) => {
            return Err(e);
        },
    }
    let e = match parse_number(it) {
        Ok(v) => v,
        Err(e) => {
            return Err(e);
        },
    };
    if e < 0 {
        return Err(ParseError::NotANumber);
    }
    Ok((s as usize, e as usize))
}

/// Reads a line `a_s-a_e,b_s-b_e` into its four range bounds.
fn parse_line(bs: &[u8]) -> (r: Result<(usize, usize, usize, usize), ParseError>) {
    let mut it = ByteIterator::new(bs);
    let (a_s, a_e) = match parse_range(&mut it) {
        Ok(v) => v,
        Err(e) => {
            return Err(e);
        },
    };
    match consume_sequence(&mut it, &[44u8]) {
        Ok(true) => {},
        Ok(false) => {
            return Err(ParseError::UnexpectedByte);
        },
        Err(e) => {
            return Err(e);
        },
    }
    let (b_s, b_e) = match parse_range(&mut it) {
        Ok(v) => v,
        Err(e) => {
            return Err(e);
        },
    };
    Ok((a_s, a_e, b_s, b_e))
}

/// Counts the lines whose one range fully contains the other.
pub fn solvep1(input: &str) -> (r: Result<usize, ParseError>) {
    let lines = split_lines(input);
    let mut result: usize = 0;
    let n = lines.len();
    for i in 0..n
        invariant
            n == lines@.len(),
            result <= i,
    {
        let line = &lines[i];
        if line.len() > 0 {
            let (a_s, a_e, b_s, b_e) = match parse_line(line.as_slice()) {
                Ok(v) => v,
                Err(e) => {
                    return Err(e);
                },
            };
            if (a_s >= b_s && a_e <= b_e) || (a_s <= b_s && a_e >= b_e) {
                result = result + 1;
            }
        }
    }
    Ok(result)
}

/// Counts the lines whose ranges overlap in at least one section.
pub fn solvep2(input: &str) -> (r: Result<usize, ParseError>) {
    let lines = split_lines(input);
    let mut result: usize = 0;
    let n = lines.len();
    for i in 0..n
        invariant
            n == lines@.len(),
            result <= i,
    {
        let line = &lines[i];
        if line.len() > 0 {
            let (a_s, a_e, b_s, b_e) = match parse_line(line.as_slice()) {
                Ok(v) => v,
                Err(e) => {
                    return Err(e);
                },
            };
            if a_s <= b_e && b_s <= a_e {
                result = result + 1;
            }
        }
    }
    Ok(result)
}

} // verus!
