//! Rearranging crate stacks with a cargo crane.
//!
//! The input draws the starting stacks, a label line, and then move
//! orders.  The first crane moves crates one at a time (reversing them),
//! the second moves whole groups at once; the answer reads the crate on
//! top of each stack.

use crate::aoc22d3::get_next_non_empty_line;
use crate::parse_utils::ByteIterator;
use crate::parse_utils::ParseError;
use crate::parse_utils::consume_sequence;
use crate::parse_utils::consume_white_space;
use crate::parse_utils::parse_number;
use crate::parse_utils::split_lines;
use vstd::prelude::*;

verus! {

/// One crane order: how many crates move from which stack to which.
pub struct Order {
    pub from: usize,
    pub to: usize,
    pub amount: usize,
}

/// Reads the label line under the stacks and checks the labels count up
/// from one; yields how many stacks there are.
fn count_box_stacks(line: &[u8]) -> (r: Result<usize, ParseError>) {
    let mut it = ByteIterator::new(line);
    let mut last_label: isize = 0;
    loop
        invariant
            it.wf(),
            0 <= last_label,
        decreases it.bytes().len() - it.pos(),
    {
        consume_white_space(&mut it);
        match it.peek() {
            Some(_) => {
                let val = match parse_number(&mut it) {
                    Ok(v) => v,
                    Err(e) => {
                        return Err(e);
                    },
                };
                if last_label == isize::MAX || val != last_label + 1 {
                    return Err(ParseError::UnexpectedByte);
                }
                last_label = val;
            },
            None => {
                return Ok(last_label as usize);
            },
        }
    }
}

/// Reads one three-byte crate cell: blank for no crate, `[X]` for crate
/// `X`.
fn parse_crate(line: &[u8], offset: usize) -> (r: Result<Option<u8>, ParseError>)
    requires
        offset + 3 <= line@.len(),
{
    if line[offset] == 32 {
        if line[offset + 1] != 32 || line[offset + 2] != 32 {
            return Err(ParseError::UnexpectedByte);
        }
        Ok(None)
    } else if line[offset] == 91 {
        let val = line[offset + 1];
        if line[offset + 2] != 93 {
            return Err(ParseError::UnexpectedByte);
        }
        Ok(Some(val))
    } else {
        Err(ParseError::UnexpectedByte)
    }
}

/// Builds the stacks from the drawing lines, bottom row first.
fn parse_crate_stacks(lines: &Vec<Vec<u8>>, stack_count: usize) -> (r: Result<
    Vec<Vec<u8>>,
    ParseError,
>)
    ensures
        r matches Ok(stacks) ==> stacks@.len() == stack_count,
{
    let mut stacks: Vec<Vec<u8>> = Vec::new();
    for _k in 0..stack_count
        invariant
            stacks@.len() == _k,
    {
        stacks.push(Vec::new());
    }
    let n = lines.len();
    let mut li = n;
    while li > 0
        invariant
            n == lines@.len(),
            li <= n,
            stacks@.len() == stack_count,
        decreases li,
    {
        li = li - 1;
        let line = &lines[li];
        let len = line.len();
        if len % 4 != 3 {
            return Err(ParseError::UnexpectedEnd);
        }
        let n_cols = len / 4 + 1;
        proof {
            assert(n_cols * 4 == len + 1) by (nonlinear_arith)
                requires
                    len % 4 == 3,
                    n_cols == len / 4 + 1,
            ;
        }
        if n_cols > stack_count {
            return Err(ParseError::UnexpectedByte);
        }
        for i in 0..n_cols
            invariant
                n == lines@.len(),
                stacks@.len() == stack_count,
                n_cols <= stack_count,
                n_cols * 4 == len + 1,
                len == line@.len(),
        {
            proof {
                assert(i * 4 + 3 <= len) by (nonlinear_arith)
                    requires
                        i < n_cols,
                        n_cols * 4 == len + 1,
                ;
            }
            match parse_crate(line.as_slice(), i * 4) {
                Ok(Some(krate)) => {
                    let mut stack = stacks.remove(i);
                    stack.push(krate);
                    stacks.insert(i, stack);
                },
                Ok(None) => {},
                Err(e) => {
                    return Err(e);
                },
            }
        }
    }
    Ok(stacks)
}

/// Reads the stack drawing at the head of the input: every line up to the
/// label line, turned into stacks.  Yields the stacks and the line index
/// just past the label line.
fn parse_start(lines: &Vec<Vec<u8>>, pos: &mut usize) -> (r: Result<Vec<Vec<u8>>, ParseError>)
    requires
        *old(pos) <= lines@.len(),
    ensures
        *final(pos) <= lines@.len(),
{
    let mut drawing: Vec<Vec<u8>> = Vec::new();
    loop
        invariant
            *pos <= lines@.len(),
        decreases lines@.len() - *pos,
    {
        let ix = match get_next_non_empty_line(lines, pos) {
            Some(v) => v,
            None => {
                return Err(ParseError::UnexpectedEnd);
            },
        };
        let line = &lines[ix];
        if line.len() >= 4 && line[0] == 32 && line[1] == 49 && line[2] == 32 && line[3] == 32 {
            let stack_count = match count_box_stacks(line.as_slice()) {
                Ok(v) => v,
                Err(e) => {
                    return Err(e);
                },
            };
            return parse_crate_stacks(&drawing, stack_count);
        }
        drawing.push(line.clone());
    }
}

/// Reads one move order line; an empty line is no order.
fn parse_order(line: &[u8]) -> (r: Result<Option<Order>, ParseError>) {
    if line.len() == 0 {
        return Ok(None);
    }
    let mut it = ByteIterator::new(line);
    match consume_sequence(&mut it, &[109u8, 111u8, 118u8, 101u8]) {
        Ok(true) => {},
        Ok(false) => {
            return Err(ParseError::UnexpectedByte);
        },
        Err(e) => {
            return Err(e);
        },
    }
    consume_white_space(&mut it);
    let amt = match parse_number(&mut it) {
        Ok(v) => v,
        Err(e) => {
            return Err(e);
        },
    };
    consume_white_space(&mut it);
    match consume_sequence(&mut it, &[102u8, 114u8, 111u8, 109u8]) {
        Ok(true) => {},
        Ok(false) => {
            return Err(ParseError::UnexpectedByte);
        },
        Err(e) => {
            return Err(e);
        },
    }
    consume_white_space(&mut it);
    let from = match parse_number(&mut it) {
        Ok(v) => v,
        Err(e) => {
            return Err(e);
        },
    };
    consume_white_space(&mut it);
    match consume_sequence(&mut it, &[116u8, 111u8]) {
        Ok(true) => {},
        Ok(false) => {
            return Err(ParseError::UnexpectedByte);
        },
        Err(e) => {
            return Err(e);
        },
    }
    consume_white_space(&mut it);
    let to = match parse_number(&mut it) {
        Ok(v) => v,
        Err(e) => {
            return Err(e);
        },
    };
    if amt < 0 || from < 1 || to < 1 {
        return Err(ParseError::NotANumber);
    }
    Ok(
        Some(
            Order {
                from: (from - 1) as usize,
                to: (to - 1) as usize,
                amount: amt as usize,
            },
        ),
    )
}

/// Moves crates one at a time, so the moved group ends up reversed.
/// Nothing when an order names a missing stack or empties one out.
fn apply_order(order: Order, stacks: &mut Vec<Vec<u8>>) -> (r: Option<()>)
    ensures
        final(stacks)@.len() == old(stacks)@.len(),
{
    if order.from >= stacks.len() || order.to >= stacks.len() {
        return None;
    }
    for _k in 0..order.amount
        invariant
            order.from < stacks@.len(),
            order.to < stacks@.len(),
            stacks@.len() == old(stacks)@.len(),
    {
        let mut from_stack = stacks.remove(order.from);
        let krate = match from_stack.pop() {
            Some(v) => v,
            None => {
                stacks.insert(order.from, from_stack);
                return None;
            },
        };
        stacks.insert(order.from, from_stack);
        let mut to_stack = stacks.remove(order.to);
        to_stack.push(krate);
        stacks.insert(order.to, to_stack);
    }
    Some(())
}

/// Moves the whole group at once, keeping its order.
fn apply_order_p2(order: Order, stacks: &mut Vec<Vec<u8>>) -> (r: Option<()>)
    ensures
        final(stacks)@.len() == old(stacks)@.len(),
{
    if order.from >= stacks.len() || order.to >= stacks.len() {
        return None;
    }
    let from_size = stacks[order.from].len();
    if order.amount > from_size {
        return None;
    }
    if order.from == order.to {
        // Pushing the group onto its own stack and then popping the same
        // number of crates changes nothing.
        return Some(());
    }
    let mut moved: Vec<u8> = Vec::new();
    for i in 0..order.amount
        invariant
            order.from < stacks@.len(),
            order.amount <= from_size,
            stacks@[order.from as int]@.len() == from_size,
    {
        let from_index = from_size - order.amount + i;
        moved.push(stacks[order.from][from_index]);
    }
    let nm = moved.len();
    for i in 0..nm
        invariant
            nm == moved@.len(),
            order.to < stacks@.len(),
            stacks@.len() == old(stacks)@.len(),
    {
        let mut to_stack = stacks.remove(order.to);
        to_stack.push(moved[i]);
        stacks.insert(order.to, to_stack);
    }
    for _k in 0..order.amount
        invariant
            order.from < stacks@.len(),
            stacks@.len() == old(stacks)@.len(),
    {
        let mut from_stack = stacks.remove(order.from);
        from_stack.pop();
        stacks.insert(order.from, from_stack);
    }
    Some(())
}

/// The top crate of every stack after all orders, crates moved one at a
/// time.  Nothing on malformed input or an impossible order.
pub fn solvep1(input: &str) -> (r: Option<Vec<u8>>) {
    let lines = split_lines(input);
    let mut pos: usize = 0;
    let mut stacks = match parse_start(&lines, &mut pos) {
        Ok(v) => v,
        Err(_) => {
            return None;
        },
    };
    let n = lines.len();
    while pos < n
        invariant
            n == lines@.len(),
        decreases n - pos,
    {
        let line = &lines[pos];
        pos = pos + 1;
        match parse_order(line.as_slice()) {
            Ok(Some(order)) => {
                if apply_order(order, &mut stacks).is_none() {
                    return None;
                }
            },
            Ok(None) => {},
            Err(_) => {
                return None;
            },
        }
    }
    tops(&stacks)
}

/// The top crate of every stack after all orders, groups moved whole.
pub fn solvep2(input: &str) -> (r: Option<Vec<u8>>) {
    let lines = split_lines(input);
    let mut pos: usize = 0;
    let mut stacks = match parse_start(&lines, &mut pos) {
        Ok(v) => v,
        Err(_) => {
            return None;
        },
    };
    let n = lines.len();
    while pos < n
        invariant
            n == lines@.len(),
        decreases n - pos,
    {
        let line = &lines[pos];
        pos = pos + 1;
        match parse_order(line.as_slice()) {
            Ok(Some(order)) => {
                if apply_order_p2(order, &mut stacks).is_none() {
                    return None;
                }
            },
            Ok(None) => {},
            Err(_) => {
                return None;
            },
        }
    }
    tops(&stacks)
}

/// The top crate of every stack, in stack order; nothing when a stack is
/// empty.
fn tops(stacks: &Vec<Vec<u8>>) -> (r: Option<Vec<u8>>)
    ensures
        r matches Some(out) ==> out@.len() == stacks@.len(),
{
    let mut output: Vec<u8> = Vec::new();
    let n = stacks.len();
    for i in 0..n
        invariant
            n == stacks@.len(),
            output@.len() == i,
    {
        let stack = &stacks[i];
        if stack.len() == 0 {
            return None;
        }
        output.push(stack[stack.len() - 1]);
    }
    Some(output)
}

} // verus!
