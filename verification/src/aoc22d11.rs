//! Monkeys throwing worry-laden items.
//!
//! Each monkey inspects its items in turn, reworking the worry level with
//! its own operation, dividing by a relief factor, and throwing the item
//! on according to a divisibility test.  Worry levels are kept bounded by
//! the product of all divisors.  The answer multiplies the two largest
//! inspection counts.

use crate::parse_utils::ByteIterator;
use crate::parse_utils::consume_sequence;
use crate::parse_utils::consume_white_space;
use crate::parse_utils::parse_number;
use crate::parse_utils::split_lines;
use vstd::prelude::*;

verus! {

/// An operation's input: the old worry level or a constant.
#[derive(Clone, Copy)]
pub enum Operand {
    Old,
    Val(u64),
}

/// The operation a monkey applies while inspecting.
#[derive(Clone, Copy)]
pub enum Operator {
    Mult,
    Plus,
}

/// One monkey: its items, its inspection operation, and where it throws.
pub struct Monkey {
    pub inspection_count: usize,
    pub items: Vec<u64>,
    pub operator: Operator,
    pub left_operand: Operand,
    pub right_operand: Operand,
    pub test_divisor: u64,
    pub throw_if_true: usize,
    pub throw_if_false: usize,
}

/// Reads an operand token: the word `old` or a constant.
fn parse_operand(it: &mut ByteIterator) -> (r: Option<Operand>)
    requires
        old(it).wf(),
    ensures
        final(it).wf(),
        final(it).bytes() == old(it).bytes(),
        old(it).pos() <= final(it).pos(),
        r is Some ==> old(it).pos() < final(it).pos(),
{
    match consume_sequence(it, &[111u8, 108u8, 100u8]) {
        Ok(true) => {
            return Some(Operand::Old);
        },
        Ok(false) => {},
        Err(_) => {
            return None;
        },
    }
    match parse_number(it) {
        Ok(v) => {
            if v < 0 {
                None
            } else {
                Some(Operand::Val(v as u64))
            }
        },
        Err(_) => None,
    }
}

/// Reads an operator token: a plus or an asterisk.
fn parse_operator(it: &mut ByteIterator) -> (r: Option<Operator>)
    requires
        old(it).wf(),
    ensures
        final(it).wf(),
{
    match it.next() {
        Some((_, 43u8)) => Some(Operator::Plus),
        Some((_, 42u8)) => Some(Operator::Mult),
        _ => None,
    }
}

/// Demands that the cursor has reached the end of its line.
fn assert_eol(it: &mut ByteIterator) -> (r: Option<()>)
    requires
        old(it).wf(),
    ensures
        final(it).wf(),
{
    consume_white_space(it);
    match it.peek() {
        Some(_) => None,
        None => Some(()),
    }
}

/// Consumes a fixed keyword, failing on any deviation.
fn expect_word(it: &mut ByteIterator, word: &[u8]) -> (r: Option<()>)
    requires
        old(it).wf(),
        word@.len() >= 1,
    ensures
        final(it).wf(),
{
    match consume_sequence(it, word) {
        Ok(true) => Some(()),
        _ => None,
    }
}

/// Reads a non-negative number and returns it as an unsigned value.
fn expect_unsigned(it: &mut ByteIterator) -> (r: Option<u64>)
    requires
        old(it).wf(),
    ensures
        final(it).wf(),
        final(it).bytes() == old(it).bytes(),
        old(it).pos() <= final(it).pos(),
        r is Some ==> old(it).pos() < final(it).pos(),
{
    match parse_number(it) {
        Ok(v) => {
            if v < 0 {
                None
            } else {
                Some(v as u64)
            }
        },
        Err(_) => None,
    }
}

/// Reads the whole monkey roster.
pub fn parse(source: &str) -> (r: Option<Vec<Monkey>>)
    ensures
        r matches Some(ms) ==> ms@.len() >= 1,
{
    let lines = split_lines(source);
    let n = lines.len();
    let mut pos: usize = 0;
    let mut monkey_num: u64 = 0;
    let mut monkeys: Vec<Monkey> = Vec::new();
    loop
        invariant
            n == lines@.len(),
            pos <= n,
        decreases n - pos,
    {
        if pos >= n {
            return None;
        }
        let ghost pos_entry = pos;
        // "Monkey <n>:"
        let mut it = ByteIterator::new(lines[pos].as_slice());
        pos = pos + 1;
        if expect_word(&mut it, &[77u8, 111u8, 110u8, 107u8, 101u8, 121u8, 32u8]).is_none() {
            return None;
        }
        match expect_unsigned(&mut it) {
            Some(v) => {
                if v != monkey_num {
                    return None;
                }
            },
            None => {
                return None;
            },
        }
        if expect_word(&mut it, &[58u8]).is_none() {
            return None;
        }
        if monkey_num == u64::MAX {
            return None;
        }
        monkey_num = monkey_num + 1;
        // "  Starting items: a, b, c"
        if pos >= n {
            return None;
        }
        let mut it = ByteIterator::new(lines[pos].as_slice());
        pos = pos + 1;
        consume_white_space(&mut it);
        if expect_word(
            &mut it,
            &[
                83u8,
                116u8,
                97u8,
                114u8,
                116u8,
                105u8,
                110u8,
                103u8,
                32u8,
                105u8,
                116u8,
                101u8,
                109u8,
                115u8,
                58u8,
            ],
        ).is_none() {
            return None;
        }
        let mut monkey_items: Vec<u64> = Vec::new();
        loop
            invariant
                it.wf(),
            decreases it.bytes().len() - it.pos(),
        {
            consume_white_space(&mut it);
            match it.peek() {
                Some(_) => {
                    let v = match expect_unsigned(&mut it) {
                        Some(v) => v,
                        None => {
                            return None;
                        },
                    };
                    monkey_items.push(v);
                    match it.peek() {
                        Some((_, 44u8)) => {
                            it.next();
                        },
                        _ => {},
                    }
                },
                None => {
                    break ;
                },
            }
        }
        // "  Operation: new = <operand> <op> <operand>"
        if pos >= n {
            return None;
        }
        let mut it = ByteIterator::new(lines[pos].as_slice());
        pos = pos + 1;
        consume_white_space(&mut it);
        if expect_word(
            &mut it,
            &[
                79u8,
                112u8,
                101u8,
                114u8,
                97u8,
                116u8,
                105u8,
                111u8,
                110u8,
                58u8,
                32u8,
                110u8,
                101u8,
                119u8,
                32u8,
                61u8,
            ],
        ).is_none() {
            return None;
        }
        consume_white_space(&mut it);
        let left = match parse_operand(&mut it) {
            Some(v) => v,
            None => {
                return None;
            },
        };
        consume_white_space(&mut it);
        let op = match parse_operator(&mut it) {
            Some(v) => v,
            None => {
                return None;
            },
        };
        consume_white_space(&mut it);
        let right = match parse_operand(&mut it) {
            Some(v) => v,
            None => {
                return None;
            },
        };
        if assert_eol(&mut it).is_none() {
            return None;
        }
        // "  Test: divisible by <n>"
        if pos >= n {
            return None;
        }
        let mut it = ByteIterator::new(lines[pos].as_slice());
        pos = pos + 1;
        consume_white_space(&mut it);
        if expect_word(
            &mut it,
            &[
                84u8,
                101u8,
                115u8,
                116u8,
                58u8,
                32u8,
                100u8,
                105u8,
                118u8,
                105u8,
                115u8,
                105u8,
                98u8,
                108u8,
                101u8,
                32u8,
                98u8,
                121u8,
                32u8,
            ],
        ).is_none() {
            return None;
        }
        let divisor = match expect_unsigned(&mut it) {
            Some(v) => v,
            None => {
                return None;
            },
        };
        // "    If true: throw to monkey <n>"
        if pos >= n {
            return None;
        }
        let mut it = ByteIterator::new(lines[pos].as_slice());
        pos = pos + 1;
        consume_white_space(&mut it);
        if expect_word(
            &mut it,
            &[
                73u8,
                102u8,
                32u8,
                116u8,
                114u8,
                117u8,
                101u8,
                58u8,
                32u8,
                116u8,
                104u8,
                114u8,
                111u8,
                119u8,
                32u8,
                116u8,
                111u8,
                32u8,
                109u8,
                111u8,
                110u8,
                107u8,
                101u8,
                121u8,
                32u8,
            ],
        ).is_none() {
            return None;
        }
        let if_true = match expect_unsigned(&mut it) {
            Some(v) => v,
            None => {
                return None;
            },
        };
        // "    If false: throw to monkey <n>"
        if pos >= n {
            return None;
        }
        let mut it = ByteIterator::new(lines[pos].as_slice());
        pos = pos + 1;
        consume_white_space(&mut it);
        if expect_word(
            &mut it,
            &[
                73u8,
                102u8,
                32u8,
                102u8,
                97u8,
                108u8,
                115u8,
                101u8,
                58u8,
                32u8,
                116u8,
                104u8,
                114u8,
                111u8,
                119u8,
                32u8,
                116u8,
                111u8,
                32u8,
                109u8,
                111u8,
                110u8,
                107u8,
                101u8,
                121u8,
                32u8,
            ],
        ).is_none() {
            return None;
        }
        let if_false = match expect_unsigned(&mut it) {
            Some(v) => v,
            None => {
                return None;
            },
        };
        if if_true > usize::MAX as u64 || if_false > usize::MAX as u64 {
            return None;
        }
        monkeys.push(
            Monkey {
                inspection_count: 0,
                items: monkey_items,
                operator: op,
                left_operand: left,
                right_operand: right,
                test_divisor: divisor,
                throw_if_true: if_true as usize,
                throw_if_false: if_false as usize,
            },
        );
        // Consume blank lines; end of input ends the roster.
        loop
            invariant
                n == lines@.len(),
                pos_entry < pos,
                pos <= n,
                monkeys@.len() >= 1,
            decreases n - pos,
        {
            if pos >= n {
                return Some(monkeys);
            }
            if lines[pos].len() == 0 {
                pos = pos + 1;
            } else {
                break ;
            }
        }
    }
}

/// Folds a factor into the running bound: keeps the bound when the factor
/// already divides it, multiplies otherwise.  Nothing on a zero factor or
/// overflow.
fn add_lcm_factor(lcm: u64, factor: u64) -> (r: Option<u64>)
    requires
        lcm >= 1,
    ensures
        r matches Some(v) ==> v >= 1,
{
    if factor == 0 {
        return None;
    }
    if lcm % factor == 0 {
        Some(lcm)
    } else {
        match lcm.checked_mul(factor) {
            Some(v) => {
                proof {
                    assert(lcm * factor >= 1) by (nonlinear_arith)
                        requires
                            lcm >= 1,
                            factor >= 1,
                    ;
                }
                Some(v)
            },
            None => None,
        }
    }
}

/// A common multiple of every divisor and operation constant in the
/// roster, used to keep worry levels bounded.
fn get_monkeys_least_common_multiple(monkeys: &Vec<Monkey>) -> (r: Option<u64>)
    ensures
        r matches Some(v) ==> v >= 1,
{
    let mut lcm: u64 = 1;
    let n = monkeys.len();
    for i in 0..n
        invariant
            n == monkeys@.len(),
            lcm >= 1,
    {
        lcm = match add_lcm_factor(lcm, monkeys[i].test_divisor) {
            Some(v) => v,
            None => {
                return None;
            },
        };
        match monkeys[i].left_operand {
            Operand::Old => {},
            Operand::Val(v) => {
                lcm = match add_lcm_factor(lcm, v) {
                    Some(v2) => v2,
                    None => {
                        return None;
                    },
                };
            },
        }
        match monkeys[i].right_operand {
            Operand::Old => {},
            Operand::Val(v) => {
                lcm = match add_lcm_factor(lcm, v) {
                    Some(v2) => v2,
                    None => {
                        return None;
                    },
                };
            },
        }
    }
    Some(lcm)
}

/// The value an operand takes for a given old worry level.
fn evaluate_operand(operand: Operand, old_val: u64) -> (r: u64)
    ensures
        r == match operand {
            Operand::Old => old_val,
            Operand::Val(v) => v,
        },
{
    match operand {
        Operand::Old => old_val,
        Operand::Val(v) => v,
    }
}

/// Runs one round: every monkey inspects and throws all its items in
/// turn.  Nothing on overflow, a throw to a missing monkey, or an
/// endlessly bouncing item.
fn execute_round(monkeys: &mut Vec<Monkey>, relief: u64, lcm: u64) -> (r: Option<()>)
    requires
        relief >= 1,
        lcm >= 1,
    ensures
        final(monkeys)@.len() == old(monkeys)@.len(),
{
    let n = monkeys.len();
    for i in 0..n
        invariant
            n == monkeys@.len(),
            n == old(monkeys)@.len(),
            relief >= 1,
            lcm >= 1,
    {
        let mut m = monkeys.remove(i);
        m.inspection_count = match m.inspection_count.checked_add(m.items.len()) {
            Some(v) => v,
            None => {
                monkeys.insert(i, m);
                return None;
            },
        };
        monkeys.insert(i, m);
        let mut budget: usize = usize::MAX;
        loop
            invariant
                n == monkeys@.len(),
                n == old(monkeys)@.len(),
                i < n,
                relief >= 1,
                lcm >= 1,
            decreases budget,
        {
            if budget == 0 {
                return None;
            }
            budget = budget - 1;
            let mut m = monkeys.remove(i);
            if m.items.len() == 0 {
                monkeys.insert(i, m);
                break ;
            }
            let old_val = m.items.remove(0);
            let left = evaluate_operand(m.left_operand, old_val);
            let right = evaluate_operand(m.right_operand, old_val);
            let new_val = match m.operator {
                Operator::Mult => {
                    match left.checked_mul(right) {
                        Some(v) => v,
                        None => {
                            monkeys.insert(i, m);
                            return None;
                        },
                    }
                },
                Operator::Plus => {
                    match left.checked_add(right) {
                        Some(v) => v,
                        None => {
                            monkeys.insert(i, m);
                            return None;
                        },
                    }
                },
            };
            let new_val = (new_val / relief) % lcm;
            let target_monkey = if m.test_divisor == 0 {
                monkeys.insert(i, m);
                return None;
            } else if new_val % m.test_divisor == 0 {
                let t = m.throw_if_true;
                monkeys.insert(i, m);
                t
            } else {
                let t = m.throw_if_false;
                monkeys.insert(i, m);
                t
            };
            if target_monkey >= n {
                return None;
            }
            let mut t = monkeys.remove(target_monkey);
            t.items.push(new_val);
            monkeys.insert(target_monkey, t);
        }
    }
    Some(())
}

/// The level of monkey business: the product of the two largest
/// inspection counts after the given number of rounds.  Nothing on
/// malformed input or overflow.
pub fn solve(input: &str, relief: u64, rounds: usize) -> (r: Option<usize>) {
    if relief == 0 {
        return None;
    }
    let mut monkeys = match parse(input) {
        Some(v) => v,
        None => {
            return None;
        },
    };
    let lcm = match get_monkeys_least_common_multiple(&monkeys) {
        Some(v) => v,
        None => {
            return None;
        },
    };
    for _round in 0..rounds
        invariant
            relief >= 1,
            lcm >= 1,
    {
        if execute_round(&mut monkeys, relief, lcm).is_none() {
            return None;
        }
    }
    let mut best0: usize = 0;
    let mut best1: usize = 0;
    let n = monkeys.len();
    for k in 0..n
        invariant
            n == monkeys@.len(),
    {
        let mut mic = monkeys[k].inspection_count;
        if mic > best0 {
            let tmp = best0;
            best0 = mic;
            mic = tmp;
        }
        if mic > best1 {
            best1 = mic;
        }
    }
    match best0.checked_mul(best1) {
        Some(v) => Some(v),
        None => None,
    }
}

} // verus!
