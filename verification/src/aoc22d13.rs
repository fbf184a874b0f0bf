//! Comparing nested packet lists.
//!
//! Packets are nested lists of small numbers written with brackets and
//! commas.  Two numbers compare as numbers; two lists compare element by
//! element, the shorter list first; a number against a list is compared as
//! a one-element list.  One answer sums the indices of ordered pairs, the
//! other sorts all packets with two divider packets and multiplies the
//! dividers' positions.

use crate::parse_utils::ByteIterator;
use crate::parse_utils::ParseError;
use crate::parse_utils::is_digit;
use crate::parse_utils::spec_is_digit;
use crate::parse_utils::split_lines;
use vstd::prelude::*;

verus! {

/// One packet element: a number or a list of elements.
#[derive(Debug)]
pub enum Element {
    Item(u8),
    List(Vec<Element>),
}

/// The outcome of comparing two packets.
#[derive(Clone, Copy, Debug, PartialEq, Eq, Structural)]
pub enum PacketOrder {
    Less,
    Equal,
    Greater,
}

/// Reads a bare number up to the next comma or closing bracket.
fn parse_number(it: &mut ByteIterator) -> (r: Result<u8, ParseError>)
    requires
        old(it).wf(),
    ensures
        final(it).wf(),
        final(it).bytes() == old(it).bytes(),
        old(it).pos() <= final(it).pos(),
        (r is Ok && old(it).pos() < old(it).bytes().len() && spec_is_digit(
            old(it).bytes()[old(it).pos()],
        )) ==> old(it).pos() < final(it).pos(),
{
    let mut num: u8 = 0;
    loop
        invariant
            it.wf(),
            it.bytes() == old(it).bytes(),
            old(it).pos() <= it.pos(),
        decreases it.bytes().len() - it.pos(),
    {
        match it.peek() {
            Some((_, 93u8)) => {
                return Ok(num);
            },
            Some((_, 44u8)) => {
                return Ok(num);
            },
            Some((_, v)) => {
                if !is_digit(v) {
                    return Err(ParseError::UnexpectedByte);
                }
                num = match num.checked_mul(10) {
                    Some(n) => {
                        match n.checked_add(v - 48) {
                            Some(n2) => n2,
                            None => {
                                return Err(ParseError::Overflow);
                            },
                        }
                    },
                    None => {
                        return Err(ParseError::Overflow);
                    },
                };
                it.next();
            },
            None => {
                return Err(ParseError::UnexpectedEnd);
            },
        }
    }
}

/// Reads a bracketed list of elements.
fn parse_list(it: &mut ByteIterator) -> (r: Result<Vec<Element>, ParseError>)
    requires
        old(it).wf(),
    ensures
        final(it).wf(),
        final(it).bytes() == old(it).bytes(),
        old(it).pos() <= final(it).pos(),
        r is Ok ==> old(it).pos() < final(it).pos(),
    decreases old(it).bytes().len() - old(it).pos(), 0int,
{
    match it.next() {
        Some((_, 91u8)) => {},
        _ => {
            return Err(ParseError::UnexpectedByte);
        },
    }
    let mut output: Vec<Element> = Vec::new();
    loop
        invariant
            it.wf(),
            it.bytes() == old(it).bytes(),
            old(it).pos() < it.pos(),
        decreases it.bytes().len() - it.pos(),
    {
        match it.peek() {
            Some((_, 93u8)) => {
                it.next();
                return Ok(output);
            },
            Some(_) => {
                let element = match parse_element(it) {
                    Ok(v) => v,
                    Err(e) => {
                        return Err(e);
                    },
                };
                output.push(element);
                match it.peek() {
                    Some((_, 44u8)) => {
                        it.next();
                    },
                    _ => {},
                }
            },
            None => {
                return Err(ParseError::UnexpectedEnd);
            },
        }
    }
}

/// Reads one element: a nested list or a number.
fn parse_element(it: &mut ByteIterator) -> (r: Result<Element, ParseError>)
    requires
        old(it).wf(),
    ensures
        final(it).wf(),
        final(it).bytes() == old(it).bytes(),
        old(it).pos() <= final(it).pos(),
        r is Ok ==> old(it).pos() < final(it).pos(),
    decreases old(it).bytes().len() - old(it).pos(), 1int,
{
    match it.peek() {
        Some((_, 91u8)) => {
            match parse_list(it) {
                Ok(l) => Ok(Element::List(l)),
                Err(e) => Err(e),
            }
        },
        Some((_, v)) => {
            if is_digit(v) {
                match parse_number(it) {
                    Ok(num) => Ok(Element::Item(num)),
                    Err(e) => Err(e),
                }
            } else {
                Err(ParseError::UnexpectedByte)
            }
        },
        None => Err(ParseError::UnexpectedEnd),
    }
}

/// Reads one whole packet line: a bracketed list with nothing after it.
fn parse_line(line: &[u8]) -> (r: Result<Element, ParseError>) {
    let mut it = ByteIterator::new(line);
    let output = match parse_list(&mut it) {
        Ok(v) => v,
        Err(e) => {
            return Err(e);
        },
    };
    match it.peek() {
        Some(_) => Err(ParseError::UnexpectedByte),
        None => Ok(Element::List(output)),
    }
}

/// Compares two packets by the puzzle's rules, spending `fuel` on nested
/// comparisons; nothing when the nesting outruns the fuel.  The ordering
/// is reflexive: a packet never compares unequal to itself.
fn packets_in_order(p1: &Element, p2: &Element, fuel: u64) -> (r: Option<PacketOrder>)
    ensures
        p1 == p2 ==> r is None || r == Some(PacketOrder::Equal),
    decreases fuel,
{
    if fuel == 0 {
        return None;
    }
    match p1 {
        Element::Item(p1num) => match p2 {
            Element::Item(p2num) => {
                if *p1num < *p2num {
                    Some(PacketOrder::Less)
                } else if *p1num > *p2num {
                    Some(PacketOrder::Greater)
                } else {
                    Some(PacketOrder::Equal)
                }
            },
            Element::List(p2list) => {
                if p2list.len() == 0 {
                    return Some(PacketOrder::Greater);
                }
                // A number against a list compares as a one-element list:
                // the number against the list's head, the lengths breaking
                // a tie.
                match packets_in_order(p1, &p2list[0], fuel - 1) {
                    Some(PacketOrder::Equal) => {
                        if p2list.len() == 1 {
                            Some(PacketOrder::Equal)
                        } else {
                            Some(PacketOrder::Less)
                        }
                    },
                    other => other,
                }
            },
        },
        Element::List(p1list) => match p2 {
            Element::Item(_) => {
                if p1list.len() == 0 {
                    return Some(PacketOrder::Less);
                }
                match packets_in_order(&p1list[0], p2, fuel - 1) {
                    Some(PacketOrder::Equal) => {
                        if p1list.len() == 1 {
                            Some(PacketOrder::Equal)
                        } else {
                            Some(PacketOrder::Greater)
                        }
                    },
                    other => other,
                }
            },
            Element::List(p2list) => {
                let n1 = p1list.len();
                let n2 = p2list.len();
                let common = if n1 <= n2 {
                    n1
                } else {
                    n2
                };
                for k in 0..common
                    invariant
                        common <= p1list@.len(),
                        common <= p2list@.len(),
                        fuel >= 1,
                        p1 == p2 ==> p1list == p2list,
                {
                    match packets_in_order(&p1list[k], &p2list[k], fuel - 1) {
                        Some(PacketOrder::Equal) => {},
                        other => {
                            return other;
                        },
                    }
                }
                if n1 < n2 {
                    Some(PacketOrder::Less)
                } else if n1 > n2 {
                    Some(PacketOrder::Greater)
                } else {
                    Some(PacketOrder::Equal)
                }
            },
        },
    }
}

/// Sums the one-based indices of the packet pairs that are already in
/// order.  Nothing on malformed input.
pub fn solve(input: &str) -> (r: Option<usize>) {
    let lines = split_lines(input);
    let n = lines.len();
    let mut pos: usize = 0;
    let mut index: usize = 1;
    let mut output: usize = 0;
    while pos < n
        invariant
            n == lines@.len(),
            1 <= index,
        decreases n - pos,
    {
        let line1 = &lines[pos];
        pos = pos + 1;
        if line1.len() == 0 {
            if pos < n {
                return None;
            }
            break ;
        }
        if pos >= n {
            return None;
        }
        let line2 = &lines[pos];
        pos = pos + 1;
        let p1 = match parse_line(line1.as_slice()) {
            Ok(v) => v,
            Err(_) => {
                return None;
            },
        };
        let p2 = match parse_line(line2.as_slice()) {
            Ok(v) => v,
            Err(_) => {
                return None;
            },
        };
        match packets_in_order(&p1, &p2, u64::MAX) {
            Some(PacketOrder::Greater) => {},
            Some(_) => {
                output = match output.checked_add(index) {
                    Some(v) => v,
                    None => {
                        return None;
                    },
                };
            },
            None => {
                return None;
            },
        }
        index = match index.checked_add(1) {
            Some(v) => v,
            None => {
                return None;
            },
        };
        if pos < n {
            let sep = &lines[pos];
            pos = pos + 1;
            if sep.len() != 0 {
                return None;
            }
        }
    }
    Some(output)
}

/// Is the element a list holding exactly one list holding exactly one of
/// the divider numbers two and six?
fn is_divider(element: &Element) -> (r: bool) {
    match element {
        Element::Item(_) => false,
        Element::List(l) => {
            if l.len() != 1 {
                false
            } else {
                match &l[0] {
                    Element::Item(_) => false,
                    Element::List(l2) => {
                        if l2.len() != 1 {
                            false
                        } else {
                            match &l2[0] {
                                Element::Item(v) => *v == 2 || *v == 6,
                                Element::List(_) => false,
                            }
                        }
                    },
                }
            }
        },
    }
}

/// The product of `acc` and the divider's one-based position, when the
/// element at `index` is a divider packet.
fn fold_func(acc: usize, index: usize, element: &Element) -> (r: Option<usize>) {
    if is_divider(element) {
        let pos = match index.checked_add(1) {
            Some(v) => v,
            None => {
                return None;
            },
        };
        match acc.checked_mul(pos) {
            Some(v) => Some(v),
            None => None,
        }
    } else {
        Some(acc)
    }
}

/// Sorts all packets together with the two divider packets and multiplies
/// the dividers' one-based positions.  Nothing on malformed input.
pub fn solvep2(input: &str) -> (r: Option<usize>) {
    let lines = split_lines(input);
    let n = lines.len();
    let mut pos: usize = 0;
    let mut packets: Vec<Element> = Vec::new();
    while pos < n
        invariant
            n == lines@.len(),
        decreases n - pos,
    {
        let line1 = &lines[pos];
        pos = pos + 1;
        if line1.len() == 0 {
            if pos < n {
                return None;
            }
            break ;
        }
        if pos >= n {
            return None;
        }
        let line2 = &lines[pos];
        pos = pos + 1;
        match parse_line(line1.as_slice()) {
            Ok(v) => packets.push(v),
            Err(_) => {
                return None;
            },
        }
        match parse_line(line2.as_slice()) {
            Ok(v) => packets.push(v),
            Err(_) => {
                return None;
            },
        }
        if pos < n {
            let sep = &lines[pos];
            pos = pos + 1;
            if sep.len() != 0 {
                return None;
            }
        }
    }
    let mut divider2: Vec<Element> = Vec::new();
    divider2.push(Element::Item(2));
    let mut wrap2: Vec<Element> = Vec::new();
    wrap2.push(Element::List(divider2));
    packets.push(Element::List(wrap2));
    let mut divider6: Vec<Element> = Vec::new();
    divider6.push(Element::Item(6));
    let mut wrap6: Vec<Element> = Vec::new();
    wrap6.push(Element::List(divider6));
    packets.push(Element::List(wrap6));
    let sorted = match sort_packets(packets) {
        Some(v) => v,
        None => {
            return None;
        },
    };
    let mut acc: usize = 1;
    let ns = sorted.len();
    for k in 0..ns
        invariant
            ns == sorted@.len(),
    {
        acc = match fold_func(acc, k, &sorted[k]) {
            Some(v) => v,
            None => {
                return None;
            },
        };
    }
    Some(acc)
}

/// A stable insertion sort under the packet ordering: each packet lands
/// before the first already-placed packet that compares greater.
fn sort_packets(packets: Vec<Element>) -> (r: Option<Vec<Element>>)
    ensures
        r matches Some(out) ==> out@.len() == packets@.len(),
{
    let mut sorted: Vec<Element> = Vec::new();
    let mut rest = packets;
    let n = rest.len();
    for step in 0..n
        invariant
            n == rest@.len() + sorted@.len(),
            sorted@.len() == step,
    {
        let p = rest.remove(0);
        let mut at: usize = sorted.len();
        let m = sorted.len();
        let mut k: usize = 0;
        let mut found = false;
        while k < m
            invariant
                m == sorted@.len(),
                k <= m,
                at <= m,
            decreases m - k,
        {
            if !found {
                match packets_in_order(&sorted[k], &p, u64::MAX) {
                    Some(PacketOrder::Greater) => {
                        at = k;
                        found = true;
                    },
                    Some(_) => {},
                    None => {
                        return None;
                    },
                }
            }
            k = k + 1;
        }
        sorted.insert(at, p);
    }
    Some(sorted)
}

} // verus!
