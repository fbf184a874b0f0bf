//! Mixing an encrypted file of numbers.
//!
//! Each number is moved through the circular list by its own value, in the
//! original order of appearance; the answer reads the values 1000, 2000 and
//! 3000 places after the zero.

use crate::parse_utils::ByteIterator;
use crate::parse_utils::lemma_skip_ws_bounds;
use crate::parse_utils::lemma_skip_ws_characterize;
use crate::parse_utils::lemma_spec_parse_number_bounds;
use crate::parse_utils::spec_number_fits;
use crate::parse_utils::spec_parse_number;
use crate::parse_utils::spec_skip_ws;
use vstd::arithmetic::div_mod::lemma_fundamental_div_mod;
use vstd::arithmetic::div_mod::lemma_fundamental_div_mod_converse;
use vstd::arithmetic::div_mod::lemma_mod_multiples_basic;
use vstd::seq_lib::lemma_multiset_commutative;
use crate::parse_utils::ParseError;
use crate::parse_utils::consume_white_space;
use crate::parse_utils::get_byte_iterator;
use crate::parse_utils::parse_number;
use vstd::prelude::*;
use vstd::string::StringSliceAdditionalSpecFns;

verus! {

/// What the whitespace-separated number list starting at `pos` denotes:
/// the values in textual order, or nothing when some token is no number
/// or does not fit the signed word.
pub open spec fn spec_number_list(s: Seq<u8>, pos: int) -> Option<Seq<int>>
    decreases s.len() - pos,
    via spec_number_list_decreases
{
    if pos < 0 {
        None
    } else {
        let q = spec_skip_ws(s, pos);
        if q >= s.len() {
            Some(Seq::empty())
        } else {
            match spec_parse_number(s, q) {
                Some(ve) => if spec_number_fits(s, q) {
                    match spec_number_list(s, ve.1) {
                        Some(rest) => Some(seq![ve.0] + rest),
                        None => None,
                    }
                } else {
                    None
                },
                None => None,
            }
        }
    }
}

#[via_fn]
proof fn spec_number_list_decreases(s: Seq<u8>, pos: int) {
    if pos >= 0 {
        let q = spec_skip_ws(s, pos);
        lemma_skip_ws_bounds(s, pos);
        if q < s.len() {
            match spec_parse_number(s, q) {
                Some(ve) => {
                    lemma_spec_parse_number_bounds(s, q);
                },
                None => {},
            }
        }
    }
}

/// Reads the whitespace-separated numbers of the input, in order; the
/// result is exactly what the input's number list denotes, and reading
/// fails exactly when the input denotes no list.
pub fn parse(source: &str) -> (r: Result<Vec<isize>, ParseError>)
    ensures
        match r {
            Ok(out) => spec_number_list(source.spec_bytes(), 0) == Some(
                out@.map_values(|x: isize| x as int),
            ),
            Err(_) => spec_number_list(source.spec_bytes(), 0) is None,
        },
{
    let ghost s = source.spec_bytes();
    let mut it = get_byte_iterator(source);
    let mut output: Vec<isize> = Vec::new();
    consume_white_space(&mut it);
    proof {
        it.lemma_pos_bound();
        lemma_skip_ws_characterize(s, 0, it.pos());
        lemma_skip_ws_characterize(s, it.pos(), it.pos());
        assert(output@.map_values(|x: isize| x as int) =~= Seq::<int>::empty());
    }
    loop
        invariant
            s == source.spec_bytes(),
            it.wf(),
            it.bytes() == s,
            spec_skip_ws(s, it.pos()) == it.pos(),
            match spec_number_list(s, it.pos()) {
                Some(rest) => spec_number_list(s, 0) == Some(
                    output@.map_values(|x: isize| x as int) + rest,
                ),
                None => spec_number_list(s, 0) is None,
            },
        decreases it.bytes().len() - it.pos(),
    {
        match it.peek() {
            Some(_) => {
                let ghost p = it.pos();
                let v = match parse_number(&mut it) {
                    Ok(v) => v,
                    Err(e) => {
                        proof {
                            assert(spec_number_list(s, p) is None);
                        }
                        return Err(e);
                    },
                };
                output.push(v);
                let ghost e = it.pos();
                consume_white_space(&mut it);
                proof {
                    it.lemma_pos_bound();
                    lemma_skip_ws_characterize(s, e, it.pos());
                    lemma_skip_ws_characterize(s, it.pos(), it.pos());
                    let old_map = output@.drop_last().map_values(|x: isize| x as int);
                    let new_map = output@.map_values(|x: isize| x as int);
                    assert(new_map =~= old_map.push(v as int));
                    assert(spec_number_list(s, e) == spec_number_list(s, it.pos()));
                    match spec_number_list(s, it.pos()) {
                        Some(rest) => {
                            assert(spec_number_list(s, p) == Some(seq![v as int] + rest));
                            assert(old_map + (seq![v as int] + rest) =~= new_map + rest);
                        },
                        None => {},
                    }
                }
            },
            None => {
                proof {
                    assert(spec_number_list(s, it.pos()) == Some(Seq::<int>::empty()));
                    assert(output@.map_values(|x: isize| x as int) + Seq::<int>::empty()
                        =~= output@.map_values(|x: isize| x as int));
                }
                return Ok(output);
            },
        }
    }
}

/// The file scaled by the decryption key, or nothing on overflow.
pub fn mult(input: &Vec<isize>) -> (r: Option<Vec<isize>>)
    ensures
        match r {
            Some(out) => {
                &&& out@.len() == input@.len()
                &&& forall|k: int|
                    0 <= k < input@.len() ==> #[trigger] out@[k] == input@[k] * 811589153
            },
            None => exists|k: int|
                0 <= k < input@.len() && !(isize::MIN <= #[trigger] input@[k] * 811589153
                    <= isize::MAX),
        },
{
    let mut output: Vec<isize> = Vec::with_capacity(input.len());
    let n = input.len();
    for i in 0..n
        invariant
            n == input@.len(),
            output@.len() == i,
            forall|k: int| 0 <= k < i ==> #[trigger] output@[k] == input@[k] * 811589153,
    {
        let v = match input[i].checked_mul(811589153) {
            Some(v) => v,
            None => {
                proof {
                    assert(!(isize::MIN <= input@[i as int] * 811589153 <= isize::MAX));
                }
                return None;
            },
        };
        output.push(v);
    }
    Some(output)
}

/// Moves the element at `index` one step to the left in the circular list;
/// an element that would land on index 0 is placed at the end instead.
/// Yields the element's new position.
fn switch_down<T: Copy>(index: usize, output: &mut Vec<T>) -> (r: usize)
    requires
        old(output)@.len() >= 2,
        index < old(output)@.len(),
    ensures
        final(output)@.len() == old(output)@.len(),
        r < final(output)@.len(),
        final(output)@[r as int] == old(output)@[index as int],
{
    if index == 1 {
        let val = output.remove(index);
        output.push(val);
        return output.len() - 1;
    }
    if index == 0 {
        let val = output.remove(index);
        let val2 = match output.pop() {
            Some(v) => v,
            None => {
                return 0;
            },
        };
        output.push(val);
        output.push(val2);
        return output.len() - 2;
    }
    let val = output[index];
    let val2 = output[index - 1];
    output.set(index, val2);
    output.set(index - 1, val);
    index - 1
}

/// Moves the element at `index` one step to the right in the circular
/// list; the last element wraps to position 1.  Yields the element's new
/// position.
fn switch_up<T: Copy>(index: usize, output: &mut Vec<T>) -> (r: usize)
    requires
        old(output)@.len() >= 2,
        index < old(output)@.len(),
    ensures
        final(output)@.len() == old(output)@.len(),
        r < final(output)@.len(),
        final(output)@[r as int] == old(output)@[index as int],
{
    if index == output.len() - 1 {
        let val = match output.pop() {
            Some(v) => v,
            None => {
                return 0;
            },
        };
        output.insert(1, val);
        return 1;
    }
    let val = output[index];
    let val2 = output[index + 1];
    output.set(index, val2);
    output.set(index + 1, val);
    index + 1
}

/// The position of the first occurrence of `val`, or nothing when the list
/// does not hold it.
fn find(val: isize, vec: &Vec<isize>) -> (r: Option<usize>)
    ensures
        match r {
            Some(i) => i < vec@.len() && vec@[i as int] == val && forall|j: int|
                0 <= j < i ==> #[trigger] vec@[j] != val,
            None => forall|j: int| 0 <= j < vec@.len() ==> #[trigger] vec@[j] != val,
        },
{
    let n = vec.len();
    for i in 0..n
        invariant
            n == vec@.len(),
            forall|j: int| 0 <= j < i ==> #[trigger] vec@[j] != val,
    {
        if vec[i] == val {
            return Some(i);
        }
    }
    None
}

/// The remainder of `a` by `m`, shifted into `(0, m]` for negative `a` so
/// that a wrapped element lands at the end of the list rather than at its
/// head: the result always differs from `a` by a multiple of `m`.
fn modulo(a: isize, m: isize) -> (r: isize)
    requires
        1 <= m,
        isize::MIN < a,
    ensures
        (r - a) % (m as int) == 0,
        a >= 0 ==> 0 <= r < m && r == a as int % m as int,
        a < 0 ==> 0 < r <= m,
        a < 0 && a as int % m as int == 0 ==> r == m,
        a < 0 && a as int % m as int != 0 ==> r == a as int % m as int,
{
    if a >= 0 {
        let r = a % m;
        proof {
            lemma_fundamental_div_mod(a as int, m as int);
            lemma_mod_multiples_basic(-(a as int / m as int), m as int);
            assert(r - a == (-(a as int / m as int)) * (m as int)) by (nonlinear_arith)
                requires
                    a as int == (m as int) * (a as int / m as int) + r,
            ;
        }
        r
    } else {
        let b = -a;
        let rb = b % m;
        proof {
            lemma_fundamental_div_mod(b as int, m as int);
            let q = b as int / m as int;
            if rb == 0 {
                assert(a as int == (-q) * (m as int) + 0) by (nonlinear_arith)
                    requires
                        b == -a,
                        b as int == (m as int) * q + rb,
                        rb == 0,
                ;
                lemma_fundamental_div_mod_converse(a as int, m as int, -q, 0);
                lemma_mod_multiples_basic(1 + q, m as int);
                assert((m as int) - a == (1 + q) * (m as int)) by (nonlinear_arith)
                    requires
                        b == -a,
                        b as int == (m as int) * q + rb,
                        rb == 0,
                ;
            } else {
                assert(a as int == (-q - 1) * (m as int) + ((m as int) - rb)) by (nonlinear_arith)
                    requires
                        b == -a,
                        b as int == (m as int) * q + rb,
                ;
                lemma_fundamental_div_mod_converse(
                    a as int,
                    m as int,
                    -q - 1,
                    (m as int) - rb,
                );
                lemma_mod_multiples_basic(1 + q, m as int);
                assert(((m as int) - rb) - a == (1 + q) * (m as int)) by (nonlinear_arith)
                    requires
                        b == -a,
                        b as int == (m as int) * q + rb,
                ;
            }
        }
        if rb == 0 {
            m
        } else {
            m - rb
        }
    }
}

/// Inserting an element anywhere adds exactly that element to a
/// sequence's multiset.
proof fn lemma_insert_to_multiset(s: Seq<isize>, pos: int, v: isize)
    requires
        0 <= pos <= s.len(),
    ensures
        s.insert(pos, v).to_multiset() =~= s.to_multiset().insert(v),
{
    broadcast use vstd::seq_lib::group_to_multiset_ensures;
    broadcast use vstd::multiset::group_multiset_axioms;

    let a = s.subrange(0, pos);
    let b = s.subrange(pos, s.len() as int);
    assert(s.insert(pos, v) == a.push(v) + b);
    lemma_multiset_commutative(a.push(v), b);
    lemma_multiset_commutative(a, b);
    assert(s =~= a + b);
    assert(a.push(v).to_multiset() =~= a.to_multiset().insert(v));
}

/// Taking an element out of a sequence and putting it back anywhere else
/// leaves the multiset of elements unchanged.
proof fn lemma_remove_insert_same(s: Seq<isize>, index: int, pos: int)
    requires
        0 <= index < s.len(),
        0 <= pos <= s.len() - 1,
    ensures
        s.remove(index).insert(pos, s[index]).to_multiset() =~= s.to_multiset(),
{
    broadcast use vstd::seq_lib::group_to_multiset_ensures;
    broadcast use vstd::multiset::group_multiset_axioms;

    s.to_multiset_ensures();
    lemma_insert_to_multiset(s.remove(index), pos, s[index]);
    assert(s.contains(s[index]));
    assert(s.to_multiset().count(s[index]) > 0);
}

/// Mixes the file `n` times: each value, in input order, moves through the
/// circular list by its own amount.  The result holds exactly the input's
/// values, rearranged.  Nothing on a degenerate or overlong list.
pub fn mix(input: &Vec<isize>, n: usize) -> (r: Option<Vec<isize>>)
    ensures
        match r {
            Some(out) => {
                &&& out@.len() == input@.len()
                &&& out@.to_multiset() == input@.to_multiset()
            },
            None => true,
        },
{
    let len = input.len();
    if len > isize::MAX as usize {
        return None;
    }
    let mut output: Vec<isize> = Vec::new();
    let mut order: Vec<isize> = Vec::new();
    for i in 0..len
        invariant
            len == input@.len(),
            output@ == input@.subrange(0, i as int),
            order@.len() == i,
            len <= isize::MAX as usize,
    {
        output.push(input[i]);
        proof {
            assert(output@ =~= input@.subrange(0, i + 1));
        }
        order.push(i as isize);
    }
    proof {
        assert(output@ =~= input@);
    }
    for _round in 0..n
        invariant
            len == input@.len(),
            output@.len() == len,
            order@.len() == len,
            len <= isize::MAX as usize,
            output@.to_multiset() == input@.to_multiset(),
    {
        for i in 0..len
            invariant
                len == input@.len(),
                output@.len() == len,
                order@.len() == len,
                len <= isize::MAX as usize,
                output@.to_multiset() == input@.to_multiset(),
        {
            let index = match find(i as isize, &order) {
                Some(v) => v,
                None => {
                    return None;
                },
            };
            let ghost pre = output@;
            order.remove(index);
            let val = output.remove(index);
            let m = output.len();
            if m == 0 {
                return None;
            }
            let shifted = match (index as isize).checked_add(val) {
                Some(v) => v,
                None => {
                    return None;
                },
            };
            if shifted == isize::MIN {
                return None;
            }
            let new_pos = modulo(shifted, m as isize) as usize;
            order.insert(new_pos, i as isize);
            output.insert(new_pos, val);
            proof {
                lemma_remove_insert_same(pre, index as int, new_pos as int);
                assert(output@ == pre.remove(index as int).insert(new_pos as int, pre[index as int]));
            }
        }
    }
    Some(output)
}

/// The grove-coordinate sum after one mixing pass: the values 1000, 2000
/// and 3000 places past the zero, added up.  Nothing on malformed input or
/// a list without a zero; an answer means the input denoted a number list.
pub fn solve(input: &str) -> (r: Option<isize>)
    ensures
        r is Some ==> spec_number_list(input.spec_bytes(), 0) is Some,
{
    let file = match parse(input) {
        Ok(v) => v,
        Err(_) => {
            return None;
        },
    };
    let new = match mix(&file, 1) {
        Some(v) => v,
        None => {
            return None;
        },
    };
    coordinate_sum(&new)
}

/// The grove-coordinate sum after scaling by the key and ten mixing
/// passes; an answer means the input denoted a number list.
pub fn solve2(input: &str) -> (r: Option<isize>)
    ensures
        r is Some ==> spec_number_list(input.spec_bytes(), 0) is Some,
{
    let parsed = match parse(input) {
        Ok(v) => v,
        Err(_) => {
            return None;
        },
    };
    let scaled = match mult(&parsed) {
        Some(v) => v,
        None => {
            return None;
        },
    };
    let file = match mix(&scaled, 10) {
        Some(v) => v,
        None => {
            return None;
        },
    };
    coordinate_sum(&file)
}

/// Adds the values 1000, 2000 and 3000 places past the zero, circularly.
/// The grove-coordinate sum of a mixed file: the values 1000, 2000 and
/// 3000 places, circularly, after the first zero.  Nothing when the list
/// is empty, holds no zero, or a sum leaves the signed range.
fn coordinate_sum(file: &Vec<isize>) -> (r: Option<isize>)
    ensures
        match r {
            Some(v) => exists|z: int|
                {
                    let n = file@.len() as int;
                    &&& 0 <= z < n
                    &&& #[trigger] file@[z] == 0
                    &&& (forall|j: int| 0 <= j < z ==> file@[j] != 0)
                    &&& v == file@[(z + 1000) % n] + file@[(z + 2000) % n] + file@[(z + 3000) % n]
                },
            None => true,
        },
{
    let len = file.len();
    if len == 0 {
        return None;
    }
    let zero_index = match find(0, file) {
        Some(v) => v,
        None => {
            return None;
        },
    };
    let ia = match zero_index.checked_add(1000) {
        Some(v) => Some(v % len),
        None => None,
    };
    let ib = match zero_index.checked_add(2000) {
        Some(v) => Some(v % len),
        None => None,
    };
    let ic = match zero_index.checked_add(3000) {
        Some(v) => Some(v % len),
        None => None,
    };
    let (ia, ib, ic) = match (ia, ib, ic) {
        (Some(a), Some(b), Some(c)) => (a, b, c),
        _ => {
            return None;
        },
    };
    let ab = match file[ia].checked_add(file[ib]) {
        Some(v) => v,
        None => {
            return None;
        },
    };
    match ab.checked_add(file[ic]) {
        Some(v) => {
            proof {
                let n = file@.len() as int;
                let z = zero_index as int;
                assert(0 <= z < n && file@[z] == 0);
                assert(ia as int == (z + 1000) % n);
                assert(ib as int == (z + 2000) % n);
                assert(ic as int == (z + 3000) % n);
            }
            Some(v)
        },
        None => None,
    }
}

/// Mixes the file once by repeated neighbour swaps; kept for reference
/// beside the remove-and-insert mixing.
pub fn mix_old(input: &Vec<isize>) -> (r: Option<Vec<isize>>)
    ensures
        match r {
            Some(out) => out@.len() == input@.len(),
            None => true,
        },
{
    let len = input.len();
    if len < 2 {
        return None;
    }
    if len > isize::MAX as usize {
        return None;
    }
    let mut output: Vec<isize> = Vec::new();
    let mut order: Vec<isize> = Vec::new();
    for i in 0..len
        invariant
            len == input@.len(),
            output@.len() == i,
            order@.len() == i,
            len <= isize::MAX as usize,
    {
        output.push(input[i]);
        order.push(i as isize);
    }
    let ilen = (len - 1) as isize;
    for i in 0..len
        invariant
            len == input@.len(),
            2 <= len <= isize::MAX as usize,
            ilen == len - 1,
            output@.len() == len,
            order@.len() == len,
    {
        let mut index = match find(i as isize, &order) {
            Some(v) => v,
            None => {
                return None;
            },
        };
        let mut val = output[index];
        if val == isize::MIN {
            return None;
        }
        while val <= -ilen
            invariant
                2 <= len <= isize::MAX as usize,
                ilen == len - 1,
                isize::MIN < val,
            decreases -val,
        {
            val = val + ilen;
        }
        while val >= ilen
            invariant
                2 <= len <= isize::MAX as usize,
                ilen == len - 1,
                isize::MIN < val,
            decreases val,
        {
            val = val - ilen;
        }
        if val < 0 {
            let steps = -val;
            let mut s: isize = 0;
            while s < steps
                invariant
                    output@.len() == len,
                    order@.len() == len,
                    2 <= len,
                    index < len,
                decreases steps - s,
            {
                switch_down(index, &mut order);
                index = switch_down(index, &mut output);
                s = s + 1;
            }
        } else if val > 0 {
            let mut s: isize = 0;
            while s < val
                invariant
                    output@.len() == len,
                    order@.len() == len,
                    2 <= len,
                    index < len,
                decreases val - s,
            {
                switch_up(index, &mut order);
                index = switch_up(index, &mut output);
                s = s + 1;
            }
        }
    }
    Some(output)
}

} // verus!
