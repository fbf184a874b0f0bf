//! Start-of-marker detection in a datastream.
//!
//! The answer is the number of bytes consumed up to and including the first
//! window of a given length whose bytes are pairwise distinct.  A sliding
//! buffer holds the current window; when two bytes in it coincide, the
//! window can safely jump past the earlier of the two.

use crate::parse_utils::ByteIterator;
use crate::parse_utils::get_byte_iterator;
use vstd::prelude::*;
use vstd::string::StringSliceAdditionalSpecFns;

verus! {

/// All bytes of `s` with index in `[from, to)` are pairwise distinct.
pub open spec fn all_distinct(s: Seq<u8>, from: int, to: int) -> bool {
    forall|i: int, j: int| from <= i < j < to ==> s[i] != s[j]
}

/// Looks for two equal bytes in the buffer.  Yields the position just past
/// the later such pair's earlier member — the safe amount to slide by — or
/// nothing when all bytes are distinct.
fn any_same(buffer: &Vec<u8>) -> (r: Option<usize>)
    requires
        buffer@.len() >= 1,
    ensures
        match r {
            Some(k) => {
                &&& 1 <= k < buffer@.len()
                &&& exists|j: int| k <= j < buffer@.len() && buffer@[k - 1] == #[trigger] buffer@[j]
                &&& all_distinct(buffer@, k as int, buffer@.len() as int)
            },
            None => all_distinct(buffer@, 0, buffer@.len() as int),
        },
{
    let n = buffer.len();
    let mut ii: usize = n - 1;
    while ii > 0
        invariant
            n == buffer@.len(),
            1 <= n,
            ii <= n - 1,
            all_distinct(buffer@, ii as int, n as int),
        decreases ii,
    {
        let i = ii - 1;
        let mut jj: usize = n;
        while jj > i + 1
            invariant
                n == buffer@.len(),
                i + 1 <= jj <= n,
                i < n,
                all_distinct(buffer@, i + 1, n as int),
                forall|j2: int| jj <= j2 < n ==> buffer@[i as int] != #[trigger] buffer@[j2],
            decreases jj,
        {
            jj = jj - 1;
            if buffer[i] == buffer[jj] {
                return Some(i + 1);
            }
        }
        ii = i;
    }
    None
}

/// Slides the window `amount` bytes forward: keeps the buffer's tail and
/// pulls `amount` fresh bytes from the cursor.  Yields the raw index of the
/// last byte pulled, or nothing when the input ran out.
fn advance(it: &mut ByteIterator, buffer: &mut Vec<u8>, amount: usize) -> (r: Option<usize>)
    requires
        old(it).wf(),
        1 <= amount <= old(buffer)@.len(),
    ensures
        final(it).bytes() == old(it).bytes(),
        final(it).wf(),
        final(buffer)@.len() == old(buffer)@.len(),
        match r {
            Some(last) => {
                &&& old(it).pos() + amount <= old(it).bytes().len()
                &&& final(it).pos() == old(it).pos() + amount
                &&& last + 1 == final(it).pos()
                &&& forall|m: int|
                    0 <= m < old(buffer)@.len() - amount ==> #[trigger] final(buffer)@[m] == old(
                        buffer,
                    )@[m + amount]
                &&& forall|m: int|
                    old(buffer)@.len() - amount <= m < old(buffer)@.len()
                        ==> #[trigger] final(buffer)@[m] == old(it).bytes()[old(it).pos() + m - (old(
                        buffer,
                    )@.len() - amount)]
            },
            None => old(it).pos() + amount > old(it).bytes().len(),
        },
{
    let len = buffer.len();
    let keep = len - amount;
    for k in 0..keep
        invariant
            keep == len - amount,
            len == buffer@.len(),
            len == old(buffer)@.len(),
            amount >= 1,
            it == old(it),
            forall|m: int| 0 <= m < k ==> #[trigger] buffer@[m] == old(buffer)@[m + amount],
            forall|m: int| k <= m < len ==> #[trigger] buffer@[m] == old(buffer)@[m],
    {
        let v = buffer[k + amount];
        buffer.set(k, v);
    }
    let mut last_index: usize = 0;
    for k in keep..len
        invariant
            keep == len - amount,
            len == buffer@.len(),
            len == old(buffer)@.len(),
            amount >= 1,
            old(it).wf(),
            it.wf(),
            it.bytes() == old(it).bytes(),
            it.pos() == old(it).pos() + (k - keep),
            it.pos() <= it.bytes().len(),
            k > keep ==> last_index + 1 == it.pos(),
            forall|m: int| 0 <= m < keep ==> #[trigger] buffer@[m] == old(buffer)@[m + amount],
            forall|m: int|
                keep <= m < k ==> #[trigger] buffer@[m] == old(it).bytes()[old(it).pos() + m
                    - keep],
    {
        let (index, a) = match it.next() {
            Some(v) => v,
            None => {
                return None;
            },
        };
        last_index = index;
        buffer.set(k, a);
    }
    Some(last_index)
}

/// The number of bytes consumed up to and including the first window of
/// `length` pairwise-distinct bytes; nothing exactly when no such window
/// exists.  A returned count marks the least position closing a window of
/// distinct bytes.
pub fn solve(input: &str, length: usize) -> (r: Option<usize>)
    requires
        1 <= length,
    ensures
        match r {
            Some(v) => {
                &&& length <= v <= input.spec_bytes().len()
                &&& all_distinct(input.spec_bytes(), v - length, v as int)
                &&& forall|p: int|
                    length <= p < v ==> !#[trigger] all_distinct(input.spec_bytes(), p - length, p)
            },
            None => forall|p: int|
                length <= p <= input.spec_bytes().len() ==> !#[trigger] all_distinct(
                    input.spec_bytes(),
                    p - length,
                    p,
                ),
        },
{
    let ghost s = input.spec_bytes();
    let mut it = get_byte_iterator(input);
    let mut buffer: Vec<u8> = Vec::new();
    buffer.push(32);
    for k in 0..(length - 1)
        invariant
            1 <= length,
            k < length,
            s == input.spec_bytes(),
            it.wf(),
            it.bytes() == s,
            it.pos() == k,
            buffer@.len() == k + 1,
            forall|m: int| 1 <= m <= k ==> #[trigger] buffer@[m] == s[m - 1],
    {
        let a = match it.next() {
            Some(v) => v.1,
            None => {
                proof {
                    // The input is shorter than one window, so no window
                    // end exists at all.
                    assert(s.len() == k);
                    assert(s.len() < length);
                }
                return None;
            },
        };
        buffer.push(a);
    }
    let mut safe_jump: usize = 1;
    loop
        invariant
            s == input.spec_bytes(),
            1 <= length,
            it.wf(),
            it.bytes() == s,
            it.pos() >= length - 1,
            buffer@.len() == length,
            1 <= safe_jump <= length,
            forall|m: int|
                0 <= m < length && it.pos() - length + m >= 0 ==> #[trigger] buffer@[m] == s[it.pos()
                    - length + m],
            forall|e: int|
                length <= e < it.pos() + safe_jump ==> !#[trigger] all_distinct(s, e - length, e),
        decreases s.len() - it.pos(),
    {
        let ghost p0 = it.pos();
        let ghost jump0 = safe_jump as int;
        let index = match advance(&mut it, &mut buffer, safe_jump) {
            Some(v) => v,
            None => {
                proof {
                    // The input ran out before the next window: every
                    // window end fits under the exclusion bound.
                    assert(p0 + jump0 > s.len());
                }
                return None;
            },
        };
        match any_same(&buffer) {
            Some(val) => {
                proof {
                    let p = it.pos();
                    it.lemma_pos_bound();
                    // The duplicated pair rules out the current window and
                    // every window the jump skips: each of them still
                    // holds both members of the pair.
                    let j = choose|j: int|
                        val <= j < buffer@.len() && buffer@[val - 1] == #[trigger] buffer@[j];
                    let a = p - length + val - 1;
                    let b = p - length + j;
                    assert(buffer@[val - 1] == s[a]);
                    assert(buffer@[j] == s[b]);
                    assert forall|e: int|
                        length <= e < p + val implies !#[trigger] all_distinct(
                        s,
                        e - length,
                        e,
                    ) by {
                        if e >= p {
                            assert(e - length <= a < b < e);
                            assert(s[a] == s[b]);
                            assert(!all_distinct(s, e - length, e));
                        }
                    }
                }
                safe_jump = val;
            },
            None => {
                proof {
                    let p = it.pos();
                    it.lemma_pos_bound();
                    assert(index as int + 1 == p);
                    assert forall|i2: int, j2: int|
                        p - length <= i2 < j2 < p implies s[i2] != s[j2] by {
                        assert(buffer@[i2 - (p - length)] == s[i2]);
                        assert(buffer@[j2 - (p - length)] == s[j2]);
                    }
                }
                return Some(index + 1);
            },
        }
    }
}

/// The start-of-packet answer: the first window of four distinct bytes.
pub fn solvep1(input: &str) -> (r: Option<usize>)
    ensures
        match r {
            Some(v) => {
                &&& 4 <= v <= input.spec_bytes().len()
                &&& all_distinct(input.spec_bytes(), v - 4, v as int)
                &&& forall|p: int|
                    4 <= p < v ==> !#[trigger] all_distinct(input.spec_bytes(), p - 4, p)
            },
            None => forall|p: int|
                4 <= p <= input.spec_bytes().len() ==> !#[trigger] all_distinct(
                    input.spec_bytes(),
                    p - 4,
                    p,
                ),
        },
{
    solve(input, 4)
}

/// The start-of-message answer: the first window of fourteen distinct
/// bytes.
pub fn solvep2(input: &str) -> (r: Option<usize>)
    ensures
        match r {
            Some(v) => {
                &&& 14 <= v <= input.spec_bytes().len()
                &&& all_distinct(input.spec_bytes(), v - 14, v as int)
                &&& forall|p: int|
                    14 <= p < v ==> !#[trigger] all_distinct(input.spec_bytes(), p - 14, p)
            },
            None => forall|p: int|
                14 <= p <= input.spec_bytes().len() ==> !#[trigger] all_distinct(
                    input.spec_bytes(),
                    p - 14,
                    p,
                ),
        },
{
    solve(input, 14)
}

} // verus!
