//! Rucksack item priorities.
//!
//! Every line is a rucksack of item letters, split into two equal
//! compartments; the item common to both compartments scores its priority
//! (a..z score 1 to 26, A..Z score 27 to 52).  The second part finds the
//! badge item common to each group of three rucksacks.

use crate::parse_utils::spec_lines_from;
use crate::parse_utils::split_lines;
use vstd::prelude::*;
use vstd::string::StringSliceAdditionalSpecFns;

verus! {

/// The number of distinct item types.
pub const N_TYPES: usize = 52;

/// The ways reading or scoring rucksacks can fail: a line of odd length, a
/// byte that is no item letter, no item (or more than one) common to the
/// compartments of a rucksack or to a group, a group cut short, or an
/// overflowing total.
#[derive(Clone, Copy, Debug, PartialEq, Eq, Structural)]
pub enum RucksackError {
    OddLength,
    BadItem,
    NoCommon,
    MultipleCommon,
    BadGroup,
    Overflow,
}

/// Item counts per compartment: `comps[c][t]` holds how often item type
/// `t` occurs in compartment `c`.
#[derive(Clone, Copy, Debug)]
pub struct Rucksack {
    pub comps: [[usize; 52]; 2],
}

/// The item-type index of a letter: a..z map to 0..25, A..Z to 26..51;
/// anything else is no item.
pub open spec fn spec_index_of(b: u8) -> Option<int> {
    if 97 <= b <= 122 {
        Some((b - 97) as int)
    } else if 65 <= b <= 90 {
        Some(b - 65 + 26)
    } else {
        None
    }
}

/// How many bytes of `s[from..to]` have item-type index `t`.
pub open spec fn count_in(s: Seq<u8>, from: int, to: int, t: int) -> int
    decreases to - from,
{
    if to <= from {
        0
    } else {
        count_in(s, from, to - 1, t) + if spec_index_of(s[to - 1]) == Some(t) {
            1int
        } else {
            0int
        }
    }
}

/// A rucksack with both compartments empty.
pub fn empty_rucksack() -> (r: Rucksack)
    ensures
        forall|c: int, t: int| 0 <= c < 2 && 0 <= t < 52 ==> #[trigger] r.comps[c][t] == 0,
{
    Rucksack { comps: [[0; 52]; 2] }
}

/// Reads one line into per-compartment item counts: the first half of the
/// line is compartment 0, the second half compartment 1.  Fails on a line
/// of odd length or on a byte that is no item letter.
pub fn read_rucksack(line: &[u8]) -> (r: Result<Rucksack, RucksackError>)
    ensures
        match r {
            Ok(sack) => {
                &&& line@.len() % 2 == 0
                &&& forall|k: int|
                    0 <= k < line@.len() ==> spec_index_of(#[trigger] line@[k]) is Some
                &&& forall|t: int|
                    0 <= t < 52 ==> #[trigger] sack.comps[0][t] == count_in(
                        line@,
                        0,
                        line@.len() as int / 2,
                        t,
                    )
                &&& forall|t: int|
                    0 <= t < 52 ==> #[trigger] sack.comps[1][t] == count_in(
                        line@,
                        line@.len() as int / 2,
                        line@.len() as int,
                        t,
                    )
            },
            Err(RucksackError::OddLength) => line@.len() % 2 != 0,
            Err(RucksackError::BadItem) => exists|k: int|
                0 <= k < line@.len() && spec_index_of(#[trigger] line@[k]) is None,
            Err(_) => false,
        },
{
    let mut output = empty_rucksack();
    let n = line.len();
    if n % 2 != 0 {
        return Err(RucksackError::OddLength);
    }
    let comp_size = n / 2;
    for i in 0..n
        invariant
            n == line@.len(),
            n % 2 == 0,
            comp_size == n / 2,
            forall|c: int, t: int|
                0 <= c < 2 && 0 <= t < 52 ==> #[trigger] output.comps[c][t] <= i,
            forall|k: int| 0 <= k < i ==> spec_index_of(#[trigger] line@[k]) is Some,
            forall|t: int|
                0 <= t < 52 ==> #[trigger] output.comps[0][t] == count_in(
                    line@,
                    0,
                    if i <= comp_size {
                        i as int
                    } else {
                        comp_size as int
                    },
                    t,
                ),
            forall|t: int|
                0 <= t < 52 ==> #[trigger] output.comps[1][t] == count_in(
                    line@,
                    comp_size as int,
                    if i <= comp_size {
                        comp_size as int
                    } else {
                        i as int
                    },
                    t,
                ),
    {
        let c = line[i];
        let index: usize = if c >= 97 && c <= 122 {
            (c - 97) as usize
        } else if c >= 65 && c <= 90 {
            (c - 65 + 26) as usize
        } else {
            return Err(RucksackError::BadItem);
        };
        let cindex: usize = if i < comp_size {
            0
        } else {
            1
        };
        let mut row = output.comps[cindex];
        // A count is bounded by the number of bytes read, so it fits.
        proof {
            assert(row[index as int] <= i);
        }
        row[index] = row[index] + 1;
        output.comps[cindex] = row;
        proof {
            if i < comp_size {
                assert(count_in(line@, 0, i + 1, index as int) == count_in(
                    line@,
                    0,
                    i as int,
                    index as int,
                ) + 1);
            } else {
                assert(count_in(line@, comp_size as int, i + 1, index as int) == count_in(
                    line@,
                    comp_size as int,
                    i as int,
                    index as int,
                ) + 1);
            }
        }
    }
    Ok(output)
}

/// Is item type `t` present in both compartments of `line`?
pub open spec fn spec_common(line: Seq<u8>, t: int) -> bool {
    &&& count_in(line, 0, line.len() as int / 2, t) > 0
    &&& count_in(line, line.len() as int / 2, line.len() as int, t) > 0
}

/// What one rucksack line scores: the priority of the single item type
/// common to its halves; nothing when the line is malformed or the common
/// item is missing or ambiguous.
pub open spec fn spec_line_score(line: Seq<u8>) -> Option<int> {
    if line.len() % 2 == 0 && (forall|k: int|
        0 <= k < line.len() ==> spec_index_of(#[trigger] line[k]) is Some) && (exists|t: int|
        0 <= t < 52 && #[trigger] spec_common(line, t)) && (forall|t1: int, t2: int|
        0 <= t1 < 52 && 0 <= t2 < 52 && #[trigger] spec_common(line, t1) && #[trigger] spec_common(
            line,
            t2,
        ) ==> t1 == t2) {
        Some((choose|t: int| 0 <= t < 52 && #[trigger] spec_common(line, t)) + 1)
    } else {
        None
    }
}

/// The summed priorities of the non-empty lines from `k` on; nothing when
/// some line has no single common item.
pub open spec fn spec_p1_sum(lines: Seq<Seq<u8>>, k: int) -> Option<int>
    decreases lines.len() - k,
{
    if !(0 <= k < lines.len()) {
        Some(0)
    } else if lines[k].len() == 0 {
        spec_p1_sum(lines, k + 1)
    } else {
        match (spec_line_score(lines[k]), spec_p1_sum(lines, k + 1)) {
            (Some(v), Some(rest)) => Some(v + rest),
            _ => None,
        }
    }
}

/// The index of the first non-empty line at or after `k`, or past the end
/// when only empty lines remain.
pub open spec fn spec_next_nonempty(lines: Seq<Seq<u8>>, k: int) -> int
    decreases lines.len() - k,
{
    if !(0 <= k < lines.len()) {
        k
    } else if lines[k].len() > 0 {
        k
    } else {
        spec_next_nonempty(lines, k + 1)
    }
}

/// The first non-empty line never sits before where the search began.
pub proof fn lemma_next_nonempty_ge(lines: Seq<Seq<u8>>, k: int)
    ensures
        k <= spec_next_nonempty(lines, k),
    decreases lines.len() - k,
{
    if 0 <= k < lines.len() && lines[k].len() == 0 {
        lemma_next_nonempty_ge(lines, k + 1);
    }
}

/// The position found by skipping a run of empty lines is exactly the
/// first non-empty one.
pub proof fn lemma_next_nonempty_characterize(lines: Seq<Seq<u8>>, k: int, r: int)
    requires
        0 <= k <= r <= lines.len(),
        forall|m: int| k <= m < r ==> (#[trigger] lines[m]).len() == 0,
        r < lines.len() ==> lines[r].len() > 0,
    ensures
        spec_next_nonempty(lines, k) == r,
    decreases r - k,
{
    if k < r {
        lemma_next_nonempty_characterize(lines, k + 1, r);
    }
}

/// Does the line carry item type `t` in either compartment?
pub open spec fn spec_carries(line: Seq<u8>, t: int) -> bool {
    ||| count_in(line, 0, line.len() as int / 2, t) > 0
    ||| count_in(line, line.len() as int / 2, line.len() as int, t) > 0
}

/// Is the line a readable rucksack: even length and item letters only?
pub open spec fn spec_valid_line(line: Seq<u8>) -> bool {
    &&& line.len() % 2 == 0
    &&& forall|k: int| 0 <= k < line.len() ==> spec_index_of(#[trigger] line[k]) is Some
}

/// Do all three rucksacks of a group carry item type `t`?
pub open spec fn spec_group_common(l1: Seq<u8>, l2: Seq<u8>, l3: Seq<u8>, t: int) -> bool {
    spec_carries(l1, t) && spec_carries(l2, t) && spec_carries(l3, t)
}

/// The badge priority of a three-rucksack group: the single item type all
/// three carry; nothing when it is missing or ambiguous.
pub open spec fn spec_badge(l1: Seq<u8>, l2: Seq<u8>, l3: Seq<u8>) -> Option<int> {
    if (exists|t: int| 0 <= t < 52 && #[trigger] spec_group_common(l1, l2, l3, t)) && (forall|
        t1: int,
        t2: int,
    |
        0 <= t1 < 52 && 0 <= t2 < 52 && #[trigger] spec_group_common(l1, l2, l3, t1)
            && #[trigger] spec_group_common(l1, l2, l3, t2) ==> t1 == t2) {
        Some((choose|t: int| 0 <= t < 52 && #[trigger] spec_group_common(l1, l2, l3, t)) + 1)
    } else {
        None
    }
}

/// The summed badge priorities of the groups of three non-empty lines
/// from `k` on; nothing on a group cut short, an unreadable line, or a
/// missing or ambiguous badge.
pub open spec fn spec_p2_sum(lines: Seq<Seq<u8>>, k: int) -> Option<int>
    decreases lines.len() - k,
    via spec_p2_sum_decreases
{
    if k < 0 {
        None
    } else {
        let a = spec_next_nonempty(lines, k);
        if a >= lines.len() {
            Some(0)
        } else {
            let b = spec_next_nonempty(lines, a + 1);
            if b >= lines.len() {
                None
            } else {
                let c = spec_next_nonempty(lines, b + 1);
                if c >= lines.len() {
                    None
                } else if spec_valid_line(lines[a]) && spec_valid_line(lines[b])
                    && spec_valid_line(lines[c]) {
                    match (spec_badge(lines[a], lines[b], lines[c]), spec_p2_sum(lines, c + 1)) {
                        (Some(v), Some(rest)) => Some(v + rest),
                        _ => None,
                    }
                } else {
                    None
                }
            }
        }
    }
}

#[via_fn]
proof fn spec_p2_sum_decreases(lines: Seq<Seq<u8>>, k: int) {
    if k >= 0 {
        lemma_next_nonempty_ge(lines, k);
        let a = spec_next_nonempty(lines, k);
        if a < lines.len() {
            lemma_next_nonempty_ge(lines, a + 1);
            let b = spec_next_nonempty(lines, a + 1);
            if b < lines.len() {
                lemma_next_nonempty_ge(lines, b + 1);
            }
        }
    }
}

/// The single item type present in both compartments; fails when none or
/// more than one is.
pub fn find_common_val(r: &Rucksack) -> (res: Result<usize, RucksackError>)
    ensures
        match res {
            Ok(t) => {
                &&& 0 <= t < 52
                &&& r.comps[0][t as int] > 0 && r.comps[1][t as int] > 0
                &&& forall|t2: int|
                    0 <= t2 < 52 && t2 != t ==> !(#[trigger] r.comps[0][t2] > 0 && r.comps[1][t2]
                        > 0)
            },
            Err(RucksackError::NoCommon) => forall|t2: int|
                0 <= t2 < 52 ==> !(#[trigger] r.comps[0][t2] > 0 && r.comps[1][t2] > 0),
            Err(RucksackError::MultipleCommon) => exists|t1: int, t2: int|
                0 <= t1 < t2 < 52 && (#[trigger] r.comps[0][t1] > 0 && r.comps[1][t1] > 0) && (
                #[trigger] r.comps[0][t2] > 0 && r.comps[1][t2] > 0),
            Err(_) => false,
        },
{
    let mut item_num: usize = N_TYPES;
    for i in 0..N_TYPES
        invariant
            item_num == N_TYPES || (item_num < i && r.comps[0][item_num as int] > 0
                && r.comps[1][item_num as int] > 0),
            forall|t2: int|
                0 <= t2 < i && t2 != item_num ==> !(#[trigger] r.comps[0][t2] > 0
                    && r.comps[1][t2] > 0),
    {
        if r.comps[0][i] > 0 && r.comps[1][i] > 0 {
            if item_num != N_TYPES {
                proof {
                    assert(r.comps[0][item_num as int] > 0 && r.comps[1][item_num as int] > 0);
                    assert(r.comps[0][i as int] > 0 && r.comps[1][i as int] > 0);
                }
                return Err(RucksackError::MultipleCommon);
            }
            item_num = i;
        }
    }
    if item_num == N_TYPES {
        return Err(RucksackError::NoCommon);
    }
    Ok(item_num)
}

/// The index of the next non-empty line at or after `*pos`, advancing the
/// position past it; nothing when only empty lines remain.
pub fn get_next_non_empty_line(lines: &Vec<Vec<u8>>, pos: &mut usize) -> (r: Option<usize>)
    ensures
        *final(pos) <= lines@.len() || *final(pos) == *old(pos),
        match r {
            Some(ix) => {
                &&& *old(pos) <= ix < lines@.len()
                &&& *final(pos) == ix + 1
                &&& lines@[ix as int]@.len() > 0
                &&& forall|m: int| *old(pos) <= m < ix ==> (#[trigger] lines@[m])@.len() == 0
            },
            None => *final(pos) >= lines@.len() && forall|m: int|
                *old(pos) <= m < lines@.len() ==> (#[trigger] lines@[m])@.len() == 0,
        },
{
    let n = lines.len();
    loop
        invariant
            n == lines@.len(),
            *old(pos) <= *pos,
            *pos <= n || *pos == *old(pos),
            forall|m: int| *old(pos) <= m < *pos ==> (#[trigger] lines@[m])@.len() == 0,
        decreases n - *pos,
    {
        if *pos >= n {
            return None;
        }
        let ix = *pos;
        *pos = ix + 1;
        if lines[ix].len() > 0 {
            return Some(ix);
        }
    }
}

/// The priority of an item type: its index plus one.
pub fn priority_from_val(i: usize) -> (r: usize)
    requires
        i < usize::MAX,
    ensures
        r == i + 1,
{
    i + 1
}

/// Sums the priorities of each rucksack's common item: exactly what the
/// input's line scores add up to, failing exactly when some line has no
/// single common item or the total leaves the machine range.
pub fn solvep1(input: &str) -> (r: Result<usize, RucksackError>)
    ensures
        match r {
            Ok(total) => spec_p1_sum(spec_lines_from(input.spec_bytes(), 0), 0) == Some(
                total as int,
            ),
            Err(e) => e == RucksackError::Overflow || spec_p1_sum(
                spec_lines_from(input.spec_bytes(), 0),
                0,
            ) is None,
        },
{
    let ghost big_l = spec_lines_from(input.spec_bytes(), 0);
    let lines = split_lines(input);
    let mut result: usize = 0;
    let n = lines.len();
    for i in 0..n
        invariant
            n == lines@.len(),
            big_l == spec_lines_from(input.spec_bytes(), 0),
            big_l == lines@.map_values(|l: Vec<u8>| l@),
            match spec_p1_sum(big_l, i as int) {
                Some(rest) => spec_p1_sum(big_l, 0) == Some(result + rest),
                None => spec_p1_sum(big_l, 0) is None,
            },
    {
        let line = &lines[i];
        proof {
            assert(big_l[i as int] == line@);
        }
        if line.len() > 0 {
            let sack = match read_rucksack(line.as_slice()) {
                Ok(v) => v,
                Err(e) => {
                    proof {
                        assert(spec_line_score(line@) is None);
                    }
                    return Err(e);
                },
            };
            let c = match find_common_val(&sack) {
                Ok(v) => v,
                Err(e) => {
                    proof {
                        assert forall|t: int| 0 <= t < 52 implies (#[trigger] spec_common(
                            line@,
                            t,
                        )) == (sack.comps[0][t] > 0 && sack.comps[1][t] > 0) by {}
                        if e == RucksackError::MultipleCommon {
                            let (t1, t2) = choose|t1: int, t2: int|
                                0 <= t1 < t2 < 52 && (#[trigger] sack.comps[0][t1] > 0
                                    && sack.comps[1][t1] > 0) && (#[trigger] sack.comps[0][t2] > 0
                                    && sack.comps[1][t2] > 0);
                            assert(spec_common(line@, t1) && spec_common(line@, t2) && t1 != t2);
                        }
                        assert(spec_line_score(line@) is None);
                    }
                    return Err(e);
                },
            };
            proof {
                assert forall|t: int| 0 <= t < 52 implies (#[trigger] spec_common(line@, t)) == (
                sack.comps[0][t] > 0 && sack.comps[1][t] > 0) by {}
                assert(spec_common(line@, c as int));
                let t0 = choose|t: int| 0 <= t < 52 && #[trigger] spec_common(line@, t);
                assert(t0 == c);
                assert(spec_line_score(line@) == Some(c + 1int));
            }
            let p = priority_from_val(c);
            result = match result.checked_add(p) {
                Some(v) => v,
                None => {
                    return Err(RucksackError::Overflow);
                },
            };
        }
    }
    proof {
        assert(spec_p1_sum(big_l, n as int) == Some(0int));
    }
    Ok(result)
}

/// Does every rucksack of the group carry item type `t` somewhere?
pub open spec fn spec_group_at(r0: Rucksack, r1: Rucksack, r2: Rucksack, t: int) -> bool {
    &&& (r0.comps[0][t] > 0 || r0.comps[1][t] > 0)
    &&& (r1.comps[0][t] > 0 || r1.comps[1][t] > 0)
    &&& (r2.comps[0][t] > 0 || r2.comps[1][t] > 0)
}

/// The single item type carried by all three rucksacks of a group; fails
/// when none or more than one is.
fn find_group_common(r0: &Rucksack, r1: &Rucksack, r2: &Rucksack) -> (res: Result<
    usize,
    RucksackError,
>)
    ensures
        match res {
            Ok(t) => {
                &&& 0 <= t < 52
                &&& spec_group_at(*r0, *r1, *r2, t as int)
                &&& forall|t2: int|
                    0 <= t2 < 52 && t2 != t ==> !#[trigger] spec_group_at(*r0, *r1, *r2, t2)
            },
            Err(RucksackError::NoCommon) => forall|t2: int|
                0 <= t2 < 52 ==> !#[trigger] spec_group_at(*r0, *r1, *r2, t2),
            Err(RucksackError::MultipleCommon) => exists|t1: int, t2: int|
                0 <= t1 < t2 < 52 && #[trigger] spec_group_at(*r0, *r1, *r2, t1)
                    && #[trigger] spec_group_at(*r0, *r1, *r2, t2),
            Err(_) => false,
        },
{
    let mut item_num: usize = N_TYPES;
    for i in 0..N_TYPES
        invariant
            item_num == N_TYPES || (item_num < i && spec_group_at(*r0, *r1, *r2, item_num as int)),
            forall|t2: int|
                0 <= t2 < i && t2 != item_num ==> !#[trigger] spec_group_at(*r0, *r1, *r2, t2),
    {
        if (r0.comps[0][i] > 0 || r0.comps[1][i] > 0) && (r1.comps[0][i] > 0 || r1.comps[1][i] > 0)
            && (r2.comps[0][i] > 0 || r2.comps[1][i] > 0) {
            if item_num != N_TYPES {
                proof {
                    assert(spec_group_at(*r0, *r1, *r2, item_num as int));
                    assert(spec_group_at(*r0, *r1, *r2, i as int));
                }
                return Err(RucksackError::MultipleCommon);
            }
            item_num = i;
        } else {
            proof {
                assert(!spec_group_at(*r0, *r1, *r2, i as int));
            }
        }
    }
    if item_num == N_TYPES {
        return Err(RucksackError::NoCommon);
    }
    Ok(item_num)
}

/// Sums the badge priorities: for each group of three non-empty lines, the
/// one item type present in all three rucksacks.  The total is exactly
/// what the input's groups add up to; failure comes exactly from a group
/// cut short, an unreadable line, a missing or ambiguous badge, or an
/// overflowing total.
pub fn solvep2(input: &str) -> (r: Result<usize, RucksackError>)
    ensures
        match r {
            Ok(total) => spec_p2_sum(spec_lines_from(input.spec_bytes(), 0), 0) == Some(
                total as int,
            ),
            Err(e) => e == RucksackError::Overflow || spec_p2_sum(
                spec_lines_from(input.spec_bytes(), 0),
                0,
            ) is None,
        },
{
    let ghost big_l = spec_lines_from(input.spec_bytes(), 0);
    let lines = split_lines(input);
    let mut result: usize = 0;
    let mut pos: usize = 0;
    let n = lines.len();
    loop
        invariant
            n == lines@.len(),
            pos <= n,
            big_l == spec_lines_from(input.spec_bytes(), 0),
            big_l == lines@.map_values(|l: Vec<u8>| l@),
            match spec_p2_sum(big_l, pos as int) {
                Some(rest) => spec_p2_sum(big_l, 0) == Some(result + rest),
                None => spec_p2_sum(big_l, 0) is None,
            },
        decreases n - pos,
    {
        let ghost p0 = pos as int;
        let first = get_next_non_empty_line(&lines, &mut pos);
        let ix0 = match first {
            Some(ix) => ix,
            None => {
                proof {
                    lemma_next_nonempty_characterize(big_l, p0, n as int);
                }
                return Ok(result);
            },
        };
        proof {
            lemma_next_nonempty_characterize(big_l, p0, ix0 as int);
        }
        let ix1 = match get_next_non_empty_line(&lines, &mut pos) {
            Some(ix) => ix,
            None => {
                proof {
                    lemma_next_nonempty_characterize(big_l, ix0 + 1, n as int);
                }
                return Err(RucksackError::BadGroup);
            },
        };
        proof {
            lemma_next_nonempty_characterize(big_l, ix0 + 1, ix1 as int);
        }
        let ix2 = match get_next_non_empty_line(&lines, &mut pos) {
            Some(ix) => ix,
            None => {
                proof {
                    lemma_next_nonempty_characterize(big_l, ix1 + 1, n as int);
                }
                return Err(RucksackError::BadGroup);
            },
        };
        proof {
            lemma_next_nonempty_characterize(big_l, ix1 + 1, ix2 as int);
        }
        let r0 = match read_rucksack(lines[ix0].as_slice()) {
            Ok(v) => v,
            Err(e) => {
                proof {
                    assert(!spec_valid_line(big_l[ix0 as int]));
                }
                return Err(e);
            },
        };
        let r1 = match read_rucksack(lines[ix1].as_slice()) {
            Ok(v) => v,
            Err(e) => {
                proof {
                    assert(!spec_valid_line(big_l[ix1 as int]));
                }
                return Err(e);
            },
        };
        let r2 = match read_rucksack(lines[ix2].as_slice()) {
            Ok(v) => v,
            Err(e) => {
                proof {
                    assert(!spec_valid_line(big_l[ix2 as int]));
                }
                return Err(e);
            },
        };
        proof {
            assert forall|t: int| 0 <= t < 52 implies (#[trigger] spec_group_common(
                big_l[ix0 as int],
                big_l[ix1 as int],
                big_l[ix2 as int],
                t,
            )) == spec_group_at(r0, r1, r2, t) by {}
        }
        let item_num = match find_group_common(&r0, &r1, &r2) {
            Ok(v) => v,
            Err(e) => {
                proof {
                    if e == RucksackError::MultipleCommon {
                        let (t1, t2) = choose|t1: int, t2: int|
                            0 <= t1 < t2 < 52 && #[trigger] spec_group_at(r0, r1, r2, t1)
                                && #[trigger] spec_group_at(r0, r1, r2, t2);
                        assert(spec_group_common(
                            big_l[ix0 as int],
                            big_l[ix1 as int],
                            big_l[ix2 as int],
                            t1,
                        ) && spec_group_common(
                            big_l[ix0 as int],
                            big_l[ix1 as int],
                            big_l[ix2 as int],
                            t2,
                        ));
                    }
                    assert(spec_badge(big_l[ix0 as int], big_l[ix1 as int], big_l[ix2 as int])
                        is None);
                }
                return Err(e);
            },
        };
        proof {
            assert(spec_group_common(
                big_l[ix0 as int],
                big_l[ix1 as int],
                big_l[ix2 as int],
                item_num as int,
            ));
            let t0 = choose|t: int|
                0 <= t < 52 && #[trigger] spec_group_common(
                    big_l[ix0 as int],
                    big_l[ix1 as int],
                    big_l[ix2 as int],
                    t,
                );
            assert(t0 == item_num);
            assert(spec_badge(big_l[ix0 as int], big_l[ix1 as int], big_l[ix2 as int]) == Some(
                item_num + 1int,
            ));
        }
        let p = priority_from_val(item_num);
        result = match result.checked_add(p) {
            Some(v) => v,
            None => {
                return Err(RucksackError::Overflow);
            },
        };
    }
}

} // verus!