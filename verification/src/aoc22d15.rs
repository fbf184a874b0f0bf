//! Beacon exclusion zones.
//!
//! Every sensor reports its closest beacon; within that taxicab distance
//! no other beacon can sit.  One answer counts the excluded cells of one
//! row; the other finds the single cell in a bounded square that no
//! sensor excludes.

use crate::parse_utils::ByteIterator;
use crate::parse_utils::ParseError;
use crate::parse_utils::consume_sequence;
use crate::parse_utils::parse_number;
use crate::parse_utils::split_lines;
use vstd::prelude::*;

verus! {

/// One sensor reading: the sensor and its closest beacon.
#[derive(Clone, Copy, Debug)]
pub struct Sample {
    pub sensor: (isize, isize),
    pub beacon: (isize, isize),
}

/// Adds the inclusive interval `[start, end]` to a set of integers kept as
/// sorted, pairwise disconnected inclusive intervals, merging where they
/// touch.  Nothing on an empty input interval or an interval at the edge
/// of the coordinate range.
fn add_interval(start: isize, end: isize, set: &mut Vec<(isize, isize)>) -> (r: Option<()>) {
    if start > end {
        return None;
    }
    if end == isize::MAX {
        return None;
    }
    let n = set.len();
    for i in 0..n
        invariant
            n == set@.len(),
            set@.len() == old(set)@.len(),
            end < isize::MAX,
    {
        let (is_, ie) = set[i];
        if ie == isize::MAX {
            return None;
        }
        if ie + 1 < start {
            // Input interval is wholly ahead of this one.
        } else if end + 1 < is_ {
            // Input interval sits wholly before this one.
            set.insert(i, (start, end));
            return Some(());
        } else {
            // Overlap with interval i; find the last interval j that the
            // input still touches.
            let mut j = i;
            while j + 1 < set.len()
                invariant
                    i <= j < set@.len(),
                    set@.len() == n,
                    end < isize::MAX,
                decreases set@.len() - j,
            {
                let (jp1s, _) = set[j + 1];
                if end + 1 < jp1s {
                    break ;
                }
                j = j + 1;
            }
            let (_, je) = set[j];
            let new_start = if is_ <= start {
                is_
            } else {
                start
            };
            let new_end = if je >= end {
                je
            } else {
                end
            };
            set.set(i, (new_start, new_end));
            let mut k = j;
            while k > i
                invariant
                    i <= k,
                    k < set@.len(),
                decreases k,
            {
                set.remove(i + 1);
                k = k - 1;
            }
            return Some(());
        }
    }
    set.push((start, end));
    Some(())
}

/// Reads all sensor reports, one per non-empty line.
fn parse(source: &str) -> (r: Result<Vec<Sample>, ParseError>) {
    let mut output: Vec<Sample> = Vec::new();
    let lines = split_lines(source);
    let n = lines.len();
    for li in 0..n
        invariant
            n == lines@.len(),
    {
        let line = &lines[li];
        if line.len() > 0 {
            let mut it = ByteIterator::new(line.as_slice());
            // "Sensor at x="
            match consume_sequence(
                &mut it,
                &[83u8, 101, 110, 115, 111, 114, 32, 97, 116, 32, 120, 61],
            ) {
                Ok(true) => {},
                Ok(false) => {
                    return Err(ParseError::UnexpectedByte);
                },
                Err(e) => {
                    return Err(e);
                },
            }
            let sx = match parse_number(&mut it) {
                Ok(v) => v,
                Err(e) => {
                    return Err(e);
                },
            };
            // ", y="
            match consume_sequence(&mut it, &[44u8, 32, 121, 61]) {
                Ok(true) => {},
                Ok(false) => {
                    return Err(ParseError::UnexpectedByte);
                },
                Err(e) => {
                    return Err(e);
                },
            }
            let sy = match parse_number(&mut it) {
                Ok(v) => v,
                Err(e) => {
                    return Err(e);
                },
            };
            // ": closest beacon is at x="
            match consume_sequence(
                &mut it,
                &[
                    58u8,
                    32,
                    99,
                    108,
                    111,
                    115,
                    101,
                    115,
                    116,
                    32,
                    98,
                    101,
                    97,
                    99,
                    111,
                    110,
                    32,
                    105,
                    115,
                    32,
                    97,
                    116,
                    32,
                    120,
                    61,
                ],
            ) {
                Ok(true) => {},
                Ok(false) => {
                    return Err(ParseError::UnexpectedByte);
                },
                Err(e) => {
                    return Err(e);
                },
            }
            let bx = match parse_number(&mut it) {
                Ok(v) => v,
                Err(e) => {
                    return Err(e);
                },
            };
            // ", y="
            match consume_sequence(&mut it, &[44u8, 32, 121, 61]) {
                Ok(true) => {},
                Ok(false) => {
                    return Err(ParseError::UnexpectedByte);
                },
                Err(e) => {
                    return Err(e);
                },
            }
            let by = match parse_number(&mut it) {
                Ok(v) => v,
                Err(e) => {
                    return Err(e);
                },
            };
            match it.peek() {
                Some(_) => {
                    return Err(ParseError::UnexpectedByte);
                },
                None => {},
            }
            output.push(Sample { sensor: (sx, sy), beacon: (bx, by) });
        }
    }
    Ok(output)
}

/// The difference `a - b` made non-negative, or nothing when it cannot be
/// represented.
fn abs_diff(a: isize, b: isize) -> (r: Option<isize>)
    ensures
        match r {
            Some(v) => v == if a >= b {
                a - b
            } else {
                b - a
            },
            None => true,
        },
{
    let d = match a.checked_sub(b) {
        Some(v) => v,
        None => {
            return None;
        },
    };
    if d >= 0 {
        Some(d)
    } else {
        if d == isize::MIN {
            return None;
        }
        Some(-d)
    }
}

/// Marks in the set the cells of `row` that the sample's sensor excludes.
fn add_sample(row: isize, sample: &Sample, set: &mut Vec<(isize, isize)>) -> (r: Option<()>) {
    let (sx, sy) = sample.sensor;
    let (bx, by) = sample.beacon;
    let dx = match abs_diff(sx, bx) {
        Some(v) => v,
        None => {
            return None;
        },
    };
    let dy = match abs_diff(sy, by) {
        Some(v) => v,
        None => {
            return None;
        },
    };
    let exclusion_distance = match dx.checked_add(dy) {
        Some(v) => v,
        None => {
            return None;
        },
    };
    let sensor_distance_to_row = match abs_diff(row, sy) {
        Some(v) => v,
        None => {
            return None;
        },
    };
    let remaining_steps = exclusion_distance - sensor_distance_to_row;
    if remaining_steps >= 0 {
        let lo = match sx.checked_sub(remaining_steps) {
            Some(v) => v,
            None => {
                return None;
            },
        };
        let hi = match sx.checked_add(remaining_steps) {
            Some(v) => v,
            None => {
                return None;
            },
        };
        return add_interval(lo, hi, set);
    }
    Some(())
}

/// Counts the cells of `row` where no missing beacon can be, leaving out
/// the cells holding a known beacon.
pub fn solve(input: &str, row: isize) -> (r: Option<isize>) {
    let samples = match parse(input) {
        Ok(v) => v,
        Err(_) => {
            return None;
        },
    };
    let mut blocked_values: Vec<(isize, isize)> = Vec::new();
    let ns = samples.len();
    for si in 0..ns
        invariant
            ns == samples@.len(),
    {
        if add_sample(row, &samples[si], &mut blocked_values).is_none() {
            return None;
        }
    }
    let mut beacons: Vec<isize> = Vec::new();
    for si in 0..ns
        invariant
            ns == samples@.len(),
    {
        let (bx, by) = samples[si].beacon;
        if by == row {
            let mut seen = false;
            let nb = beacons.len();
            for bi in 0..nb
                invariant
                    nb == beacons@.len(),
            {
                if beacons[bi] == bx {
                    seen = true;
                }
            }
            if !seen {
                beacons.push(bx);
            }
        }
    }
    let mut size: isize = 0;
    let nv = blocked_values.len();
    for vi in 0..nv
        invariant
            nv == blocked_values@.len(),
    {
        let (s, e) = blocked_values[vi];
        let width = match e.checked_sub(s) {
            Some(v) => v,
            None => {
                return None;
            },
        };
        let width = match width.checked_add(1) {
            Some(v) => v,
            None => {
                return None;
            },
        };
        size = match size.checked_add(width) {
            Some(v) => v,
            None => {
                return None;
            },
        };
        let nb = beacons.len();
        for bi in 0..nb
            invariant
                nb == beacons@.len(),
                nv == blocked_values@.len(),
        {
            let x = beacons[bi];
            if s <= x && x <= e {
                size = match size.checked_sub(1) {
                    Some(v) => v,
                    None => {
                        return None;
                    },
                };
            }
        }
    }
    Some(size)
}

/// The tuning frequency of the one cell in the bounded square that no
/// sensor excludes.  Nothing when none or more than one is found, or on
/// overflow.
pub fn solve_p2(input: &str, max_val: isize) -> (r: Option<isize>) {
    let samples = match parse(input) {
        Ok(v) => v,
        Err(_) => {
            return None;
        },
    };
    let mut blocked_values: Vec<(isize, isize)> = Vec::new();
    let mut output: Option<(isize, isize)> = None;
    let mut row: isize = 0;
    while row < max_val
        invariant
            samples@.len() == samples@.len(),
        decreases max_val - row,
    {
        blocked_values.clear();
        let ns = samples.len();
        for si in 0..ns
            invariant
                ns == samples@.len(),
        {
            if add_sample(row, &samples[si], &mut blocked_values).is_none() {
                return None;
            }
        }
        let nv = blocked_values.len();
        for vi in 0..nv
            invariant
                nv == blocked_values@.len(),
        {
            let (s, e) = blocked_values[vi];
            if e < 0 || s > max_val {
                // Interval entirely outside the square.
            } else if e < max_val {
                if !output.is_none() {
                    return None;
                }
                output = Some((e + 1, row));
            }
        }
        row = row + 1;
    }
    match output {
        Some((x, y)) => {
            let scaled = match x.checked_mul(4000000) {
                Some(v) => v,
                None => {
                    return None;
                },
            };
            match y.checked_add(scaled) {
                Some(v) => Some(v),
                None => None,
            }
        },
        None => None,
    }
}

} // verus!
