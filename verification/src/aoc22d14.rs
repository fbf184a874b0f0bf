//! Falling sand in a cave of rock lines.
//!
//! The cave walls are polylines of rock; sand grains drop from a fixed
//! spout, sliding down, down-left or down-right until they settle or fall
//! out of the world.  The answers count the grains that settle, without
//! and with a floor below the lowest rock.

use crate::arr2d::Array2d;
use crate::parse_utils::ByteIterator;
use crate::parse_utils::ParseError;
use crate::parse_utils::consume_sequence;
use crate::parse_utils::parse_number;
use crate::parse_utils::split_lines;
use vstd::prelude::*;

verus! {

/// Reads an `i,j` coordinate pair at the cursor.
fn parse_coord(it: &mut ByteIterator) -> (r: Result<(isize, isize), ParseError>)
    requires
        old(it).wf(),
    ensures
        final(it).wf(),
        final(it).bytes() == old(it).bytes(),
        old(it).pos() <= final(it).pos(),
        r is Ok ==> old(it).pos() < final(it).pos(),
{
    let i = match parse_number(it) {
        Ok(v) => v,
        Err(e) => {
            return Err(e);
        },
    };
    match consume_sequence(it, &[44u8]) {
        Ok(true) => {},
        Ok(false) => {
            return Err(ParseError::UnexpectedByte);
        },
        Err(e) => {
            return Err(e);
        },
    }
    let j = match parse_number(it) {
        Ok(v) => v,
        Err(e) => {
            return Err(e);
        },
    };
    Ok((i, j))
}

/// Reads one rock line: coordinates joined by arrows.
fn parse_line(line: &[u8]) -> (r: Result<Vec<(isize, isize)>, ParseError>) {
    let mut output: Vec<(isize, isize)> = Vec::new();
    let mut it = ByteIterator::new(line);
    let first = match parse_coord(&mut it) {
        Ok(v) => v,
        Err(e) => {
            return Err(e);
        },
    };
    output.push(first);
    loop
        invariant
            it.wf(),
        decreases it.bytes().len() - it.pos(),
    {
        match consume_sequence(&mut it, &[32u8, 45u8, 62u8, 32u8]) {
            Ok(true) => {},
            Ok(false) => {
                return Ok(output);
            },
            Err(e) => {
                return Err(e);
            },
        }
        let c = match parse_coord(&mut it) {
            Ok(v) => v,
            Err(e) => {
                return Err(e);
            },
        };
        output.push(c);
    }
}

/// Reads the whole scan: one rock line per non-blank input line.
pub fn parse(source: &str) -> (r: Result<Vec<Vec<(isize, isize)>>, ParseError>) {
    let mut output: Vec<Vec<(isize, isize)>> = Vec::new();
    let lines = split_lines(source);
    let n = lines.len();
    for li in 0..n
        invariant
            n == lines@.len(),
    {
        let line = &lines[li];
        let mut blank = true;
        let m = line.len();
        for p in 0..m
            invariant
                m == line@.len(),
        {
            let b = line[p];
            if b != 32 && b != 9 && b != 13 {
                blank = false;
            }
        }
        if !blank {
            let parsed = match parse_line(line.as_slice()) {
                Ok(v) => v,
                Err(e) => {
                    return Err(e);
                },
            };
            output.push(parsed);
        }
    }
    Ok(output)
}

/// The componentwise maximum of two coordinates.
fn max_coord(a: (isize, isize), b: &(isize, isize)) -> (r: (isize, isize))
    ensures
        r.0 == if a.0 >= b.0 {
            a.0
        } else {
            b.0
        },
        r.1 == if a.1 >= b.1 {
            a.1
        } else {
            b.1
        },
{
    let x = if a.0 >= b.0 {
        a.0
    } else {
        b.0
    };
    let y = if a.1 >= b.1 {
        a.1
    } else {
        b.1
    };
    (x, y)
}

/// The unit step from `current` towards `target`.
fn get_direction(current: isize, target: isize) -> (r: isize)
    ensures
        current < target ==> r == 1,
        current > target ==> r == -1,
        current == target ==> r == 0,
{
    if current < target {
        1
    } else if current > target {
        -1
    } else {
        0
    }
}

/// Fills the world cells along a rock line.  Nothing on a line that is
/// empty, runs diagonally, or leaves the world.
fn apply_line(line: &Vec<(isize, isize)>, world: &mut Array2d<bool>) -> (r: Option<()>)
    requires
        old(world).wf(),
    ensures
        final(world).wf(),
        final(world).dim_i() == old(world).dim_i(),
        final(world).dim_j() == old(world).dim_j(),
{
    if line.len() == 0 {
        return None;
    }
    let (mut i, mut j) = line[0];
    match world.get_mut((i, j), true) {
        Ok(_) => {},
        Err(_) => {
            return None;
        },
    }
    let n = line.len();
    for seg in 1..n
        invariant
            n == line@.len(),
            world.wf(),
            world.dim_i() == old(world).dim_i(),
            world.dim_j() == old(world).dim_j(),
    {
        let (ti, tj) = line[seg];
        let di = get_direction(i, ti);
        let dj = get_direction(j, tj);
        if di != 0 && dj != 0 {
            return None;
        }
        while i != ti || j != tj
            invariant
                world.wf(),
                world.dim_i() == old(world).dim_i(),
                world.dim_j() == old(world).dim_j(),
                di == 0 || di == 1 || di == -1,
                dj == 0 || dj == 1 || dj == -1,
                di == 0 || dj == 0,
                di == 0 ==> i == ti,
                dj == 0 ==> j == tj,
                di == 1 ==> i <= ti,
                di == -1 ==> i >= ti,
                dj == 1 ==> j <= tj,
                dj == -1 ==> j >= tj,
            decreases (if i <= ti {
                ti - i
            } else {
                i - ti
            }) + (if j <= tj {
                tj - j
            } else {
                j - tj
            }),
        {
            i = i + di;
            j = j + dj;
            match world.get_mut((i, j), true) {
                Ok(_) => {},
                Err(_) => {
                    return None;
                },
            }
        }
    }
    Some(())
}

/// Drops one grain from `start`.  Yields true when it settles (marking its
/// cell), false when it falls out of the world; nothing only when the walk
/// cannot make progress within the coordinate range.
fn drop_sand(start: (isize, isize), world: &mut Array2d<bool>) -> (r: Option<bool>)
    requires
        old(world).wf(),
        isize::MIN < start.0,
        start.1 < isize::MAX,
    ensures
        final(world).wf(),
        final(world).dim_i() == old(world).dim_i(),
        final(world).dim_j() == old(world).dim_j(),
{
    let (mut i, mut j) = start;
    let (sz_i, sz_j) = world.size_i();
    loop
        invariant
            world.wf(),
            world.dim_i() == old(world).dim_i(),
            world.dim_j() == old(world).dim_j(),
            sz_i == world.dim_i(),
            sz_j == world.dim_j(),
            isize::MIN < i,
            j < isize::MAX,
        decreases sz_j - j,
    {
        let pj = j + 1;
        let pi = i;
        if pi < 0 || pi >= sz_i || pj < 0 || pj >= sz_j {
            return Some(false);
        }
        let blocked = match world.get((pi, pj)) {
            Ok(v) => *v,
            Err(_) => {
                return None;
            },
        };
        if !blocked {
            i = pi;
            j = pj;
            continue ;
        }
        let pi = i - 1;
        if pi < 0 || pi >= sz_i || pj < 0 || pj >= sz_j {
            return Some(false);
        }
        let blocked = match world.get((pi, pj)) {
            Ok(v) => *v,
            Err(_) => {
                return None;
            },
        };
        if !blocked {
            i = pi;
            j = pj;
            continue ;
        }
        let pi = i + 1;
        if pi >= sz_i || pi < 0 || pj < 0 || pj >= sz_j {
            return Some(false);
        }
        let blocked = match world.get((pi, pj)) {
            Ok(v) => *v,
            Err(_) => {
                return None;
            },
        };
        if !blocked {
            i = pi;
            j = pj;
            continue ;
        }
        match world.get_mut((i, j), true) {
            Ok(_) => {},
            Err(_) => {
                return None;
            },
        }
        return Some(true);
    }
}

/// Counts the grains that settle before one falls out of the world.
pub fn solve(input: &str) -> (r: Option<usize>) {
    let lines = match parse(input) {
        Ok(v) => v,
        Err(_) => {
            return None;
        },
    };
    let (max_i, max_j) = fold_max(&lines);
    let wi = match max_i.checked_add(1) {
        Some(v) => v,
        None => {
            return None;
        },
    };
    let wj = match max_j.checked_add(1) {
        Some(v) => v,
        None => {
            return None;
        },
    };
    let mut world = match Array2d::new(false, wi, wj) {
        Ok(v) => v,
        Err(_) => {
            return None;
        },
    };
    let n = lines.len();
    for li in 0..n
        invariant
            n == lines@.len(),
            world.wf(),
    {
        if apply_line(&lines[li], &mut world).is_none() {
            return None;
        }
    }
    let mut count: usize = 0;
    let mut budget: usize = usize::MAX;
    loop
        invariant
            world.wf(),
        decreases budget,
    {
        if budget == 0 {
            return None;
        }
        budget = budget - 1;
        match drop_sand((500, 0), &mut world) {
            Some(true) => {
                count = match count.checked_add(1) {
                    Some(v) => v,
                    None => {
                        return None;
                    },
                };
            },
            Some(false) => {
                return Some(count);
            },
            None => {
                return None;
            },
        }
    }
}

/// Drops one grain with a floor in mind: moves blocked by the world's edge
/// are simply impossible, and a grain settles where it stands; a grain
/// whose starting cell is already filled reports false.
fn drop_sand_p2(start: (isize, isize), world: &mut Array2d<bool>) -> (r: Option<bool>)
    requires
        old(world).wf(),
        isize::MIN < start.0 < isize::MAX,
        start.1 < isize::MAX,
    ensures
        final(world).wf(),
        final(world).dim_i() == old(world).dim_i(),
        final(world).dim_j() == old(world).dim_j(),
{
    let (mut i, mut j) = start;
    let (sz_i, sz_j) = world.size_i();
    let filled = match world.get((i, j)) {
        Ok(v) => *v,
        Err(_) => {
            return None;
        },
    };
    if filled {
        return Some(false);
    }
    loop
        invariant
            world.wf(),
            world.dim_i() == old(world).dim_i(),
            world.dim_j() == old(world).dim_j(),
            sz_i == world.dim_i(),
            sz_j == world.dim_j(),
            isize::MIN < i < isize::MAX,
            j < isize::MAX,
        decreases sz_j - j,
    {
        let pj = j + 1;
        let pi = i;
        if !(pi < 0 || pi >= sz_i || pj < 0 || pj >= sz_j) {
            let blocked = match world.get((pi, pj)) {
                Ok(v) => *v,
                Err(_) => {
                    return None;
                },
            };
            if !blocked {
                i = pi;
                j = pj;
                continue ;
            }
        }
        let pi = i - 1;
        if !(pi < 0 || pi >= sz_i || pj < 0 || pj >= sz_j) {
            let blocked = match world.get((pi, pj)) {
                Ok(v) => *v,
                Err(_) => {
                    return None;
                },
            };
            if !blocked {
                i = pi;
                j = pj;
                continue ;
            }
        }
        let pi = i + 1;
        if !(pi >= sz_i || pi < 0 || pj < 0 || pj >= sz_j) {
            let blocked = match world.get((pi, pj)) {
                Ok(v) => *v,
                Err(_) => {
                    return None;
                },
            };
            if !blocked {
                i = pi;
                j = pj;
                continue ;
            }
        }
        match world.get_mut((i, j), true) {
            Ok(_) => {},
            Err(_) => {
                return None;
            },
        }
        return Some(true);
    }
}

/// Counts the grains that settle with a floor two below the lowest rock,
/// until the spout itself is covered.
pub fn solve_p2(input: &str) -> (r: Option<usize>) {
    let lines = match parse(input) {
        Ok(v) => v,
        Err(_) => {
            return None;
        },
    };
    let (max_i, max_j) = fold_max(&lines);
    let wi0 = match max_i.checked_add(1) {
        Some(v) => v,
        None => {
            return None;
        },
    };
    let wi = match wi0.checked_add(max_j) {
        Some(v) => v,
        None => {
            return None;
        },
    };
    let wj = match max_j.checked_add(2) {
        Some(v) => v,
        None => {
            return None;
        },
    };
    let mut world = match Array2d::new(false, wi, wj) {
        Ok(v) => v,
        Err(_) => {
            return None;
        },
    };
    let n = lines.len();
    for li in 0..n
        invariant
            n == lines@.len(),
            world.wf(),
    {
        if apply_line(&lines[li], &mut world).is_none() {
            return None;
        }
    }
    let mut count: usize = 0;
    let mut budget: usize = usize::MAX;
    loop
        invariant
            world.wf(),
        decreases budget,
    {
        if budget == 0 {
            return None;
        }
        budget = budget - 1;
        match drop_sand_p2((500, 0), &mut world) {
            Some(true) => {
                count = match count.checked_add(1) {
                    Some(v) => v,
                    None => {
                        return None;
                    },
                };
            },
            Some(false) => {
                return Some(count);
            },
            None => {
                return None;
            },
        }
    }
}

/// The componentwise maximum over all coordinates of all lines, from
/// `(0, 0)`.
fn fold_max(lines: &Vec<Vec<(isize, isize)>>) -> (r: (isize, isize))
    ensures
        r.0 >= 0,
        r.1 >= 0,
{
    let mut acc: (isize, isize) = (0, 0);
    let n = lines.len();
    for li in 0..n
        invariant
            n == lines@.len(),
            acc.0 >= 0,
            acc.1 >= 0,
    {
        let line = &lines[li];
        let m = line.len();
        for ci in 0..m
            invariant
                m == line@.len(),
                acc.0 >= 0,
                acc.1 >= 0,
        {
            acc = max_coord(acc, &line[ci]);
        }
    }
    acc
}

} // verus!
