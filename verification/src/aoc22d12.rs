//! Shortest hike up a height map.
//!
//! The map is a grid of letter heights with a start and a summit; a step
//! may climb at most one unit.  A pruned depth-first search keeps a map of
//! best known distances; the second part walks downhill from the summit to
//! the nearest lowest cell.

use crate::arr2d::Array2d;
use crate::parse_utils::split_lines;
use vstd::prelude::*;

verus! {

/// The height of the summit letter.
pub const Z_VAL: i16 = 25;

/// The marker value of the start cell before it is levelled.
pub const S_VAL: i16 = -14;

/// The marker value of the summit cell before it is levelled.
pub const E_VAL: i16 = -28;

/// Reads the height grid: one row per non-empty line, each byte shifted so
/// the lowest letter is zero.
fn parse(source: &str) -> (r: Option<Array2d<i16>>)
    ensures
        r matches Some(h) ==> h.wf(),
{
    let mut height: Array2d<i16> = Array2d::new_empty();
    let lines = split_lines(source);
    let n = lines.len();
    for li in 0..n
        invariant
            n == lines@.len(),
            height.wf(),
    {
        let line = &lines[li];
        if line.len() > 0 {
            let mut row: Vec<i16> = Vec::new();
            let m = line.len();
            for p in 0..m
                invariant
                    m == line@.len(),
            {
                row.push((line[p] as i16) - 97);
            }
            match height.add_row(&row) {
                Ok(_) => {},
                Err(_) => {
                    return None;
                },
            }
        }
    }
    Some(height)
}

/// Finds the start and summit markers, levelling them to their real
/// heights.  Nothing when either is missing or doubled.
fn find_start_end(height: &mut Array2d<i16>) -> (r: Option<((isize, isize), (isize, isize))>)
    requires
        old(height).wf(),
    ensures
        final(height).wf(),
        final(height).dim_i() == old(height).dim_i(),
        final(height).dim_j() == old(height).dim_j(),
{
    let mut start: Option<(isize, isize)> = None;
    let mut end: Option<(isize, isize)> = None;
    let (sz_i, sz_j) = height.size_i();
    let mut i: isize = 0;
    while i < sz_i
        invariant
            height.wf(),
            height.dim_i() == old(height).dim_i(),
            height.dim_j() == old(height).dim_j(),
            sz_i == height.dim_i(),
            sz_j == height.dim_j(),
            0 <= i,
        decreases sz_i - i,
    {
        let mut j: isize = 0;
        while j < sz_j
            invariant
                height.wf(),
                height.dim_i() == old(height).dim_i(),
                height.dim_j() == old(height).dim_j(),
                sz_i == height.dim_i(),
                sz_j == height.dim_j(),
                0 <= i < sz_i,
                0 <= j,
            decreases sz_j - j,
        {
            let h = match height.get((i, j)) {
                Ok(v) => *v,
                Err(_) => {
                    return None;
                },
            };
            if h == S_VAL {
                if height.get_mut((i, j), 0).is_err() {
                    return None;
                }
                if start.is_none() {
                    start = Some((i, j));
                } else {
                    return None;
                }
            } else if h == E_VAL {
                if height.get_mut((i, j), Z_VAL).is_err() {
                    return None;
                }
                if end.is_none() {
                    end = Some((i, j));
                } else {
                    return None;
                }
            }
            j = j + 1;
        }
        i = i + 1;
    }
    match (start, end) {
        (Some(s), Some(e)) => Some((s, e)),
        _ => None,
    }
}

/// One of the four cardinal direction offsets.
fn direction(k: usize) -> (r: (isize, isize))
    requires
        k < 4,
    ensures
        -1 <= r.0 <= 1 && -1 <= r.1 <= 1,
{
    match k {
        0 => (-1, 0),
        1 => (0, 1),
        2 => (1, 0),
        _ => (0, -1),
    }
}

/// Depth-first search for the summit: given the current cell is reachable
/// in `dist` steps, explores the four neighbours that climb at most one
/// unit, pruning walks no shorter than the best known and routes beaten to
/// a cell by an earlier visit.  Yields the best complete distance found.
fn find_shortest_path(
    height: &Array2d<i16>,
    distances: &mut Array2d<u16>,
    dist: u16,
    best: u16,
    current: (isize, isize),
    end: (isize, isize),
) -> (r: u16)
    requires
        height.wf(),
        old(distances).wf(),
        old(distances).dim_i() == height.dim_i(),
        old(distances).dim_j() == height.dim_j(),
    ensures
        final(distances).wf(),
        final(distances).dim_i() == old(distances).dim_i(),
        final(distances).dim_j() == old(distances).dim_j(),
        r <= best,
    decreases best - dist,
{
    if dist >= best {
        return best;
    }
    if current.0 == end.0 && current.1 == end.1 {
        return dist;
    }
    let d = match distances.get(current) {
        Ok(v) => *v,
        Err(_) => {
            return best;
        },
    };
    if d <= dist {
        return best;
    }
    if distances.get_mut(current, dist).is_err() {
        return best;
    }
    let h = match height.get(current) {
        Ok(v) => *v,
        Err(_) => {
            return best;
        },
    };
    let (sz_i, sz_j) = height.size_i();
    let (i, j) = current;
    let mut cur_best = best;
    for k in 0..4usize
        invariant
            height.wf(),
            distances.wf(),
            distances.dim_i() == height.dim_i(),
            distances.dim_j() == height.dim_j(),
            height.dim_i() == old(distances).dim_i(),
            height.dim_j() == old(distances).dim_j(),
            sz_i == height.dim_i(),
            sz_j == height.dim_j(),
            cur_best <= best,
            dist < best,
            isize::MIN < i < isize::MAX,
            isize::MIN < j < isize::MAX,
            h <= 32767,
    {
        let (di, dj) = direction(k);
        let i_new = i + di;
        let j_new = j + dj;
        if i_new >= 0 && j_new >= 0 && i_new < sz_i && j_new < sz_j {
            let h_new = match height.get((i_new, j_new)) {
                Ok(v) => *v,
                Err(_) => {
                    return best;
                },
            };
            if !(h == i16::MAX || h_new > h + 1) {
                if dist + 1 < cur_best {
                    cur_best = find_shortest_path(
                        height,
                        distances,
                        dist + 1,
                        cur_best,
                        (i_new, j_new),
                        end,
                    );
                }
            }
        }
    }
    cur_best
}

/// The fewest steps from the start marker to the summit; nothing when the
/// map is malformed or no path exists.
pub fn solvep1(input: &str) -> (r: Option<u16>) {
    let mut height = match parse(input) {
        Some(v) => v,
        None => {
            return None;
        },
    };
    let se = match find_start_end(&mut height) {
        Some(v) => v,
        None => {
            return None;
        },
    };
    let (start, end) = se;
    let (wi, wj) = height.size_u();
    let mut distances = match Array2d::newu(u16::MAX, wi, wj) {
        Ok(v) => v,
        Err(_) => {
            return None;
        },
    };
    let dist = find_shortest_path(&height, &mut distances, 0, u16::MAX, start, end);
    if dist == u16::MAX {
        return None;
    }
    Some(dist)
}

/// Depth-first search downhill from the summit towards any lowest cell;
/// the step rule mirrors the climb because the walk runs backwards.
fn find_shortest_path_p2(
    height: &Array2d<i16>,
    distances: &mut Array2d<u16>,
    dist: u16,
    best: u16,
    current: (isize, isize),
) -> (r: u16)
    requires
        height.wf(),
        old(distances).wf(),
        old(distances).dim_i() == height.dim_i(),
        old(distances).dim_j() == height.dim_j(),
    ensures
        final(distances).wf(),
        final(distances).dim_i() == old(distances).dim_i(),
        final(distances).dim_j() == old(distances).dim_j(),
        r <= best,
    decreases best - dist,
{
    if dist >= best {
        return best;
    }
    let h = match height.get(current) {
        Ok(v) => *v,
        Err(_) => {
            return best;
        },
    };
    if h == 0 {
        return dist;
    }
    let d = match distances.get(current) {
        Ok(v) => *v,
        Err(_) => {
            return best;
        },
    };
    if d <= dist {
        return best;
    }
    if distances.get_mut(current, dist).is_err() {
        return best;
    }
    let (sz_i, sz_j) = height.size_i();
    let (i, j) = current;
    let mut cur_best = best;
    for k in 0..4usize
        invariant
            height.wf(),
            distances.wf(),
            distances.dim_i() == height.dim_i(),
            distances.dim_j() == height.dim_j(),
            height.dim_i() == old(distances).dim_i(),
            height.dim_j() == old(distances).dim_j(),
            sz_i == height.dim_i(),
            sz_j == height.dim_j(),
            cur_best <= best,
            dist < best,
            isize::MIN < i < isize::MAX,
            isize::MIN < j < isize::MAX,
            h <= 32767,
    {
        let (di, dj) = direction(k);
        let i_new = i + di;
        let j_new = j + dj;
        if i_new >= 0 && j_new >= 0 && i_new < sz_i && j_new < sz_j {
            let h_new = match height.get((i_new, j_new)) {
                Ok(v) => *v,
                Err(_) => {
                    return best;
                },
            };
            if !(h_new == i16::MAX || h > h_new + 1) {
                if dist + 1 < cur_best {
                    cur_best = find_shortest_path_p2(
                        height,
                        distances,
                        dist + 1,
                        cur_best,
                        (i_new, j_new),
                    );
                }
            }
        }
    }
    cur_best
}

/// The fewest steps from the summit down to any lowest cell; nothing when
/// the map is malformed or no such walk exists.
pub fn solvep2(input: &str) -> (r: Option<u16>) {
    let mut height = match parse(input) {
        Some(v) => v,
        None => {
            return None;
        },
    };
    let se = match find_start_end(&mut height) {
        Some(v) => v,
        None => {
            return None;
        },
    };
    let (_, end) = se;
    let (wi, wj) = height.size_u();
    let mut distances = match Array2d::newu(u16::MAX, wi, wj) {
        Ok(v) => v,
        Err(_) => {
            return None;
        },
    };
    let dist = find_shortest_path_p2(&height, &mut distances, 0, u16::MAX, end);
    if dist == u16::MAX {
        return None;
    }
    Some(dist)
}

} // verus!
