//! Treetop visibility in a height grid.
//!
//! A tree is visible when it is strictly taller than every tree along at
//! least one of the four rays to the grid's edge; a tree's scenic score
//! multiplies its viewing distances in the four directions, each counting
//! up to and including the first tree at least as tall.  One answer counts
//! the visible trees, the other takes the best scenic score.

use crate::parse_utils::split_lines;
use vstd::prelude::*;

verus! {

/// Is `(j, i)` a cell of the grid (row `j`, column `i`)?
pub open spec fn in_grid(grid: Seq<Vec<u8>>, j: int, i: int) -> bool {
    0 <= j < grid.len() && 0 <= i < grid[j]@.len()
}

/// Do all rows have the width of the first one?
pub open spec fn rectangular(grid: Seq<Vec<u8>>) -> bool {
    forall|j: int| 0 <= j < grid.len() ==> (#[trigger] grid[j])@.len() == grid[0]@.len()
}

/// Is the tree at `(j, i)` strictly taller than every tree along at least
/// one of the four rays to the grid's edge?
pub open spec fn visible_from_outside(grid: Seq<Vec<u8>>, j: int, i: int) -> bool {
    ||| forall|k: int| 0 <= k < i ==> (#[trigger] grid[j]@[k]) < grid[j]@[i]
    ||| forall|k: int| i < k < grid[j]@.len() ==> (#[trigger] grid[j]@[k]) < grid[j]@[i]
    ||| forall|k: int| 0 <= k < j ==> (#[trigger] grid[k]@[i]) < grid[j]@[i]
    ||| forall|k: int| j < k < grid.len() ==> (#[trigger] grid[k]@[i]) < grid[j]@[i]
}

/// Trees seen from `(j, i)` looking right, scanning from column `k`: one
/// per tree up to and including the first at least as tall.
pub open spec fn dist_right(grid: Seq<Vec<u8>>, j: int, i: int, k: int) -> int
    decreases grid[j]@.len() - k,
{
    if !(0 <= k < grid[j]@.len()) {
        0
    } else if grid[j]@[k] >= grid[j]@[i] {
        1
    } else {
        1 + dist_right(grid, j, i, k + 1)
    }
}

/// Trees seen from `(j, i)` looking left, scanning from column `k` down.
pub open spec fn dist_left(grid: Seq<Vec<u8>>, j: int, i: int, k: int) -> int
    decreases k + 1,
{
    if !(0 <= k < grid[j]@.len()) {
        0
    } else if grid[j]@[k] >= grid[j]@[i] {
        1
    } else {
        1 + dist_left(grid, j, i, k - 1)
    }
}

/// Trees seen from `(j, i)` looking down, scanning from row `k`.
pub open spec fn dist_down(grid: Seq<Vec<u8>>, j: int, i: int, k: int) -> int
    decreases grid.len() - k,
{
    if !(0 <= k < grid.len()) {
        0
    } else if grid[k]@[i] >= grid[j]@[i] {
        1
    } else {
        1 + dist_down(grid, j, i, k + 1)
    }
}

/// Trees seen from `(j, i)` looking up, scanning from row `k` down.
pub open spec fn dist_up(grid: Seq<Vec<u8>>, j: int, i: int, k: int) -> int
    decreases k + 1,
{
    if !(0 <= k < grid.len()) {
        0
    } else if grid[k]@[i] >= grid[j]@[i] {
        1
    } else {
        1 + dist_up(grid, j, i, k - 1)
    }
}

/// The scenic score of the tree at column `i`, row `j`: the product of its
/// four viewing distances.
pub open spec fn spec_scenic_score(grid: Seq<Vec<u8>>, i: int, j: int) -> int {
    dist_right(grid, j, i, i + 1) * dist_left(grid, j, i, i - 1) * dist_down(grid, j, i, j + 1)
        * dist_up(grid, j, i, j - 1)
}

/// How many trees of row `j` from column `i` on are visible.
pub open spec fn count_visible_row(grid: Seq<Vec<u8>>, j: int, i: int) -> int
    decreases grid[j]@.len() - i,
{
    if !(0 <= i < grid[j]@.len()) {
        0
    } else {
        (if visible_from_outside(grid, j, i) {
            1int
        } else {
            0int
        }) + count_visible_row(grid, j, i + 1)
    }
}

/// How many trees from row `j` on are visible.
pub open spec fn count_visible(grid: Seq<Vec<u8>>, j: int) -> int
    decreases grid.len() - j,
{
    if !(0 <= j < grid.len()) {
        0
    } else {
        count_visible_row(grid, j, 0) + count_visible(grid, j + 1)
    }
}

/// Reads the height grid: one row per non-empty line, each digit byte
/// shifted so heights start at one.  Nothing when a byte is below the
/// digit range.
pub fn parse_input(input: &str) -> (r: Option<Vec<Vec<u8>>>) {
    let mut output: Vec<Vec<u8>> = Vec::new();
    let lines = split_lines(input);
    let n = lines.len();
    for li in 0..n
        invariant
            n == lines@.len(),
    {
        let line = &lines[li];
        if line.len() > 0 {
            let mut output_line: Vec<u8> = Vec::new();
            let m = line.len();
            for p in 0..m
                invariant
                    m == line@.len(),
            {
                let c = line[p];
                if c < 48 {
                    return None;
                }
                output_line.push((c - 48) + 1);
            }
            output.push(output_line);
        }
    }
    Some(output)
}

/// Is the tree at `(j, i)` visible from outside the grid?
fn cell_visible(grid: &Vec<Vec<u8>>, j: usize, i: usize) -> (r: bool)
    requires
        rectangular(grid@),
        0 < grid@.len(),
        j < grid@.len(),
        i < grid@[0]@.len(),
    ensures
        r == visible_from_outside(grid@, j as int, i as int),
{
    let h = grid.len();
    let w = grid[0].len();
    let me = grid[j][i];
    let mut left = true;
    for k in 0..i
        invariant
            rectangular(grid@),
            0 < h == grid@.len(),
            j < h,
            i < w,
            w == grid@[0]@.len(),
            me == grid@[j as int]@[i as int],
            left ==> forall|k2: int| 0 <= k2 < k ==> (#[trigger] grid@[j as int]@[k2]) < me,
            !left ==> exists|k2: int| 0 <= k2 < i && (#[trigger] grid@[j as int]@[k2]) >= me,
    {
        if grid[j][k] >= me {
            left = false;
        }
    }
    let mut right = true;
    let mut k = i + 1;
    while k < w
        invariant
            rectangular(grid@),
            0 < h == grid@.len(),
            j < h,
            i < k <= w,
            w == grid@[0]@.len(),
            me == grid@[j as int]@[i as int],
            right ==> forall|k2: int| i < k2 < k ==> (#[trigger] grid@[j as int]@[k2]) < me,
            !right ==> exists|k2: int| i < k2 < w && (#[trigger] grid@[j as int]@[k2]) >= me,
        decreases w - k,
    {
        if grid[j][k] >= me {
            right = false;
        }
        k = k + 1;
    }
    let mut up = true;
    for k in 0..j
        invariant
            rectangular(grid@),
            0 < h == grid@.len(),
            j < h,
            i < w,
            w == grid@[0]@.len(),
            me == grid@[j as int]@[i as int],
            up ==> forall|k2: int| 0 <= k2 < k ==> (#[trigger] grid@[k2]@[i as int]) < me,
            !up ==> exists|k2: int| 0 <= k2 < j && (#[trigger] grid@[k2]@[i as int]) >= me,
    {
        if grid[k][i] >= me {
            up = false;
        }
    }
    let mut down = true;
    let mut k = j + 1;
    while k < h
        invariant
            rectangular(grid@),
            0 < h == grid@.len(),
            j < k <= h,
            i < w,
            w == grid@[0]@.len(),
            me == grid@[j as int]@[i as int],
            down ==> forall|k2: int| j < k2 < k ==> (#[trigger] grid@[k2]@[i as int]) < me,
            !down ==> exists|k2: int| j < k2 < h && (#[trigger] grid@[k2]@[i as int]) >= me,
        decreases h - k,
    {
        if grid[k][i] >= me {
            down = false;
        }
        k = k + 1;
    }
    proof {
        let g = grid@;
        let ji = j as int;
        let ii = i as int;
        if !left {
            assert(!(forall|k2: int| 0 <= k2 < ii ==> (#[trigger] g[ji]@[k2]) < g[ji]@[ii]));
        }
        if !right {
            assert(!(forall|k2: int|
                ii < k2 < g[ji]@.len() ==> (#[trigger] g[ji]@[k2]) < g[ji]@[ii]));
        }
        if !up {
            assert(!(forall|k2: int| 0 <= k2 < ji ==> (#[trigger] g[k2]@[ii]) < g[ji]@[ii]));
        }
        if !down {
            assert(!(forall|k2: int| ji < k2 < g.len() ==> (#[trigger] g[k2]@[ii]) < g[ji]@[ii]));
        }
    }
    left || right || up || down
}

/// Marks every tree of the grid with its visibility from outside.
/// Nothing on an empty or ragged grid.
pub fn make_seen(grid: &Vec<Vec<u8>>) -> (r: Option<Vec<Vec<bool>>>)
    ensures
        r matches Some(seen) ==> {
            &&& seen@.len() == grid@.len()
            &&& forall|j: int| 0 <= j < grid@.len() ==> (#[trigger] seen@[j])@.len() == grid@[j]@.len()
            &&& forall|j: int, i: int|
                in_grid(grid@, j, i) ==> #[trigger] seen@[j]@[i] == visible_from_outside(grid@, j, i)
        },
{
    let h = grid.len();
    if h == 0 {
        return None;
    }
    let w = grid[0].len();
    for j in 0..h
        invariant
            h == grid@.len(),
            w == grid@[0]@.len(),
            forall|j2: int| 0 <= j2 < j ==> (#[trigger] grid@[j2])@.len() == w,
    {
        if grid[j].len() != w {
            return None;
        }
    }
    let mut seen: Vec<Vec<bool>> = Vec::new();
    for j in 0..h
        invariant
            0 < h == grid@.len(),
            w == grid@[0]@.len(),
            rectangular(grid@),
            seen@.len() == j,
            forall|j2: int| 0 <= j2 < j ==> (#[trigger] seen@[j2])@.len() == w,
            forall|j2: int, i2: int|
                0 <= j2 < j && 0 <= i2 < w ==> #[trigger] seen@[j2]@[i2] == visible_from_outside(
                    grid@,
                    j2,
                    i2,
                ),
    {
        let mut row: Vec<bool> = Vec::new();
        for i in 0..w
            invariant
                0 < h == grid@.len(),
                w == grid@[0]@.len(),
                rectangular(grid@),
                j < h,
                row@.len() == i,
                forall|i2: int|
                    0 <= i2 < i ==> #[trigger] row@[i2] == visible_from_outside(grid@, j as int, i2),
        {
            row.push(cell_visible(grid, j, i));
        }
        seen.push(row);
    }
    Some(seen)
}

/// Counts the visible trees.  Nothing on an empty or ragged grid, or an
/// uncountably large one.
pub fn solvep1(grid: &Vec<Vec<u8>>) -> (r: Option<usize>)
    ensures
        r matches Some(c) ==> c == count_visible(grid@, 0),
{
    let seen = match make_seen(grid) {
        Some(v) => v,
        None => {
            return None;
        },
    };
    let h = grid.len();
    let mut count: usize = 0;
    for j in 0..h
        invariant
            h == grid@.len(),
            seen@.len() == grid@.len(),
            forall|j2: int|
                0 <= j2 < grid@.len() ==> (#[trigger] seen@[j2])@.len() == grid@[j2]@.len(),
            forall|j2: int, i2: int|
                in_grid(grid@, j2, i2) ==> #[trigger] seen@[j2]@[i2] == visible_from_outside(
                    grid@,
                    j2,
                    i2,
                ),
            count == count_visible(grid@, 0) - count_visible(grid@, j as int),
    {
        let w = grid[j].len();
        let mut row_count: usize = 0;
        for i in 0..w
            invariant
                h == grid@.len(),
                j < h,
                w == grid@[j as int]@.len(),
                seen@.len() == grid@.len(),
                forall|j2: int|
                    0 <= j2 < grid@.len() ==> (#[trigger] seen@[j2])@.len() == grid@[j2]@.len(),
                forall|j2: int, i2: int|
                    in_grid(grid@, j2, i2) ==> #[trigger] seen@[j2]@[i2] == visible_from_outside(
                        grid@,
                        j2,
                        i2,
                    ),
                row_count == count_visible_row(grid@, j as int, 0) - count_visible_row(
                    grid@,
                    j as int,
                    i as int,
                ),
        {
            if seen[j][i] {
                row_count = match row_count.checked_add(1) {
                    Some(v) => v,
                    None => {
                        return None;
                    },
                };
            }
        }
        count = match count.checked_add(row_count) {
            Some(v) => v,
            None => {
                return None;
            },
        };
    }
    proof {
        assert(count_visible(grid@, h as int) == 0);
    }
    Some(count)
}

/// The scenic score of the tree at column `i`, row `j`.  Nothing on an
/// empty or ragged grid, a cell outside it, or an overflowing product.
pub fn calc_scenic(grid: &Vec<Vec<u8>>, i: usize, j: usize) -> (r: Option<usize>)
    ensures
        r matches Some(s) ==> s == spec_scenic_score(grid@, i as int, j as int),
{
    let h = grid.len();
    if h == 0 {
        return None;
    }
    let w = grid[0].len();
    for j2 in 0..h
        invariant
            h == grid@.len(),
            w == grid@[0]@.len(),
            forall|j3: int| 0 <= j3 < j2 ==> (#[trigger] grid@[j3])@.len() == w,
    {
        if grid[j2].len() != w {
            return None;
        }
    }
    if j >= h || i >= w {
        return None;
    }
    let me = grid[j][i];
    let ghost g = grid@;
    let ghost ji = j as int;
    let ghost ii = i as int;
    // Looking right.
    let mut count_r: usize = 0;
    let mut k = i + 1;
    while k < w
        invariant_except_break
            count_r == k - i - 1,
            dist_right(g, ji, ii, ii + 1) == count_r + dist_right(g, ji, ii, k as int),
        invariant
            rectangular(g),
            g == grid@,
            0 < h == g.len(),
            ji == j as int,
            ii == i as int,
            j < h,
            i < k <= w,
            w == g[0]@.len(),
            me == g[ji]@[ii],
        ensures
            dist_right(g, ji, ii, ii + 1) == count_r,
        decreases w - k,
    {
        count_r = count_r + 1;
        if grid[j][k] >= me {
            proof {
                assert(dist_right(g, ji, ii, k as int) == 1);
            }
            break ;
        }
        proof {
            assert(dist_right(g, ji, ii, k as int) == 1 + dist_right(g, ji, ii, k + 1));
        }
        k = k + 1;
    }
    // Looking left.
    let mut count_l: usize = 0;
    let mut k = i;
    while k > 0
        invariant_except_break
            count_l == i - k,
            dist_left(g, ji, ii, ii - 1) == count_l + dist_left(g, ji, ii, k as int - 1),
        invariant
            rectangular(g),
            g == grid@,
            0 < h == g.len(),
            ji == j as int,
            ii == i as int,
            j < h,
            k <= i < w,
            w == g[0]@.len(),
            me == g[ji]@[ii],
        ensures
            dist_left(g, ji, ii, ii - 1) == count_l,
        decreases k,
    {
        k = k - 1;
        count_l = count_l + 1;
        if grid[j][k] >= me {
            proof {
                assert(dist_left(g, ji, ii, k as int) == 1);
            }
            break ;
        }
        proof {
            assert(dist_left(g, ji, ii, k as int) == 1 + dist_left(g, ji, ii, k as int - 1));
        }
    }
    // Looking down.
    let mut count_d: usize = 0;
    let mut k = j + 1;
    while k < h
        invariant_except_break
            count_d == k - j - 1,
            dist_down(g, ji, ii, ji + 1) == count_d + dist_down(g, ji, ii, k as int),
        invariant
            rectangular(g),
            g == grid@,
            0 < h == g.len(),
            ji == j as int,
            ii == i as int,
            j < k <= h,
            i < w,
            w == g[0]@.len(),
            me == g[ji]@[ii],
        ensures
            dist_down(g, ji, ii, ji + 1) == count_d,
        decreases h - k,
    {
        count_d = count_d + 1;
        if grid[k][i] >= me {
            proof {
                assert(dist_down(g, ji, ii, k as int) == 1);
            }
            break ;
        }
        proof {
            assert(dist_down(g, ji, ii, k as int) == 1 + dist_down(g, ji, ii, k + 1));
        }
        k = k + 1;
    }
    // Looking up.
    let mut count_u: usize = 0;
    let mut k = j;
    while k > 0
        invariant_except_break
            count_u == j - k,
            dist_up(g, ji, ii, ji - 1) == count_u + dist_up(g, ji, ii, k as int - 1),
        invariant
            rectangular(g),
            g == grid@,
            0 < h == g.len(),
            ji == j as int,
            ii == i as int,
            k <= j < h,
            i < w,
            w == g[0]@.len(),
            me == g[ji]@[ii],
        ensures
            dist_up(g, ji, ii, ji - 1) == count_u,
        decreases k,
    {
        k = k - 1;
        count_u = count_u + 1;
        if grid[k][i] >= me {
            proof {
                assert(dist_up(g, ji, ii, k as int) == 1);
            }
            break ;
        }
        proof {
            assert(dist_up(g, ji, ii, k as int) == 1 + dist_up(g, ji, ii, k as int - 1));
        }
    }
    let s1 = match count_r.checked_mul(count_l) {
        Some(v) => v,
        None => {
            return None;
        },
    };
    let s2 = match s1.checked_mul(count_d) {
        Some(v) => v,
        None => {
            return None;
        },
    };
    let s3 = match s2.checked_mul(count_u) {
        Some(v) => v,
        None => {
            return None;
        },
    };
    Some(s3)
}

/// The scenic score of every tree.  Nothing on an empty or ragged grid or
/// an overflowing score.
pub fn make_scenic(grid: &Vec<Vec<u8>>) -> (r: Option<Vec<Vec<usize>>>)
    ensures
        r matches Some(scenic) ==> {
            &&& scenic@.len() == grid@.len()
            &&& forall|j: int|
                0 <= j < grid@.len() ==> (#[trigger] scenic@[j])@.len() == grid@[j]@.len()
            &&& forall|j: int, i: int|
                in_grid(grid@, j, i) ==> #[trigger] scenic@[j]@[i] == spec_scenic_score(grid@, i, j)
        },
{
    let h = grid.len();
    if h == 0 {
        return None;
    }
    let w = grid[0].len();
    for j in 0..h
        invariant
            h == grid@.len(),
            w == grid@[0]@.len(),
            forall|j2: int| 0 <= j2 < j ==> (#[trigger] grid@[j2])@.len() == w,
    {
        if grid[j].len() != w {
            return None;
        }
    }
    let mut scenic: Vec<Vec<usize>> = Vec::new();
    for j in 0..h
        invariant
            0 < h == grid@.len(),
            w == grid@[0]@.len(),
            rectangular(grid@),
            scenic@.len() == j,
            forall|j2: int| 0 <= j2 < j ==> (#[trigger] scenic@[j2])@.len() == w,
            forall|j2: int, i2: int|
                0 <= j2 < j && 0 <= i2 < w ==> #[trigger] scenic@[j2]@[i2] == spec_scenic_score(
                    grid@,
                    i2,
                    j2,
                ),
    {
        let mut row: Vec<usize> = Vec::new();
        for i in 0..w
            invariant
                0 < h == grid@.len(),
                w == grid@[0]@.len(),
                rectangular(grid@),
                j < h,
                row@.len() == i,
                forall|i2: int|
                    0 <= i2 < i ==> #[trigger] row@[i2] == spec_scenic_score(grid@, i2, j as int),
        {
            let s = match calc_scenic(grid, i, j) {
                Some(v) => v,
                None => {
                    return None;
                },
            };
            row.push(s);
        }
        scenic.push(row);
    }
    Some(scenic)
}

/// The best scenic score anywhere in the grid.  Nothing on an empty or
/// ragged grid or an overflowing score.
pub fn solvep2(grid: &Vec<Vec<u8>>) -> (r: Option<usize>)
    ensures
        r matches Some(best) ==> (forall|j: int, i: int|
            in_grid(grid@, j, i) ==> #[trigger] spec_scenic_score(grid@, i, j) <= best) && (grid@.len()
            > 0 && grid@[0]@.len() > 0 ==> exists|j: int, i: int|
            in_grid(grid@, j, i) && #[trigger] spec_scenic_score(grid@, i, j) == best),
{
    let scenic = match make_scenic(grid) {
        Some(v) => v,
        None => {
            return None;
        },
    };
    let h = grid.len();
    if h == 0 {
        return None;
    }
    let w = grid[0].len();
    let mut best: usize = 0;
    let ghost g = grid@;
    for j in 0..h
        invariant
            g == grid@,
            0 < h == g.len(),
            w == g[0]@.len(),
            scenic@.len() == g.len(),
            forall|j2: int| 0 <= j2 < g.len() ==> (#[trigger] scenic@[j2])@.len() == g[j2]@.len(),
            forall|j2: int, i2: int|
                in_grid(g, j2, i2) ==> #[trigger] scenic@[j2]@[i2] == spec_scenic_score(g, i2, j2),
            forall|j2: int, i2: int|
                0 <= j2 < j && 0 <= i2 < g[j2]@.len() ==> #[trigger] spec_scenic_score(g, i2, j2)
                    <= best,
            best == 0 || exists|j2: int, i2: int|
                in_grid(g, j2, i2) && #[trigger] spec_scenic_score(g, i2, j2) == best,
    {
        let wj = grid[j].len();
        for i in 0..wj
            invariant
                g == grid@,
                0 < h == g.len(),
                w == g[0]@.len(),
                j < h,
                wj == g[j as int]@.len(),
                scenic@.len() == g.len(),
                forall|j2: int|
                    0 <= j2 < g.len() ==> (#[trigger] scenic@[j2])@.len() == g[j2]@.len(),
                forall|j2: int, i2: int|
                    in_grid(g, j2, i2) ==> #[trigger] scenic@[j2]@[i2] == spec_scenic_score(
                        g,
                        i2,
                        j2,
                    ),
                forall|j2: int, i2: int|
                    0 <= j2 < j && 0 <= i2 < g[j2]@.len() ==> #[trigger] spec_scenic_score(g, i2, j2)
                        <= best,
                forall|i2: int|
                    0 <= i2 < i ==> #[trigger] spec_scenic_score(g, i2, j as int) <= best,
                best == 0 || exists|j2: int, i2: int|
                    in_grid(g, j2, i2) && #[trigger] spec_scenic_score(g, i2, j2) == best,
        {
            if scenic[j][i] > best {
                best = scenic[j][i];
            }
        }
    }
    proof {
        if g[0]@.len() > 0 && best == 0 {
            // Score zero was never beaten, and every score is bounded by
            // it, so the first cell's score is exactly zero.
            assert(spec_scenic_score(g, 0, 0) <= 0);
            lemma_scenic_nonneg(g, 0, 0);
        }
    }
    Some(best)
}

/// A scenic score is never negative.
proof fn lemma_scenic_nonneg(grid: Seq<Vec<u8>>, i: int, j: int)
    ensures
        spec_scenic_score(grid, i, j) >= 0,
{
    lemma_dist_right_nonneg(grid, j, i, i + 1);
    lemma_dist_left_nonneg(grid, j, i, i - 1);
    lemma_dist_down_nonneg(grid, j, i, j + 1);
    lemma_dist_up_nonneg(grid, j, i, j - 1);
    let a = dist_right(grid, j, i, i + 1);
    let b = dist_left(grid, j, i, i - 1);
    let c = dist_down(grid, j, i, j + 1);
    let d = dist_up(grid, j, i, j - 1);
    assert(a * b * c * d >= 0) by (nonlinear_arith)
        requires
            a >= 0,
            b >= 0,
            c >= 0,
            d >= 0,
    ;
}

/// A viewing distance is never negative.
proof fn lemma_dist_right_nonneg(grid: Seq<Vec<u8>>, j: int, i: int, k: int)
    ensures
        dist_right(grid, j, i, k) >= 0,
    decreases grid[j]@.len() - k,
{
    if 0 <= k < grid[j]@.len() && !(grid[j]@[k] >= grid[j]@[i]) {
        lemma_dist_right_nonneg(grid, j, i, k + 1);
    }
}

/// A viewing distance is never negative.
proof fn lemma_dist_left_nonneg(grid: Seq<Vec<u8>>, j: int, i: int, k: int)
    ensures
        dist_left(grid, j, i, k) >= 0,
    decreases k + 1,
{
    if 0 <= k < grid[j]@.len() && !(grid[j]@[k] >= grid[j]@[i]) {
        lemma_dist_left_nonneg(grid, j, i, k - 1);
    }
}

/// A viewing distance is never negative.
proof fn lemma_dist_down_nonneg(grid: Seq<Vec<u8>>, j: int, i: int, k: int)
    ensures
        dist_down(grid, j, i, k) >= 0,
    decreases grid.len() - k,
{
    if 0 <= k < grid.len() && !(grid[k]@[i] >= grid[j]@[i]) {
        lemma_dist_down_nonneg(grid, j, i, k + 1);
    }
}

/// A viewing distance is never negative.
proof fn lemma_dist_up_nonneg(grid: Seq<Vec<u8>>, j: int, i: int, k: int)
    ensures
        dist_up(grid, j, i, k) >= 0,
    decreases k + 1,
{
    if 0 <= k < grid.len() && !(grid[k]@[i] >= grid[j]@[i]) {
        lemma_dist_up_nonneg(grid, j, i, k - 1);
    }
}

} // verus!
