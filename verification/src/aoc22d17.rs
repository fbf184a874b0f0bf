//! Rocks falling down a narrow shaft.
//!
//! Five rock shapes fall in order, pushed by a repeating jet pattern,
//! stacking up from the floor.  The answer is the tower's height after a
//! number of rocks; for astronomic counts the simulation finds a repeating
//! state and leaps over whole cycles.  Rows sealed off from above are
//! purged so the kept shaft stays small.

use crate::arr2d::Array2d;
use vstd::prelude::*;

verus! {

/// The simulation state: the shaft contents, which rock and jet are
/// current, where the falling rock sits, a scratch row for the purge
/// scan, and how many rows were purged so far.
pub struct State {
    pub shaft: Array2d<bool>,
    pub current_rock: usize,
    pub current_dir: usize,
    pub rock_x: isize,
    pub rock_y: isize,
    pub accessible: Vec<bool>,
    pub purged_rows: isize,
}

/// Is the whole state well formed: a non-degenerate shaft and a scratch
/// row as wide as it?
pub open spec fn state_wf(s: State) -> bool {
    &&& s.shaft.wf()
    &&& 1 <= s.shaft.dim_i()
    &&& s.accessible@.len() == s.shaft.dim_i()
    &&& 0 <= s.rock_y
}

/// The five rock shapes, bottom-left aligned.
pub fn make_rocks() -> (r: Option<Vec<Array2d<bool>>>)
    ensures
        r matches Some(rocks) ==> rocks@.len() == 5 && (forall|k: int|
            0 <= k < 5 ==> (#[trigger] rocks@[k]).wf()),
{
    let rock1 = match Array2d::newu(true, 4, 1) {
        Ok(v) => v,
        Err(_) => {
            return None;
        },
    };
    let mut rock2 = match Array2d::newu(false, 3, 3) {
        Ok(v) => v,
        Err(_) => {
            return None;
        },
    };
    if rock2.get_mut((1, 0), true).is_err() {
        return None;
    }
    if rock2.get_mut((0, 1), true).is_err() {
        return None;
    }
    if rock2.get_mut((1, 1), true).is_err() {
        return None;
    }
    if rock2.get_mut((2, 1), true).is_err() {
        return None;
    }
    if rock2.get_mut((1, 2), true).is_err() {
        return None;
    }
    let mut rock3 = match Array2d::newu(false, 3, 3) {
        Ok(v) => v,
        Err(_) => {
            return None;
        },
    };
    if rock3.get_mut((0, 0), true).is_err() {
        return None;
    }
    if rock3.get_mut((1, 0), true).is_err() {
        return None;
    }
    if rock3.get_mut((2, 0), true).is_err() {
        return None;
    }
    if rock3.get_mut((2, 1), true).is_err() {
        return None;
    }
    if rock3.get_mut((2, 2), true).is_err() {
        return None;
    }
    let rock4 = match Array2d::newu(true, 1, 4) {
        Ok(v) => v,
        Err(_) => {
            return None;
        },
    };
    let rock5 = match Array2d::newu(true, 2, 2) {
        Ok(v) => v,
        Err(_) => {
            return None;
        },
    };
    let mut rocks: Vec<Array2d<bool>> = Vec::new();
    rocks.push(rock1);
    rocks.push(rock2);
    rocks.push(rock3);
    rocks.push(rock4);
    rocks.push(rock5);
    Some(rocks)
}

/// Reads the jet pattern: left and right pushes, ignoring blanks and line
/// breaks.
pub fn parse(source: &str) -> (r: Option<Vec<isize>>) {
    let mut output: Vec<isize> = Vec::new();
    let bytes = source.as_bytes();
    let n = bytes.len();
    for p in 0..n
        invariant
            n == bytes@.len(),
    {
        let b = bytes[p];
        if b == 32 || b == 10 {
        } else if b == 60 {
            output.push(-1);
        } else if b == 62 {
            output.push(1);
        } else {
            return None;
        }
    }
    Some(output)
}

/// Writes the falling rock into the shaft at its current position,
/// growing the shaft as needed.  Nothing on overflow or when a cell is
/// already filled.
fn place_rock(rock: &Array2d<bool>, state: &mut State) -> (r: Option<()>)
    requires
        rock.wf(),
        state_wf(*old(state)),
    ensures
        state_wf(*final(state)),
        final(state).shaft.dim_i() == old(state).shaft.dim_i(),
        final(state).accessible@.len() == old(state).accessible@.len(),
        final(state).current_rock == old(state).current_rock,
        final(state).current_dir == old(state).current_dir,
        final(state).purged_rows == old(state).purged_rows,
        final(state).rock_x == old(state).rock_x,
        final(state).rock_y == old(state).rock_y,
{
    let (rsx, rsy) = rock.size_i();
    let ssx = state.shaft.size_i().0;
    let needed = match state.rock_y.checked_add(rsy) {
        Some(v) => v,
        None => {
            return None;
        },
    };
    while state.shaft.size_i().1 < needed
        invariant
            state_wf(*state),
            state.shaft.dim_i() == old(state).shaft.dim_i(),
            state.accessible@.len() == old(state).accessible@.len(),
            state.current_rock == old(state).current_rock,
            state.current_dir == old(state).current_dir,
            state.purged_rows == old(state).purged_rows,
            state.rock_x == old(state).rock_x,
            state.rock_y == old(state).rock_y,
            ssx == state.shaft.dim_i(),
        decreases needed - state.shaft.dim_j(),
    {
        let mut row: Vec<bool> = Vec::new();
        let mut k: isize = 0;
        while k < ssx
            invariant
                0 <= k,
                row@.len() == k,
            decreases ssx - k,
        {
            row.push(false);
            k = k + 1;
        }
        if state.shaft.add_row(&row).is_err() {
            return None;
        }
    }
    let mut ry: isize = 0;
    while ry < rsy
        invariant
            rock.wf(),
            state_wf(*state),
            state.shaft.dim_i() == old(state).shaft.dim_i(),
            state.accessible@.len() == old(state).accessible@.len(),
            state.current_rock == old(state).current_rock,
            state.current_dir == old(state).current_dir,
            state.purged_rows == old(state).purged_rows,
            state.rock_x == old(state).rock_x,
            state.rock_y == old(state).rock_y,
            0 <= ry,
        decreases rsy - ry,
    {
        let mut rx: isize = 0;
        while rx < rsx
            invariant
                rock.wf(),
                state_wf(*state),
                state.shaft.dim_i() == old(state).shaft.dim_i(),
                state.accessible@.len() == old(state).accessible@.len(),
                state.current_rock == old(state).current_rock,
                state.current_dir == old(state).current_dir,
                state.purged_rows == old(state).purged_rows,
                state.rock_x == old(state).rock_x,
                state.rock_y == old(state).rock_y,
                0 <= rx,
                0 <= ry,
        decreases rsx - rx,
        {
            let cell = match rock.get((rx, ry)) {
                Ok(v) => *v,
                Err(_) => {
                    return None;
                },
            };
            if cell {
                let tx = match state.rock_x.checked_add(rx) {
                    Some(v) => v,
                    None => {
                        return None;
                    },
                };
                let ty = match state.rock_y.checked_add(ry) {
                    Some(v) => v,
                    None => {
                        return None;
                    },
                };
                let already = match state.shaft.get((tx, ty)) {
                    Ok(v) => *v,
                    Err(_) => {
                        return None;
                    },
                };
                if already {
                    return None;
                }
                if state.shaft.get_mut((tx, ty), true).is_err() {
                    return None;
                }
            }
            rx = rx + 1;
        }
        ry = ry + 1;
    }
    Some(())
}

/// Can the rock sit at `(x, y)` without leaving the shaft or overlapping
/// settled rock?  Nothing when the floor was purged away and the rock
/// still reaches it.
fn can_move_to(x: isize, y: isize, rock: &Array2d<bool>, state: &State) -> (r: Option<bool>)
    requires
        rock.wf(),
        state_wf(*state),
    ensures
        r == Some(true) ==> y >= 0,
{
    let (rsx, rsy) = rock.size_i();
    let (ssx, ssy) = state.shaft.size_i();
    if x < 0 {
        return Some(false);
    }
    let reach = match x.checked_add(rsx) {
        Some(v) => v,
        None => {
            return None;
        },
    };
    if reach > ssx {
        return Some(false);
    }
    if y < 0 {
        if state.purged_rows > 0 {
            return None;
        }
        return Some(false);
    }
    let mut ry: isize = 0;
    while ry < rsy
        invariant
            rock.wf(),
            state_wf(*state),
            0 <= ry,
            0 <= y,
        decreases rsy - ry,
    {
        let yy = match y.checked_add(ry) {
            Some(v) => v,
            None => {
                return None;
            },
        };
        if yy < ssy {
            let mut rx: isize = 0;
            while rx < rsx
                invariant
                    rock.wf(),
                    state_wf(*state),
                    0 <= rx,
                    0 <= ry,
                    0 <= y,
                decreases rsx - rx,
            {
                let solid = match rock.get((rx, ry)) {
                    Ok(v) => *v,
                    Err(_) => {
                        return None;
                    },
                };
                if solid {
                    let xx = match x.checked_add(rx) {
                        Some(v) => v,
                        None => {
                            return None;
                        },
                    };
                    let yy2 = match y.checked_add(ry) {
                        Some(v) => v,
                        None => {
                            return None;
                        },
                    };
                    let filled = match state.shaft.get((xx, yy2)) {
                        Ok(v) => *v,
                        Err(_) => {
                            return None;
                        },
                    };
                    if filled {
                        return Some(false);
                    }
                }
                rx = rx + 1;
            }
        }
        ry = ry + 1;
    }
    Some(true)
}

/// Finds the highest row that nothing can fall past and purges everything
/// below it, remembering how many rows went.
fn check_purge(state: &mut State) -> (r: Option<()>)
    requires
        state_wf(*old(state)),
    ensures
        state_wf(*final(state)),
        final(state).shaft.dim_i() == old(state).shaft.dim_i(),
        final(state).accessible@.len() == old(state).accessible@.len(),
        final(state).current_rock == old(state).current_rock,
        final(state).current_dir == old(state).current_dir,
        final(state).rock_x == old(state).rock_x,
        final(state).rock_y == old(state).rock_y,
{
    let width = state.accessible.len();
    for k in 0..width
        invariant
            width == state.accessible@.len(),
            state_wf(*state),
            state == old(state) || (state.accessible@.len() == old(state).accessible@.len()
                && state.shaft == old(state).shaft && state.current_rock == old(
                state,
            ).current_rock && state.current_dir == old(state).current_dir && state.rock_x == old(
                state,
            ).rock_x && state.rock_y == old(state).rock_y && state.purged_rows == old(
                state,
            ).purged_rows),
    {
        state.accessible.set(k, true);
    }
    let (ssx, ssy) = state.shaft.size_i();
    let mut inaccessible_line: Option<isize> = None;
    let mut y: isize = ssy;
    while y > 2 && inaccessible_line.is_none()
        invariant
            state_wf(*state),
            state.accessible@.len() == old(state).accessible@.len(),
            state.shaft == old(state).shaft,
            state.current_rock == old(state).current_rock,
            state.current_dir == old(state).current_dir,
            state.rock_x == old(state).rock_x,
            state.rock_y == old(state).rock_y,
            state.purged_rows == old(state).purged_rows,
            ssx == state.shaft.dim_i(),
            ssy == state.shaft.dim_j(),
            width == state.accessible@.len(),
            y <= ssy,
            inaccessible_line matches Some(v) ==> 0 <= v <= ssy,
        decreases y,
    {
        y = y - 1;
        if width >= 1 {
            let mut x: usize = 0;
            while x < width - 1
                invariant
                    width == state.accessible@.len(),
                    width >= 1,
                    state_wf(*state),
                    state.accessible@.len() == old(state).accessible@.len(),
                    state.shaft == old(state).shaft,
                    state.current_rock == old(state).current_rock,
                    state.current_dir == old(state).current_dir,
                    state.rock_x == old(state).rock_x,
                    state.rock_y == old(state).rock_y,
                    state.purged_rows == old(state).purged_rows,
                decreases width - x,
            {
                let v = state.accessible[x] || state.accessible[x + 1];
                state.accessible.set(x, v);
                x = x + 1;
            }
            let mut x: usize = width;
            while x > 1
                invariant
                    width == state.accessible@.len(),
                    x <= width,
                    state_wf(*state),
                    state.accessible@.len() == old(state).accessible@.len(),
                    state.shaft == old(state).shaft,
                    state.current_rock == old(state).current_rock,
                    state.current_dir == old(state).current_dir,
                    state.rock_x == old(state).rock_x,
                    state.rock_y == old(state).rock_y,
                    state.purged_rows == old(state).purged_rows,
                decreases x,
            {
                x = x - 1;
                let v = state.accessible[x] || state.accessible[x - 1];
                state.accessible.set(x, v);
            }
        }
        let mut x: isize = 0;
        while x < ssx
            invariant
                width == state.accessible@.len(),
                state_wf(*state),
                state.accessible@.len() == old(state).accessible@.len(),
                state.shaft == old(state).shaft,
                state.current_rock == old(state).current_rock,
                state.current_dir == old(state).current_dir,
                state.rock_x == old(state).rock_x,
                state.rock_y == old(state).rock_y,
                state.purged_rows == old(state).purged_rows,
                ssx == state.shaft.dim_i(),
                ssx == width,
                0 <= x,
            decreases ssx - x,
        {
            let filled = match state.shaft.get((x, y)) {
                Ok(v) => *v,
                Err(_) => {
                    return None;
                },
            };
            if filled {
                state.accessible.set(x as usize, false);
            }
            x = x + 1;
        }
        let mut any = false;
        let mut k: usize = 0;
        while k < width
            invariant
                width == state.accessible@.len(),
                k <= width,
            decreases width - k,
        {
            if state.accessible[k] {
                any = true;
            }
            k = k + 1;
        }
        if !any {
            if y >= 0 {
                inaccessible_line = Some(y);
            }
        }
    }
    let remove_up_to = match inaccessible_line {
        Some(v) => v,
        None => {
            return Some(());
        },
    };
    state.purged_rows = match state.purged_rows.checked_add(remove_up_to) {
        Some(v) => v,
        None => {
            return None;
        },
    };
    if state.shaft.drop_front(remove_up_to).is_err() {
        return None;
    }
    Some(())
}

/// Do two states describe the same situation, up to which copy of the
/// rock cycle they are in?
pub fn check_state_equivalent(a: &State, b: &State) -> (r: bool)
    requires
        a.shaft.wf(),
        b.shaft.wf(),
{
    if a.current_rock % 5 != b.current_rock % 5 {
        return false;
    }
    if a.current_dir != b.current_dir {
        return false;
    }
    if a.rock_x != b.rock_x {
        return false;
    }
    if a.rock_y != b.rock_y {
        return false;
    }
    let (asx, asy) = a.shaft.size_i();
    let (bsx, bsy) = b.shaft.size_i();
    if asx != bsx || asy != bsy {
        return false;
    }
    let mut y: isize = 0;
    while y < asy
        invariant
            a.shaft.wf(),
            b.shaft.wf(),
            0 <= y,
        decreases asy - y,
    {
        let mut x: isize = 0;
        while x < asx
            invariant
                a.shaft.wf(),
                b.shaft.wf(),
                0 <= x,
                0 <= y,
            decreases asx - x,
        {
            let av = match a.shaft.get((x, y)) {
                Ok(v) => *v,
                Err(_) => {
                    return false;
                },
            };
            let bv = match b.shaft.get((x, y)) {
                Ok(v) => *v,
                Err(_) => {
                    return false;
                },
            };
            if av != bv {
                return false;
            }
            x = x + 1;
        }
        y = y + 1;
    }
    true
}

/// Drops one rock to rest: jets push it sideways, it falls until blocked,
/// then it settles and the next rock is staged.  Yields the tower height
/// including purged rows.
fn drop_rock(state: &mut State, rocks: &Vec<Array2d<bool>>, dirs: &Vec<isize>, allow_purge: bool)
    -> (r: Option<isize>)
    requires
        state_wf(*old(state)),
        rocks@.len() == 5,
        forall|k: int| 0 <= k < 5 ==> (#[trigger] rocks@[k]).wf(),
        dirs@.len() >= 1,
    ensures
        state_wf(*final(state)),
        final(state).shaft.dim_i() == old(state).shaft.dim_i(),
        final(state).accessible@.len() == old(state).accessible@.len(),
        r is Some ==> final(state).current_rock == old(state).current_rock + 1,
{
    loop
        invariant
            state_wf(*state),
            state.shaft.dim_i() == old(state).shaft.dim_i(),
            state.accessible@.len() == old(state).accessible@.len(),
            state.current_rock == old(state).current_rock,
            rocks@.len() == 5,
            forall|k: int| 0 <= k < 5 ==> (#[trigger] rocks@[k]).wf(),
            dirs@.len() >= 1,
        decreases state.rock_y,
    {
        if state.current_dir >= dirs.len() {
            return None;
        }
        let dir = dirs[state.current_dir];
        state.current_dir = (state.current_dir + 1) % dirs.len();
        let rock_i = state.current_rock % 5;
        let rock = &rocks[rock_i];
        let pushed = match state.rock_x.checked_add(dir) {
            Some(v) => v,
            None => {
                return None;
            },
        };
        match can_move_to(pushed, state.rock_y, rock, state) {
            Some(true) => {
                state.rock_x = pushed;
            },
            Some(false) => {},
            None => {
                return None;
            },
        }
        match can_move_to(state.rock_x, state.rock_y - 1, rock, state) {
            Some(true) => {
                state.rock_y = state.rock_y - 1;
            },
            Some(false) => {
                if place_rock(rock, state).is_none() {
                    return None;
                }
                if allow_purge {
                    if check_purge(state).is_none() {
                        return None;
                    }
                }
                state.current_rock = match state.current_rock.checked_add(1) {
                    Some(v) => v,
                    None => {
                        return None;
                    },
                };
                state.rock_x = 2;
                state.rock_y = match state.shaft.size_i().1.checked_add(3) {
                    Some(v) => v,
                    None => {
                        return None;
                    },
                };
                let height = match state.shaft.size_i().1.checked_add(state.purged_rows) {
                    Some(v) => v,
                    None => {
                        return None;
                    },
                };
                return Some(height);
            },
            None => {
                return None;
            },
        }
    }
}

/// The tower height after `n_rocks` rocks have fallen in a shaft `width`
/// wide.  Large counts demand purging, and leap over the repeating cycle
/// the simulation settles into.  Nothing on malformed input, overflow, or
/// a simulation that never repeats.
pub fn solve(input: &str, width: isize, n_rocks: usize, allow_purge: bool) -> (r: Option<isize>) {
    if width < 1 {
        return None;
    }
    let shaft = match Array2d::new(false, width, 0) {
        Ok(v) => v,
        Err(_) => {
            return None;
        },
    };
    let mut accessible: Vec<bool> = Vec::new();
    let mut k: isize = 0;
    while k < width
        invariant
            0 <= k <= width,
            accessible@.len() == k,
        decreases width - k,
    {
        accessible.push(false);
        k = k + 1;
    }
    let mut state = State {
        shaft,
        current_rock: 0,
        current_dir: 0,
        rock_x: 2,
        rock_y: 3,
        accessible,
        purged_rows: 0,
    };
    let rocks = match make_rocks() {
        Some(v) => v,
        None => {
            return None;
        },
    };
    let dirs = match parse(input) {
        Some(v) => v,
        None => {
            return None;
        },
    };
    if dirs.len() == 0 {
        return None;
    }
    if n_rocks < 10000 {
        while state.current_rock < n_rocks
            invariant
                state_wf(state),
                rocks@.len() == 5,
                forall|k2: int| 0 <= k2 < 5 ==> (#[trigger] rocks@[k2]).wf(),
                dirs@.len() >= 1,
            decreases n_rocks - state.current_rock,
        {
            if drop_rock(&mut state, &rocks, &dirs, allow_purge).is_none() {
                return None;
            }
        }
        return match state.shaft.size_i().1.checked_add(state.purged_rows) {
            Some(v) => Some(v),
            None => None,
        };
    }
    if !allow_purge {
        return None;
    }
    while state.current_rock < 10000
        invariant
            state_wf(state),
            rocks@.len() == 5,
            forall|k2: int| 0 <= k2 < 5 ==> (#[trigger] rocks@[k2]).wf(),
            dirs@.len() >= 1,
        decreases 10000 - state.current_rock,
    {
        if drop_rock(&mut state, &rocks, &dirs, allow_purge).is_none() {
            return None;
        }
    }
    let state2 = match copy_state(&state) {
        Some(v) => v,
        None => {
            return None;
        },
    };
    let mut budget: usize = usize::MAX;
    loop
        invariant
            state_wf(state),
            state_wf(state2),
            rocks@.len() == 5,
            forall|k2: int| 0 <= k2 < 5 ==> (#[trigger] rocks@[k2]).wf(),
            dirs@.len() >= 1,
        decreases budget,
    {
        if budget == 0 {
            return None;
        }
        budget = budget - 1;
        if state.current_rock >= n_rocks {
            return match state.shaft.size_i().1.checked_add(state.purged_rows) {
                Some(v) => Some(v),
                None => None,
            };
        }
        if drop_rock(&mut state, &rocks, &dirs, allow_purge).is_none() {
            return None;
        }
        if check_state_equivalent(&state, &state2) {
            break ;
        }
    }
    let cycle_period = match state.current_rock.checked_sub(state2.current_rock) {
        Some(v) => v,
        None => {
            return None;
        },
    };
    if cycle_period == 0 {
        return None;
    }
    let cycle_rows = match state.purged_rows.checked_sub(state2.purged_rows) {
        Some(v) => v,
        None => {
            return None;
        },
    };
    let needed_rocks = match n_rocks.checked_sub(state.current_rock) {
        Some(v) => v,
        None => {
            return None;
        },
    };
    let num_cycles = needed_rocks / cycle_period;
    if num_cycles > isize::MAX as usize {
        return None;
    }
    let skipped_rows = match cycle_rows.checked_mul(num_cycles as isize) {
        Some(v) => v,
        None => {
            return None;
        },
    };
    state.purged_rows = match state.purged_rows.checked_add(skipped_rows) {
        Some(v) => v,
        None => {
            return None;
        },
    };
    let skipped_rocks = match cycle_period.checked_mul(num_cycles) {
        Some(v) => v,
        None => {
            return None;
        },
    };
    state.current_rock = match state.current_rock.checked_add(skipped_rocks) {
        Some(v) => v,
        None => {
            return None;
        },
    };
    while state.current_rock < n_rocks
        invariant
            state_wf(state),
            rocks@.len() == 5,
            forall|k2: int| 0 <= k2 < 5 ==> (#[trigger] rocks@[k2]).wf(),
            dirs@.len() >= 1,
        decreases n_rocks - state.current_rock,
    {
        if drop_rock(&mut state, &rocks, &dirs, allow_purge).is_none() {
            return None;
        }
    }
    match state.shaft.size_i().1.checked_add(state.purged_rows) {
        Some(v) => Some(v),
        None => None,
    }
}

/// A cell-for-cell copy of the state, for remembering where the cycle
/// search started.
fn copy_state(state: &State) -> (r: Option<State>)
    requires
        state_wf(*state),
    ensures
        r matches Some(s) ==> state_wf(s),
{
    let (ssx, ssy) = state.shaft.size_i();
    let mut shaft = match Array2d::new(false, ssx, ssy) {
        Ok(v) => v,
        Err(_) => {
            return None;
        },
    };
    let mut y: isize = 0;
    while y < ssy
        invariant
            state_wf(*state),
            shaft.wf(),
            shaft.dim_i() == ssx,
            shaft.dim_j() == ssy,
            ssx == state.shaft.dim_i(),
            ssy == state.shaft.dim_j(),
            0 <= y,
        decreases ssy - y,
    {
        let mut x: isize = 0;
        while x < ssx
            invariant
                state_wf(*state),
                shaft.wf(),
                shaft.dim_i() == ssx,
                shaft.dim_j() == ssy,
                ssx == state.shaft.dim_i(),
                ssy == state.shaft.dim_j(),
                0 <= x,
                0 <= y,
            decreases ssx - x,
        {
            let v = match state.shaft.get((x, y)) {
                Ok(v) => *v,
                Err(_) => {
                    return None;
                },
            };
            if shaft.get_mut((x, y), v).is_err() {
                return None;
            }
            x = x + 1;
        }
        y = y + 1;
    }
    let mut accessible: Vec<bool> = Vec::new();
    let m = state.accessible.len();
    for k in 0..m
        invariant
            m == state.accessible@.len(),
            accessible@.len() == k,
    {
        accessible.push(state.accessible[k]);
    }
    Some(
        State {
            shaft,
            current_rock: state.current_rock,
            current_dir: state.current_dir,
            rock_x: state.rock_x,
            rock_y: state.rock_y,
            accessible,
            purged_rows: state.purged_rows,
        },
    )
}

} // verus!
