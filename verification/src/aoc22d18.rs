//! Surface area of a lava droplet made of unit cubes.
//!
//! The cubes live in a three dimensional grid; the first answer counts
//! cube faces not touching another cube, the second flood-fills from the
//! outside first so that faces of enclosed air pockets do not count.

use crate::arr_nd::ArrayND;
use crate::parse_utils::ByteIterator;
use crate::parse_utils::consume_sequence;
use crate::parse_utils::parse_number;
use crate::parse_utils::split_lines;
use vstd::prelude::*;

verus! {

/// The componentwise sum of two coordinates, or nothing on overflow.
fn add_coords(a: &[isize; 3], b: &[isize; 3]) -> (r: Option<[isize; 3]>)
    ensures
        match r {
            Some(c) => forall|d: int| 0 <= d < 3 ==> #[trigger] c@[d] == a@[d] + b@[d],
            None => true,
        },
{
    let x = match a[0].checked_add(b[0]) {
        Some(v) => v,
        None => {
            return None;
        },
    };
    let y = match a[1].checked_add(b[1]) {
        Some(v) => v,
        None => {
            return None;
        },
    };
    let z = match a[2].checked_add(b[2]) {
        Some(v) => v,
        None => {
            return None;
        },
    };
    let c = [x, y, z];
    proof {
        assert(c@[0] == a@[0] + b@[0]);
        assert(c@[1] == a@[1] + b@[1]);
        assert(c@[2] == a@[2] + b@[2]);
    }
    Some(c)
}

/// Is the coordinate inside the box spanned by `size`?
fn inside(coord: &[isize; 3], size: &[isize; 3]) -> (r: bool)
    ensures
        r == forall|d: int| 0 <= d < 3 ==> 0 <= #[trigger] coord@[d] < size@[d],
{
    for i in 0..3usize
        invariant
            forall|d: int| 0 <= d < i ==> 0 <= #[trigger] coord@[d] < size@[d],
    {
        if coord[i] < 0 {
            return false;
        }
        if coord[i] >= size[i] {
            return false;
        }
    }
    true
}

/// The componentwise maximum of two coordinate tuples.
fn multi_max<const N: usize>(a: [isize; N], b: &[isize; N]) -> (r: [isize; N])
    ensures
        forall|d: int|
            0 <= d < N ==> #[trigger] r@[d] == if a@[d] >= b@[d] {
                a@[d]
            } else {
                b@[d]
            },
{
    let mut out = a;
    for i in 0..N
        invariant
            out@.len() == N,
            forall|d: int|
                0 <= d < i ==> #[trigger] out@[d] == if a@[d] >= b@[d] {
                    a@[d]
                } else {
                    b@[d]
                },
            forall|d: int| i <= d < N ==> #[trigger] out@[d] == a@[d],
    {
        if out[i] < b[i] {
            out[i] = b[i];
        }
    }
    out
}

/// One of the six face-neighbour offsets.
fn neighbour(k: usize) -> (r: [isize; 3])
    requires
        k < 6,
    ensures
        forall|d: int| 0 <= d < 3 ==> -1 <= #[trigger] r@[d] <= 1,
{
    let r: [isize; 3] = match k {
        0 => [-1, 0, 0],
        1 => [1, 0, 0],
        2 => [0, -1, 0],
        3 => [0, 1, 0],
        4 => [0, 0, -1],
        _ => [0, 0, 1],
    };
    proof {
        assert(forall|d: int| 0 <= d < 3 ==> -1 <= #[trigger] r@[d] <= 1);
    }
    r
}

/// Reads the cube coordinates and marks them in a grid just large enough
/// to hold them.  Nothing on malformed input, a negative coordinate, or a
/// grid too large to address.
pub fn parse(source: &str) -> (r: Option<ArrayND<bool, 3>>)
    ensures
        match r {
            Some(blocks) => blocks.wf(),
            None => true,
        },
{
    let lines = split_lines(source);
    let mut coords: Vec<[isize; 3]> = Vec::new();
    let n = lines.len();
    for li in 0..n
        invariant
            n == lines@.len(),
    {
        let line = &lines[li];
        if line.len() > 0 {
            let mut it = ByteIterator::new(line.as_slice());
            let a = match parse_number(&mut it) {
                Ok(v) => v,
                Err(_) => {
                    return None;
                },
            };
            match consume_sequence(&mut it, &[44u8]) {
                Ok(true) => {},
                _ => {
                    return None;
                },
            }
            let b = match parse_number(&mut it) {
                Ok(v) => v,
                Err(_) => {
                    return None;
                },
            };
            match consume_sequence(&mut it, &[44u8]) {
                Ok(true) => {},
                _ => {
                    return None;
                },
            }
            let c = match parse_number(&mut it) {
                Ok(v) => v,
                Err(_) => {
                    return None;
                },
            };
            coords.push([a, b, c]);
        }
    }
    let mut size: [isize; 3] = [0, 0, 0];
    let nc = coords.len();
    for ci in 0..nc
        invariant
            nc == coords@.len(),
    {
        size = multi_max(size, &coords[ci]);
    }
    let mut full_size: [isize; 3] = [0, 0, 0];
    for d in 0..3usize
        invariant
            size@.len() == 3,
            full_size@.len() == 3,
    {
        full_size[d] = match size[d].checked_add(1) {
            Some(v) => v,
            None => {
                return None;
            },
        };
    }
    let mut output = match ArrayND::new(false, full_size) {
        Ok(v) => v,
        Err(_) => {
            return None;
        },
    };
    for ci in 0..nc
        invariant
            nc == coords@.len(),
            output.wf(),
    {
        match output.get_mut(&coords[ci], true) {
            Ok(_) => {},
            Err(_) => {
                return None;
            },
        }
    }
    Some(output)
}

/// Flood-fills open air from `start`: cells reachable without crossing a
/// cube are cleared in `new_blocks`.  Works through an explicit stack with
/// a step budget; nothing if the budget runs out.
fn flood_fill_holes(
    start: [isize; 3],
    blocks: &ArrayND<bool, 3>,
    new_blocks: &mut ArrayND<bool, 3>,
) -> (r: Option<()>)
    requires
        blocks.wf(),
        old(new_blocks).wf(),
        old(new_blocks).extents() == blocks.extents(),
    ensures
        final(new_blocks).wf(),
        final(new_blocks).extents() == blocks.extents(),
{
    let size = blocks.size_i();
    let mut stack: Vec<[isize; 3]> = Vec::new();
    stack.push(start);
    let mut budget: usize = usize::MAX;
    loop
        invariant
            blocks.wf(),
            new_blocks.wf(),
            new_blocks.extents() == blocks.extents(),
            size@.len() == 3,
        decreases budget,
    {
        let top = match stack.pop() {
            Some(v) => v,
            None => {
                return Some(());
            },
        };
        if budget == 0 {
            return None;
        }
        budget = budget - 1;
        if !inside(&top, &size) {
            continue ;
        }
        let blocked = match blocks.get(&top) {
            Ok(v) => *v,
            Err(_) => {
                continue ;
            },
        };
        let still_set = match new_blocks.get(&top) {
            Ok(v) => *v,
            Err(_) => {
                continue ;
            },
        };
        if blocked || !still_set {
            continue ;
        }
        match new_blocks.get_mut(&top, false) {
            Ok(_) => {},
            Err(_) => {
                continue ;
            },
        }
        for k in 0..6usize
            invariant
                size@.len() == 3,
        {
            let delta = neighbour(k);
            match add_coords(&top, &delta) {
                Some(c) => {
                    stack.push(c);
                },
                None => {},
            }
        }
    }
}

/// A copy of the grid in which everything is solid except the air
/// reachable from the box's faces: enclosed pockets stay solid.
pub fn remove_pockets(blocks: &ArrayND<bool, 3>) -> (r: Option<ArrayND<bool, 3>>)
    requires
        blocks.wf(),
    ensures
        match r {
            Some(out) => out.wf(),
            None => true,
        },
{
    let mut output = match ArrayND::newu(true, blocks.size_u()) {
        Ok(v) => v,
        Err(_) => {
            return None;
        },
    };
    proof {
        assert(output.extents() == blocks.extents());
    }
    let size = blocks.size_i();
    let mut i: isize = 0;
    while i < size[0]
        invariant
            blocks.wf(),
            output.wf(),
            output.extents() == blocks.extents(),
            size@.len() == 3,
        decreases size@[0] - i,
    {
        let mut j: isize = 0;
        while j < size[1]
            invariant
                blocks.wf(),
                output.wf(),
                output.extents() == blocks.extents(),
                size@.len() == 3,
            decreases size@[1] - j,
        {
            let back = match size[2].checked_sub(1) {
                Some(v) => v,
                None => {
                    return None;
                },
            };
            if flood_fill_holes([i, j, 0], blocks, &mut output).is_none() {
                return None;
            }
            if flood_fill_holes([i, j, back], blocks, &mut output).is_none() {
                return None;
            }
            j = j + 1;
        }
        i = i + 1;
    }
    let mut j: isize = 0;
    while j < size[0]
        invariant
            blocks.wf(),
            output.wf(),
            output.extents() == blocks.extents(),
            size@.len() == 3,
        decreases size@[0] - j,
    {
        let mut k: isize = 0;
        while k < size[1]
            invariant
                blocks.wf(),
                output.wf(),
                output.extents() == blocks.extents(),
                size@.len() == 3,
            decreases size@[1] - k,
        {
            let right = match size[0].checked_sub(1) {
                Some(v) => v,
                None => {
                    return None;
                },
            };
            if flood_fill_holes([0, j, k], blocks, &mut output).is_none() {
                return None;
            }
            if flood_fill_holes([right, j, k], blocks, &mut output).is_none() {
                return None;
            }
            k = k + 1;
        }
        j = j + 1;
    }
    let mut i: isize = 0;
    while i < size[0]
        invariant
            blocks.wf(),
            output.wf(),
            output.extents() == blocks.extents(),
            size@.len() == 3,
        decreases size@[0] - i,
    {
        let mut k: isize = 0;
        while k < size[1]
            invariant
                blocks.wf(),
                output.wf(),
                output.extents() == blocks.extents(),
                size@.len() == 3,
            decreases size@[1] - k,
        {
            let top = match size[1].checked_sub(1) {
                Some(v) => v,
                None => {
                    return None;
                },
            };
            if flood_fill_holes([i, 0, k], blocks, &mut output).is_none() {
                return None;
            }
            if flood_fill_holes([i, top, k], blocks, &mut output).is_none() {
                return None;
            }
            k = k + 1;
        }
        i = i + 1;
    }
    Some(output)
}

/// Counts exposed cube faces; with `extern_only` set, faces towards
/// enclosed air pockets do not count.  Nothing on malformed input or an
/// overflowing count.
pub fn solve(input: &str, extern_only: bool) -> (r: Option<usize>) {
    let parsed = match parse(input) {
        Some(v) => v,
        None => {
            return None;
        },
    };
    let blocks = if extern_only {
        match remove_pockets(&parsed) {
            Some(v) => v,
            None => {
                return None;
            },
        }
    } else {
        parsed
    };
    let size = blocks.size_i();
    let mut faces: usize = 0;
    let mut i: isize = 0;
    while i < size[0]
        invariant
            blocks.wf(),
            size@.len() == 3,
        decreases size@[0] - i,
    {
        let mut j: isize = 0;
        while j < size[1]
            invariant
                blocks.wf(),
                size@.len() == 3,
            decreases size@[1] - j,
        {
            let mut k: isize = 0;
            while k < size[2]
                invariant
                    blocks.wf(),
                    size@.len() == 3,
                decreases size@[2] - k,
            {
                let coord = [i, j, k];
                let here = match blocks.get(&coord) {
                    Ok(v) => *v,
                    Err(_) => {
                        return None;
                    },
                };
                if here {
                    for nk in 0..6usize
                        invariant
                            blocks.wf(),
                            size@.len() == 3,
                    {
                        let delta = neighbour(nk);
                        let ind = match add_coords(&coord, &delta) {
                            Some(c) => c,
                            None => {
                                return None;
                            },
                        };
                        let mut exposed = true;
                        if inside(&ind, &size) {
                            let other = match blocks.get(&ind) {
                                Ok(v) => *v,
                                Err(_) => {
                                    return None;
                                },
                            };
                            exposed = !other;
                        }
                        if exposed {
                            faces = match faces.checked_add(1) {
                                Some(v) => v,
                                None => {
                                    return None;
                                },
                            };
                        }
                    }
                }
                k = k + 1;
            }
            j = j + 1;
        }
        i = i + 1;
    }
    Some(faces)
}

} // verus!
