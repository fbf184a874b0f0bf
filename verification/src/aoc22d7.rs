//! Sizing a directory tree from a command transcript.
//!
//! The input replays `cd` and `ls` commands; the tree they reveal is
//! rebuilt, then walked to sum directory sizes: once to add up all small
//! directories, once to pick the smallest directory whose removal frees
//! enough space.

use crate::parse_utils::ByteIterator;
use crate::parse_utils::consume_white_space;
use crate::parse_utils::parse_number;
use crate::parse_utils::split_lines;
use vstd::prelude::*;

verus! {

/// A directory's contents and whether an `ls` already listed it.
pub struct DirObj {
    pub listed: bool,
    pub subs: Vec<Obj>,
}

/// What a tree node is: a sized file or a directory.
pub enum ObjType {
    File(usize),
    Dir(DirObj),
}

/// One named node of the tree.
pub struct Obj {
    pub name: Vec<u8>,
    pub obj: ObjType,
}

impl Obj {
    /// A fresh, unlisted directory node.
    pub fn new_dir(name: Vec<u8>) -> (r: Obj) {
        Obj { name, obj: ObjType::Dir(DirObj { listed: false, subs: Vec::new() }) }
    }

    /// A file node of the given size.
    pub fn new_file(name: Vec<u8>, size: usize) -> (r: Obj) {
        Obj { name, obj: ObjType::File(size) }
    }

    /// Writes this node and its children to `output`, one indented line
    /// each, spending `fuel` on nesting.  Nothing when the nesting
    /// outruns the fuel.
    pub fn listing_help(&self, indent: &Vec<u8>, output: &mut Vec<u8>, fuel: u64) -> (r: Option<()>)
        ensures
            old(output)@.len() <= final(output)@.len(),
            r is Some ==> old(output)@.len() < final(output)@.len(),
        decreases fuel,
    {
        if fuel == 0 {
            return None;
        }
        push_all(output, indent);
        output.push(45);
        output.push(32);
        push_all(output, &self.name);
        match &self.obj {
            ObjType::File(size) => {
                // " (file, size=<n>)"
                push_all_slice(
                    output,
                    &[
                        32u8,
                        40u8,
                        102u8,
                        105u8,
                        108u8,
                        101u8,
                        44u8,
                        32u8,
                        115u8,
                        105u8,
                        122u8,
                        101u8,
                        61u8,
                    ],
                );
                push_decimal(output, *size);
                output.push(41);
                output.push(10);
            },
            ObjType::Dir(dir_obj) => {
                // " (dir)"
                push_all_slice(output, &[32u8, 40u8, 100u8, 105u8, 114u8, 41u8]);
                output.push(10);
                let mut my_indent: Vec<u8> = Vec::new();
                push_all(&mut my_indent, indent);
                my_indent.push(32);
                my_indent.push(32);
                let n = dir_obj.subs.len();
                for k in 0..n
                    invariant
                        n == dir_obj.subs@.len(),
                        fuel >= 1,
                        old(output)@.len() < output@.len(),
                {
                    if dir_obj.subs[k].listing_help(&my_indent, output, fuel - 1).is_none() {
                        return None;
                    }
                }
            },
        }
        Some(())
    }

    /// The whole tree rendered as text, or nothing for a tree nested past
    /// all reason.
    pub fn listing(&self) -> (r: Option<Vec<u8>>)
        ensures
            r matches Some(out) ==> out@.len() > 0,
    {
        let mut buffer: Vec<u8> = Vec::new();
        let indent: Vec<u8> = Vec::new();
        match self.listing_help(&indent, &mut buffer, u64::MAX) {
            Some(_) => Some(buffer),
            None => None,
        }
    }
}

/// Appends a copy of `src` to `out`.
fn push_all(out: &mut Vec<u8>, src: &Vec<u8>)
    ensures
        final(out)@ == old(out)@ + src@,
{
    let n = src.len();
    for k in 0..n
        invariant
            n == src@.len(),
            out@ == old(out)@ + src@.subrange(0, k as int),
    {
        out.push(src[k]);
    }
    proof {
        assert(src@.subrange(0, src@.len() as int) =~= src@);
    }
}

/// Appends a copy of the slice `src` to `out`.
fn push_all_slice(out: &mut Vec<u8>, src: &[u8])
    ensures
        final(out)@ == old(out)@ + src@,
{
    let n = src.len();
    for k in 0..n
        invariant
            n == src@.len(),
            out@ == old(out)@ + src@.subrange(0, k as int),
    {
        out.push(src[k]);
    }
    proof {
        assert(src@.subrange(0, src@.len() as int) =~= src@);
    }
}

/// Appends the decimal digits of `n` to `out`.
fn push_decimal(out: &mut Vec<u8>, n: usize)
    ensures
        old(out)@.len() < final(out)@.len(),
{
    let mut digits: Vec<u8> = Vec::new();
    let mut rest = n;
    if rest == 0 {
        out.push(48);
        return ;
    }
    while rest > 0
        invariant
            1 <= n,
            rest <= n,
            digits@.len() >= 1 || rest == n,
        decreases rest,
    {
        digits.push((rest % 10) as u8 + 48);
        rest = rest / 10;
    }
    let m = digits.len();
    let mut k = m;
    while k > 0
        invariant
            m == digits@.len(),
            k <= m,
            out@.len() >= old(out)@.len() + (m - k),
        decreases k,
    {
        k = k - 1;
        out.push(digits[k]);
    }
    proof {
        assert(m >= 1);
    }
}

/// Are two byte strings equal?
fn eq_bytes(a: &Vec<u8>, b: &[u8]) -> (r: bool)
    ensures
        r == (a@ =~= b@),
{
    if a.len() != b.len() {
        return false;
    }
    let n = a.len();
    for k in 0..n
        invariant
            n == a@.len(),
            n == b@.len(),
            forall|m: int| 0 <= m < k ==> a@[m] == b@[m],
    {
        if a[k] != b[k] {
            return false;
        }
    }
    true
}

/// Rebuilds the directory tree from the command transcript.  Nothing on a
/// malformed transcript, a doubled listing, or a `cd ..` above the root.
pub fn parse_input(input: &str) -> (r: Option<Obj>) {
    let mut root = Obj::new_dir(vec![47u8]);
    // Directories on the way down to the current one, each with the index
    // it was taken from in its parent.
    let mut stack: Vec<(Obj, usize)> = Vec::new();
    let lines = split_lines(input);
    let n = lines.len();
    let mut pos: usize = 0;
    while pos < n
        invariant
            n == lines@.len(),
            pos <= n,
        decreases n - pos,
    {
        let line = &lines[pos];
        pos = pos + 1;
        let ghost pos_entry = pos;
        if line.len() == 0 {
        } else {
        let bs = line.as_slice();
        if bs.len() >= 1 && bs[0] == 36 {
            // A command line: "$ ls" or "$ cd <name>"
            if bs.len() >= 4 && bs[1] == 32 && bs[2] == 108 && bs[3] == 115 {
                // "$ ls": read entries until the next command.
                let listed_before = {
                    let top = current_dir(&mut root, &mut stack);
                    let was = top.0;
                    was
                };
                if listed_before {
                    return None;
                }
                while pos < n
                    invariant
                        n == lines@.len(),
                        pos_entry <= pos,
                        pos <= n,
                    ensures
                        pos_entry <= pos,
                        pos <= n,
                        n == lines@.len(),
                    decreases n - pos,
                {
                    let entry = &lines[pos];
                    if entry.len() == 0 {
                        break ;
                    }
                    let ebs = entry.as_slice();
                    if ebs[0] == 36 {
                        break ;
                    }
                    pos = pos + 1;
                    let child = match parse_entry(ebs) {
                        Some(v) => v,
                        None => {
                            return None;
                        },
                    };
                    if !push_child(&mut root, &mut stack, child) {
                        return None;
                    }
                }
            } else if bs.len() >= 6 && bs[1] == 32 && bs[2] == 99 && bs[3] == 100 && bs[4] == 32 {
                // "$ cd <name>"
                if bs.len() == 7 && bs[5] == 46 && bs[6] == 46 {
                    // "cd .."
                    if !pop_dir(&mut root, &mut stack) {
                        return None;
                    }
                } else if bs.len() == 6 && bs[5] == 47 {
                    // "cd /": unwind to the root.
                    while stack.len() > 0
                        decreases stack@.len(),
                    {
                        if !pop_dir(&mut root, &mut stack) {
                            return None;
                        }
                    }
                } else {
                    let mut name: Vec<u8> = Vec::new();
                    let m = bs.len();
                    for k in 5..m
                        invariant
                            m == bs@.len(),
                    {
                        name.push(bs[k]);
                    }
                    if !enter_dir(&mut root, &mut stack, name) {
                        return None;
                    }
                }
            } else {
                return None;
            }
        } else {
            return None;
        }
        }
    }
    while stack.len() > 0
        decreases stack@.len(),
    {
        if !pop_dir(&mut root, &mut stack) {
            return None;
        }
    }
    Some(root)
}

/// Reads one `ls` entry line: a subdirectory or a sized file.
fn parse_entry(ebs: &[u8]) -> (r: Option<Obj>) {
    if ebs.len() >= 4 && ebs[0] == 100 && ebs[1] == 105 && ebs[2] == 114 && ebs[3] == 32 {
        let mut name: Vec<u8> = Vec::new();
        let m = ebs.len();
        for k in 4..m
            invariant
                m == ebs@.len(),
        {
            name.push(ebs[k]);
        }
        Some(Obj::new_dir(name))
    } else {
        let mut it = ByteIterator::new(ebs);
        let size = match parse_number(&mut it) {
            Ok(v) => v,
            Err(_) => {
                return None;
            },
        };
        if size < 0 {
            return None;
        }
        consume_white_space(&mut it);
        let mut name: Vec<u8> = Vec::new();
        loop
            invariant
                it.wf(),
            decreases it.bytes().len() - it.pos(),
        {
            match it.next() {
                Some((_, b)) => {
                    name.push(b);
                },
                None => {
                    break ;
                },
            }
        }
        if name.len() == 0 {
            return None;
        }
        Some(Obj::new_file(name, size as usize))
    }
}

/// The listed flag of the directory currently entered, set as a side
/// effect the way a fresh `ls` marks it.
fn current_dir(root: &mut Obj, stack: &mut Vec<(Obj, usize)>) -> (r: (bool, ()))
    ensures
        final(stack)@.len() == old(stack)@.len(),
{
    if stack.len() == 0 {
        match &mut root.obj {
            ObjType::Dir(d) => {
                let was = d.listed;
                d.listed = true;
                (was, ())
            },
            ObjType::File(_) => (true, ()),
        }
    } else {
        let last = stack.len() - 1;
        let (mut obj, at) = stack.remove(last);
        let was = match &mut obj.obj {
            ObjType::Dir(d) => {
                let w = d.listed;
                d.listed = true;
                w
            },
            ObjType::File(_) => true,
        };
        stack.insert(last, (obj, at));
        (was, ())
    }
}

/// Appends a freshly listed child to the directory currently entered.
fn push_child(root: &mut Obj, stack: &mut Vec<(Obj, usize)>, child: Obj) -> (r: bool)
    ensures
        final(stack)@.len() == old(stack)@.len(),
{
    if stack.len() == 0 {
        match &mut root.obj {
            ObjType::Dir(d) => {
                d.subs.push(child);
                true
            },
            ObjType::File(_) => false,
        }
    } else {
        let last = stack.len() - 1;
        let (mut obj, at) = stack.remove(last);
        let ok = match &mut obj.obj {
            ObjType::Dir(d) => {
                d.subs.push(child);
                true
            },
            ObjType::File(_) => false,
        };
        stack.insert(last, (obj, at));
        ok
    }
}

/// Steps down into the named child directory, creating it when the
/// transcript never listed it.
fn enter_dir(root: &mut Obj, stack: &mut Vec<(Obj, usize)>, name: Vec<u8>) -> (r: bool)
    ensures
        old(stack)@.len() <= final(stack)@.len() <= old(stack)@.len() + 1,
        r == false ==> final(stack)@.len() == old(stack)@.len(),
{
    // Take the named child out of the current directory, remembering its
    // position so that leaving puts it back where it was.
    if stack.len() == 0 {
        match &mut root.obj {
            ObjType::Dir(d) => {
                let m = d.subs.len();
                let mut found: usize = m;
                for k in 0..m
                    invariant
                        m == d.subs@.len(),
                        found <= m,
                {
                    if found == m {
                        if eq_bytes(&d.subs[k].name, name.as_slice()) {
                            found = k;
                        }
                    }
                }
                if found < d.subs.len() {
                    let child = d.subs.remove(found);
                    match &child.obj {
                        ObjType::Dir(_) => {
                            stack.push((child, found));
                            true
                        },
                        ObjType::File(_) => false,
                    }
                } else {
                    stack.push((Obj::new_dir(name), d.subs.len()));
                    true
                }
            },
            ObjType::File(_) => false,
        }
    } else {
        let last = stack.len() - 1;
        let (mut obj, at) = stack.remove(last);
        let mut pushed: Option<(Obj, usize)> = None;
        let ok = match &mut obj.obj {
            ObjType::Dir(d) => {
                let m = d.subs.len();
                let mut found: usize = m;
                for k in 0..m
                    invariant
                        m == d.subs@.len(),
                        found <= m,
                {
                    if found == m {
                        if eq_bytes(&d.subs[k].name, name.as_slice()) {
                            found = k;
                        }
                    }
                }
                if found < d.subs.len() {
                    let child = d.subs.remove(found);
                    match &child.obj {
                        ObjType::Dir(_) => {
                            pushed = Some((child, found));
                            true
                        },
                        ObjType::File(_) => false,
                    }
                } else {
                    pushed = Some((Obj::new_dir(name), d.subs.len()));
                    true
                }
            },
            ObjType::File(_) => false,
        };
        stack.insert(last, (obj, at));
        match pushed {
            Some(p) => {
                stack.push(p);
            },
            None => {},
        }
        ok
    }
}

/// Steps back up one level, reattaching the directory being left at the
/// position it was taken from.
fn pop_dir(root: &mut Obj, stack: &mut Vec<(Obj, usize)>) -> (r: bool)
    ensures
        final(stack)@.len() + 1 == old(stack)@.len() || (r == false && final(stack)@.len() == old(
            stack,
        )@.len()),
{
    if stack.len() == 0 {
        return false;
    }
    let last = stack.len() - 1;
    let (child, at) = stack.remove(last);
    if stack.len() == 0 {
        match &mut root.obj {
            ObjType::Dir(d) => {
                let slot = if at <= d.subs.len() {
                    at
                } else {
                    d.subs.len()
                };
                d.subs.insert(slot, child);
                true
            },
            ObjType::File(_) => false,
        }
    } else {
        let plast = stack.len() - 1;
        let (mut parent, pat) = stack.remove(plast);
        let ok = match &mut parent.obj {
            ObjType::Dir(d) => {
                let slot = if at <= d.subs.len() {
                    at
                } else {
                    d.subs.len()
                };
                d.subs.insert(slot, child);
                true
            },
            ObjType::File(_) => false,
        };
        stack.insert(plast, (parent, pat));
        ok
    }
}

/// Sums the sizes of all directories of at most a hundred thousand units,
/// also yielding the node's own total size.  Nothing on overflow or a
/// tree nested past the fuel.
fn walk_p1(obj: &Obj, fuel: u64) -> (r: Option<(usize, usize)>)
    decreases fuel,
{
    if fuel == 0 {
        return None;
    }
    match &obj.obj {
        ObjType::File(size) => Some((0, *size)),
        ObjType::Dir(dir_obj) => {
            let mut total_sol: usize = 0;
            let mut total_self: usize = 0;
            let n = dir_obj.subs.len();
            for k in 0..n
                invariant
                    n == dir_obj.subs@.len(),
                    fuel >= 1,
            {
                let (sol_bit, sz_bit) = match walk_p1(&dir_obj.subs[k], fuel - 1) {
                    Some(v) => v,
                    None => {
                        return None;
                    },
                };
                total_sol = match total_sol.checked_add(sol_bit) {
                    Some(v) => v,
                    None => {
                        return None;
                    },
                };
                total_self = match total_self.checked_add(sz_bit) {
                    Some(v) => v,
                    None => {
                        return None;
                    },
                };
            }
            if total_self <= 100000 {
                match total_sol.checked_add(total_self) {
                    Some(v) => Some((v, total_self)),
                    None => None,
                }
            } else {
                Some((total_sol, total_self))
            }
        },
    }
}

/// The sum of all small directory sizes.
pub fn solvep1(root: &Obj) -> (r: Option<usize>) {
    match walk_p1(root, u64::MAX) {
        Some((sol, _)) => Some(sol),
        None => None,
    }
}

/// The size of the smallest directory of at least `target` units, also
/// yielding the node's own total size.
fn walk_p2(obj: &Obj, target: usize, fuel: u64) -> (r: Option<(usize, usize)>)
    decreases fuel,
{
    if fuel == 0 {
        return None;
    }
    match &obj.obj {
        ObjType::File(size) => Some((usize::MAX, *size)),
        ObjType::Dir(dir_obj) => {
            let mut best: usize = usize::MAX;
            let mut total_self: usize = 0;
            let n = dir_obj.subs.len();
            for k in 0..n
                invariant
                    n == dir_obj.subs@.len(),
                    fuel >= 1,
            {
                let (sol_bit, sz_bit) = match walk_p2(&dir_obj.subs[k], target, fuel - 1) {
                    Some(v) => v,
                    None => {
                        return None;
                    },
                };
                if sol_bit >= target && sol_bit < best {
                    best = sol_bit;
                }
                total_self = match total_self.checked_add(sz_bit) {
                    Some(v) => v,
                    None => {
                        return None;
                    },
                };
            }
            if total_self >= target && total_self < best {
                best = total_self;
            }
            Some((best, total_self))
        },
    }
}

/// The size of the smallest directory whose removal frees enough space
/// for the update.
pub fn solvep2(root: &Obj) -> (r: Option<usize>) {
    let total_used = match walk_p1(root, u64::MAX) {
        Some((_, t)) => t,
        None => {
            return None;
        },
    };
    let total_free = match 70000000usize.checked_sub(total_used) {
        Some(v) => v,
        None => {
            return None;
        },
    };
    let target = match 30000000usize.checked_sub(total_free) {
        Some(v) => v,
        None => {
            return None;
        },
    };
    match walk_p2(root, target, u64::MAX) {
        Some((sol, _)) => Some(sol),
        None => None,
    }
}

} // verus!
