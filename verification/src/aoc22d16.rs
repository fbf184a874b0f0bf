//! Opening pressure valves in a tunnel maze.
//!
//! Valves with flow rates sit in rooms joined by tunnels; opening a valve
//! takes a minute, walking a tunnel another.  The maze is first reduced to
//! the rooms that matter with an all-pairs travel-time table, then a
//! depth-first search over valve-opening orders finds the most pressure
//! one or two agents can release in the allotted minutes.

use crate::arr2d::Array2d;
use crate::parse_utils::ByteIterator;
use crate::parse_utils::consume_sequence;
use crate::parse_utils::parse_number;
use crate::parse_utils::split_lines;
use vstd::prelude::*;

verus! {

/// One room as parsed: its flow rate, its tunnels, and its two-letter
/// code.
pub struct RoomRaw {
    pub flow: isize,
    pub tunnels: Vec<usize>,
    pub name: (u8, u8),
}

/// The parsed maze: the sum of all flow rates, the index of the starting
/// room, and the rooms.
pub struct ProblemRaw {
    pub total_flow_rate: isize,
    pub aa_index: usize,
    pub rooms: Vec<RoomRaw>,
}

/// Reads a two-letter room code.
fn parse_room_code(it: &mut ByteIterator) -> (r: Option<(u8, u8)>)
    requires
        old(it).wf(),
    ensures
        final(it).wf(),
        final(it).bytes() == old(it).bytes(),
        old(it).pos() <= final(it).pos(),
        r is Some ==> old(it).pos() < final(it).pos(),
{
    let a = match it.next() {
        Some((_, v)) => v,
        None => {
            return None;
        },
    };
    let b = match it.next() {
        Some((_, v)) => v,
        None => {
            return None;
        },
    };
    Some((a, b))
}

/// The position of a room code in the directory.
fn find_room(directory: &Vec<(u8, u8)>, code: (u8, u8)) -> (r: Option<usize>)
    ensures
        r matches Some(i) ==> i < directory@.len(),
{
    let n = directory.len();
    for i in 0..n
        invariant
            n == directory@.len(),
    {
        let (a, b) = directory[i];
        if a == code.0 && b == code.1 {
            return Some(i);
        }
    }
    None
}

/// Reads the whole maze: every room's flow rate, then every room's
/// tunnels.  Nothing on malformed input, a doubled room code, an unknown
/// tunnel target, or a missing starting room.
pub fn parse(source: &str) -> (r: Option<ProblemRaw>) {
    let mut rooms: Vec<RoomRaw> = Vec::new();
    let mut directory: Vec<(u8, u8)> = Vec::new();
    let mut aa: Option<usize> = None;
    let mut total_flow_rate: isize = 0;
    let lines = split_lines(source);
    let n = lines.len();
    for li in 0..n
        invariant
            n == lines@.len(),
            directory@.len() == rooms@.len(),
    {
        let line = &lines[li];
        if line.len() > 0 {
            let mut it = ByteIterator::new(line.as_slice());
            // "Valve "
            if !expect(&mut it, &[86u8, 97u8, 108u8, 118u8, 101u8, 32u8]) {
                return None;
            }
            let room_code = match parse_room_code(&mut it) {
                Some(v) => v,
                None => {
                    return None;
                },
            };
            // " has flow rate="
            if !expect(
                &mut it,
                &[
                    32u8,
                    104u8,
                    97u8,
                    115u8,
                    32u8,
                    102u8,
                    108u8,
                    111u8,
                    119u8,
                    32u8,
                    114u8,
                    97u8,
                    116u8,
                    101u8,
                    61u8,
                ],
            ) {
                return None;
            }
            let flow_rate = match parse_number(&mut it) {
                Ok(v) => v,
                Err(_) => {
                    return None;
                },
            };
            if find_room(&directory, room_code).is_some() {
                return None;
            }
            if room_code.0 == 65 && room_code.1 == 65 {
                aa = Some(rooms.len());
            }
            total_flow_rate = match total_flow_rate.checked_add(flow_rate) {
                Some(v) => v,
                None => {
                    return None;
                },
            };
            directory.push(room_code);
            rooms.push(RoomRaw { name: room_code, flow: flow_rate, tunnels: Vec::new() });
        }
    }
    let mut index: usize = 0;
    for li in 0..n
        invariant
            n == lines@.len(),
            directory@.len() == rooms@.len(),
    {
        let line = &lines[li];
        if line.len() > 0 {
            let mut it = ByteIterator::new(line.as_slice());
            if !expect(&mut it, &[86u8, 97u8, 108u8, 118u8, 101u8, 32u8]) {
                return None;
            }
            if parse_room_code(&mut it).is_none() {
                return None;
            }
            if !expect(
                &mut it,
                &[
                    32u8,
                    104u8,
                    97u8,
                    115u8,
                    32u8,
                    102u8,
                    108u8,
                    111u8,
                    119u8,
                    32u8,
                    114u8,
                    97u8,
                    116u8,
                    101u8,
                    61u8,
                ],
            ) {
                return None;
            }
            if parse_number(&mut it).is_err() {
                return None;
            }
            // "; tunnel"
            if !expect(&mut it, &[59u8, 32u8, 116u8, 117u8, 110u8, 110u8, 101u8, 108u8]) {
                return None;
            }
            // "s lead to valves " or " leads to valve "
            match consume_sequence(
                &mut it,
                &[
                    115u8,
                    32u8,
                    108u8,
                    101u8,
                    97u8,
                    100u8,
                    32u8,
                    116u8,
                    111u8,
                    32u8,
                    118u8,
                    97u8,
                    108u8,
                    118u8,
                    101u8,
                    115u8,
                    32u8,
                ],
            ) {
                Ok(true) => {},
                Ok(false) => {
                    if !expect(
                        &mut it,
                        &[
                            32u8,
                            108u8,
                            101u8,
                            97u8,
                            100u8,
                            115u8,
                            32u8,
                            116u8,
                            111u8,
                            32u8,
                            118u8,
                            97u8,
                            108u8,
                            118u8,
                            101u8,
                            32u8,
                        ],
                    ) {
                        return None;
                    }
                },
                Err(_) => {
                    return None;
                },
            }
            if index >= rooms.len() {
                return None;
            }
            let mut tunnels: Vec<usize> = Vec::new();
            loop
                invariant
                    it.wf(),
                    directory@.len() == rooms@.len(),
                decreases it.bytes().len() - it.pos(),
            {
                let room_code = match parse_room_code(&mut it) {
                    Some(v) => v,
                    None => {
                        return None;
                    },
                };
                let target = match find_room(&directory, room_code) {
                    Some(v) => v,
                    None => {
                        return None;
                    },
                };
                tunnels.push(target);
                match consume_sequence(&mut it, &[44u8, 32u8]) {
                    Ok(true) => {},
                    Ok(false) => {
                        break ;
                    },
                    Err(_) => {
                        return None;
                    },
                }
            }
            let mut room = rooms.remove(index);
            room.tunnels = tunnels;
            rooms.insert(index, room);
            index = index + 1;
        }
    }
    let aa_index = match aa {
        Some(v) => v,
        None => {
            return None;
        },
    };
    Some(ProblemRaw { total_flow_rate, aa_index, rooms })
}

/// The reduced maze: only rooms that matter, with an all-pairs travel-time
/// table.
pub struct Problem {
    pub num_rounds: isize,
    pub total_flow_rate: isize,
    pub aa_index: usize,
    pub rooms: Vec<isize>,
    pub adjacency: Array2d<isize>,
}

/// Keeps only the starting room and rooms with flow: yields the new
/// starting index, the old-to-new index mapping with dropped rooms marked,
/// and the kept rooms' flow rates.
pub fn remap_rooms(raw: &ProblemRaw) -> (r: (usize, Vec<usize>, Vec<isize>))
    ensures
        r.1@.len() == raw.rooms@.len(),
{
    let mut remapping: Vec<usize> = Vec::new();
    let mut new_rooms: Vec<isize> = Vec::new();
    let mut new_aa_index: usize = usize::MAX;
    let n = raw.rooms.len();
    for idx in 0..n
        invariant
            n == raw.rooms@.len(),
            remapping@.len() == idx,
    {
        if idx == raw.aa_index {
            new_aa_index = new_rooms.len();
        }
        if raw.rooms[idx].flow == 0 && idx != raw.aa_index {
            remapping.push(usize::MAX);
        } else {
            remapping.push(new_rooms.len());
            new_rooms.push(raw.rooms[idx].flow);
        }
    }
    (new_aa_index, remapping, new_rooms)
}

/// The travel times from `index` to every room of the raw maze, by
/// breadth-first relaxation.  Nothing if the relaxation outruns its step
/// budget.
pub fn shortest_paths(index: usize, raw: &ProblemRaw) -> (r: Option<Vec<isize>>)
    ensures
        r matches Some(out) ==> out@.len() == raw.rooms@.len(),
{
    let n = raw.rooms.len();
    let mut output: Vec<isize> = Vec::new();
    for i in 0..n
        invariant
            n == raw.rooms@.len(),
            output@.len() == i,
    {
        if i == index {
            output.push(0);
        } else {
            output.push(isize::MAX);
        }
    }
    let mut queue: Vec<usize> = Vec::new();
    queue.push(index);
    let mut budget: usize = usize::MAX;
    loop
        invariant
            n == raw.rooms@.len(),
            output@.len() == n,
        decreases budget,
    {
        if budget == 0 {
            return None;
        }
        budget = budget - 1;
        let current = match queue.pop() {
            Some(v) => v,
            None => {
                break ;
            },
        };
        if current >= n {
            return None;
        }
        let current_time = output[current];
        if current_time == isize::MAX {
            return None;
        }
        let m = raw.rooms[current].tunnels.len();
        for t in 0..m
            invariant
                n == raw.rooms@.len(),
                output@.len() == n,
                current < n,
                current_time < isize::MAX,
                m == raw.rooms@[current as int].tunnels@.len(),
        {
            let nb = raw.rooms[current].tunnels[t];
            if nb >= n {
                return None;
            }
            let n_time = output[nb];
            if current_time + 1 < n_time {
                output.set(nb, current_time + 1);
                queue.push(nb);
            }
        }
    }
    Some(output)
}

/// Builds the reduced maze with its travel-time table.
fn reduce_problem(raw: &ProblemRaw, num_rounds: isize) -> (r: Option<Problem>)
    ensures
        r matches Some(p) ==> p.adjacency.wf(),
{
    let (new_aa_index, remapping, new_rooms) = remap_rooms(raw);
    let mut adj = match Array2d::newu(isize::MAX, new_rooms.len(), new_rooms.len()) {
        Ok(v) => v,
        Err(_) => {
            return None;
        },
    };
    let nold = remapping.len();
    for old in 0..nold
        invariant
            nold == remapping@.len(),
            nold == raw.rooms@.len(),
            adj.wf(),
    {
        let new = remapping[old];
        if new != usize::MAX {
            let paths = match shortest_paths(old, raw) {
                Some(v) => v,
                None => {
                    return None;
                },
            };
            for old2 in 0..nold
                invariant
                    nold == remapping@.len(),
                    nold == raw.rooms@.len(),
                    paths@.len() == nold,
                    adj.wf(),
            {
                let new2 = remapping[old2];
                if new2 != usize::MAX {
                    if adj.get_mutu((new, new2), paths[old2]).is_err() {
                        return None;
                    }
                }
            }
        }
    }
    Some(
        Problem {
            num_rounds,
            total_flow_rate: raw.total_flow_rate,
            aa_index: new_aa_index,
            rooms: new_rooms,
            adjacency: adj,
        },
    )
}

/// Consumes a fixed keyword, failing on any deviation.
fn expect(it: &mut ByteIterator, word: &[u8]) -> (r: bool)
    requires
        old(it).wf(),
        word@.len() >= 1,
    ensures
        final(it).wf(),
        final(it).bytes() == old(it).bytes(),
        old(it).pos() <= final(it).pos(),
{
    match consume_sequence(it, word) {
        Ok(true) => true,
        _ => false,
    }
}

/// One searching agent: the valve it walks towards, that valve's rate,
/// and when it gets there.
#[derive(Clone, Copy, Debug)]
pub struct Agent {
    pub target_room: usize,
    pub target_room_rate: isize,
    pub arrival_time: isize,
}

/// One partial plan: every agent's position in time, the minutes spent,
/// the rate currently flowing and the pressure already released.
#[derive(Clone, Copy, Debug)]
pub struct Solution<const N_AGENTS: usize> {
    pub agents: [Agent; N_AGENTS],
    pub current_time: isize,
    pub current_rate: isize,
    pub pressure_released: isize,
}

impl<const N_AGENTS: usize> Solution<N_AGENTS> {
    /// The empty plan: every agent stands in the starting room at minute
    /// zero.
    pub fn new(start_room: usize) -> (r: Solution<N_AGENTS>) {
        Solution {
            agents: [Agent { target_room: start_room, target_room_rate: 0, arrival_time: 0 };
                N_AGENTS],
            current_time: 0,
            current_rate: 0,
            pressure_released: 0,
        }
    }
}

/// Is the valve already being opened by some agent?
pub fn valve_is_open(valve: usize, open_valves_stacks: &Vec<Vec<usize>>) -> (r: bool) {
    let n = open_valves_stacks.len();
    for i in 0..n
        invariant
            n == open_valves_stacks@.len(),
    {
        let stack = &open_valves_stacks[i];
        let m = stack.len();
        for k in 0..m
            invariant
                m == stack@.len(),
        {
            if stack[k] == valve {
                return true;
            }
        }
    }
    false
}

/// The larger of two values.
fn max_isize(a: isize, b: isize) -> (r: isize)
    ensures
        r == if a >= b {
            a
        } else {
            b
        },
{
    if a >= b {
        a
    } else {
        b
    }
}

/// Depth-first search over valve-opening orders: the earliest-arriving
/// agent either walks to some closed valve and opens it, or retires.
/// Yields the most pressure released on any explored completion, spending
/// `fuel` on nesting; nothing on overflow or when the fuel runs out.
pub fn depth_first_search<const N_AGENTS: usize>(
    best: isize,
    solution: Solution<N_AGENTS>,
    open_valves_stacks: &mut Vec<Vec<usize>>,
    problem: &Problem,
    fuel: u64,
) -> (r: Option<isize>)
    requires
        problem.adjacency.wf(),
    ensures
        final(open_valves_stacks)@.len() == old(open_valves_stacks)@.len(),
    decreases fuel,
{
    if fuel == 0 {
        return None;
    }
    if N_AGENTS == 0 {
        return Some(best);
    }
    let mut agent_i: usize = 0;
    let mut best_time: isize = isize::MAX;
    for i in 0..N_AGENTS
        invariant
            agent_i < N_AGENTS,
    {
        if solution.agents[i].arrival_time < best_time {
            agent_i = i;
            best_time = solution.agents[i].arrival_time;
        }
    }
    let agent = solution.agents[agent_i];
    if agent.arrival_time >= problem.num_rounds {
        let dt = match problem.num_rounds.checked_sub(solution.current_time) {
            Some(v) => v,
            None => {
                return None;
            },
        };
        let extra = match dt.checked_mul(solution.current_rate) {
            Some(v) => v,
            None => {
                return None;
            },
        };
        let pressure_released = match solution.pressure_released.checked_add(extra) {
            Some(v) => v,
            None => {
                return None;
            },
        };
        return Some(max_isize(pressure_released, best));
    }
    let dt = match agent.arrival_time.checked_sub(solution.current_time) {
        Some(v) => v,
        None => {
            return None;
        },
    };
    let released = match dt.checked_mul(solution.current_rate) {
        Some(v) => v,
        None => {
            return None;
        },
    };
    let new_pressure = match solution.pressure_released.checked_add(released) {
        Some(v) => v,
        None => {
            return None;
        },
    };
    let new_rate = match solution.current_rate.checked_add(agent.target_room_rate) {
        Some(v) => v,
        None => {
            return None;
        },
    };
    let solution = Solution {
        agents: solution.agents,
        current_time: agent.arrival_time,
        current_rate: new_rate,
        pressure_released: new_pressure,
    };
    let remaining = match problem.num_rounds.checked_sub(agent.arrival_time) {
        Some(v) => v,
        None => {
            return None;
        },
    };
    if solution.current_rate == problem.total_flow_rate {
        let extra = match remaining.checked_mul(solution.current_rate) {
            Some(v) => v,
            None => {
                return None;
            },
        };
        let total_pressure = match solution.pressure_released.checked_add(extra) {
            Some(v) => v,
            None => {
                return None;
            },
        };
        return Some(max_isize(total_pressure, best));
    }
    let mut best = best;
    let nr = problem.rooms.len();
    for new_room in 0..nr
        invariant
            nr == problem.rooms@.len(),
            problem.adjacency.wf(),
            open_valves_stacks@.len() == old(open_valves_stacks)@.len(),
            agent_i < N_AGENTS,
            fuel >= 1,
    {
        if !valve_is_open(new_room, open_valves_stacks) {
            let move_time = match problem.adjacency.getu((agent.target_room, new_room)) {
                Ok(v) => *v,
                Err(_) => {
                    return None;
                },
            };
            let arrival = match solution.current_time.checked_add(move_time) {
                Some(v) => {
                    match v.checked_add(1) {
                        Some(v2) => v2,
                        None => {
                            return None;
                        },
                    }
                },
                None => {
                    return None;
                },
            };
            if arrival < problem.num_rounds {
                let mut new_agents = solution.agents;
                new_agents[agent_i] = Agent {
                    target_room: new_room,
                    target_room_rate: problem.rooms[new_room],
                    arrival_time: arrival,
                };
                let new_solution = Solution {
                    agents: new_agents,
                    current_time: solution.current_time,
                    current_rate: solution.current_rate,
                    pressure_released: solution.pressure_released,
                };
                if agent_i >= open_valves_stacks.len() {
                    return None;
                }
                let mut stack = open_valves_stacks.remove(agent_i);
                stack.push(new_room);
                open_valves_stacks.insert(agent_i, stack);
                let sub = match depth_first_search(
                    best,
                    new_solution,
                    open_valves_stacks,
                    problem,
                    fuel - 1,
                ) {
                    Some(v) => v,
                    None => {
                        return None;
                    },
                };
                best = max_isize(best, sub);
                if agent_i >= open_valves_stacks.len() {
                    return None;
                }
                let mut stack = open_valves_stacks.remove(agent_i);
                let popped = stack.pop();
                open_valves_stacks.insert(agent_i, stack);
                match popped {
                    Some(v) => {
                        if v != new_room {
                            return None;
                        }
                    },
                    None => {
                        return None;
                    },
                }
            }
        }
    }
    let mut new_agents = solution.agents;
    new_agents[agent_i] = Agent { target_room: usize::MAX, target_room_rate: 0, arrival_time: isize::MAX };
    let new_solution = Solution {
        agents: new_agents,
        current_time: solution.current_time,
        current_rate: solution.current_rate,
        pressure_released: solution.pressure_released,
    };
    let sub = match depth_first_search(best, new_solution, open_valves_stacks, problem, fuel - 1) {
        Some(v) => v,
        None => {
            return None;
        },
    };
    Some(max_isize(best, sub))
}

/// The most pressure `N_AGENTS` agents can release in `num_rounds`
/// minutes.  Nothing on malformed input or overflow.
pub fn solve<const N_AGENTS: usize>(input: &str, num_rounds: isize) -> (r: Option<isize>) {
    let problem_raw = match parse(input) {
        Some(v) => v,
        None => {
            return None;
        },
    };
    let problem = match reduce_problem(&problem_raw, num_rounds) {
        Some(v) => v,
        None => {
            return None;
        },
    };
    let mut room_stacks: Vec<Vec<usize>> = Vec::new();
    for _k in 0..N_AGENTS
        invariant
            room_stacks@.len() == _k,
    {
        room_stacks.push(Vec::new());
    }
    let output = match depth_first_search::<N_AGENTS>(
        0,
        Solution::new(problem.aa_index),
        &mut room_stacks,
        &problem,
        u64::MAX,
    ) {
        Some(v) => v,
        None => {
            return None;
        },
    };
    let ns = room_stacks.len();
    for k in 0..ns
        invariant
            ns == room_stacks@.len(),
    {
        if room_stacks[k].len() != 0 {
            return None;
        }
    }
    Some(output)
}

} // verus!
