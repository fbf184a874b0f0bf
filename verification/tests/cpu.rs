use aoc22::aoc22d10::solve;
use aoc22::aoc22d10::solve2;
use aoc22::aoc22d10::cycle_mod;

const EXAMPLE: &str = "addx 15
addx -11
addx 6
addx -3
addx 5
addx -1
addx -8
addx 13
addx 4
noop
addx -1
addx 5
addx -1
addx 5
addx -1
addx 5
addx -1
addx 5
addx -1
addx -35
addx 1
addx 24
addx -19
addx 1
addx 16
addx -11
noop
noop
addx 21
addx -15
noop
noop
addx -3
addx 9
addx 1
addx -3
addx 8
addx 1
addx 5
noop
noop
noop
noop
noop
addx -36
noop
addx 1
addx 7
noop
noop
noop
addx 2
addx 6
noop
noop
noop
noop
noop
addx 1
noop
noop
addx 7
addx 1
noop
addx -13
addx 13
addx 7
noop
addx 1
addx -33
noop
noop
noop
addx 2
noop
noop
noop
addx 8
noop
addx -1
addx 2
addx 1
noop
addx 17
addx -9
addx 1
addx 1
addx -3
addx 11
noop
noop
addx 1
noop
addx 1
noop
noop
addx -13
addx -19
addx 1
addx 3
addx 26
addx -30
addx 12
addx -1
addx 3
addx 1
noop
noop
noop
addx -9
addx 18
addx 1
addx 2
noop
noop
addx 9
noop
noop
noop
addx -1
addx 2
addx -37
addx 1
addx 3
noop
addx 15
addx -21
addx 22
addx -6
addx 1
noop
addx 2
addx 1
noop
addx -10
noop
noop
addx 20
addx 1
addx 2
addx 2
addx -6
addx -11
noop
noop
noop";

#[test]
fn aoc22d10_test_example() {
    assert_eq!(solve(EXAMPLE).unwrap(), 13140);
}

#[test]
fn test_d10_cycle_mod() {
    assert_eq!(cycle_mod(0), 20);
    assert_eq!(cycle_mod(20), 0);
    assert_eq!(cycle_mod(21), 1);
    assert_eq!(cycle_mod(59), 39);
    assert_eq!(cycle_mod(60), 0);
}

#[test]
fn test_d10_render() {
    let screen = solve2(EXAMPLE).unwrap();
    let text = String::from_utf8(screen).unwrap();
    let first_row: &str = text.lines().next().unwrap();
    assert_eq!(first_row, "##  ##  ##  ##  ##  ##  ##  ##  ##  ##  ");
}

#[test]
fn test_d10_bad_instruction() {
    assert!(solve("frobz 3\n").is_err());
    assert!(solve("addx\n").is_err());
    assert!(solve("noop 1\n").is_err());
}
