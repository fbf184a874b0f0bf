use aoc22::aoc22d2::Play;
use aoc22::aoc22d2::resolve_game_pt1;
use aoc22::aoc22d2::resolve_game_pt2;
use aoc22::aoc22d2::score_of_game;
use aoc22::aoc22d3::read_rucksack;
use aoc22::aoc22d3::RucksackError;

#[test]
fn test_score_of_game() {
    assert_eq!(score_of_game(Play::Rock, Play::Paper), 6);
    assert_eq!(score_of_game(Play::Paper, Play::Rock), 0);
    assert_eq!(score_of_game(Play::Scissors, Play::Rock), 6);
    assert_eq!(score_of_game(Play::Rock, Play::Scissors), 0);
}

#[test]
fn test_resolve_game() {
    assert_eq!(resolve_game_pt1(0, "A Y").unwrap(), 8);
    assert_eq!(resolve_game_pt1(0, "B X").unwrap(), 1);
    assert_eq!(resolve_game_pt1(0, "C Z").unwrap(), 6);
}

#[test]
fn test_resolve_game2() {
    assert_eq!(resolve_game_pt2(0, "A Y").unwrap(), 4);
    assert_eq!(resolve_game_pt2(0, "B X").unwrap(), 1);
    assert_eq!(resolve_game_pt2(0, "C Z").unwrap(), 7);
}

#[test]
fn test_d2_whole_guide() {
    assert_eq!(aoc22::aoc22d2::solve("A Y\nB X\nC Z\n").unwrap(), (12, 3));
    assert_eq!(aoc22::aoc22d2::solve("A Q\n"), None);
}

#[test]
fn test_read() {
    let r = read_rucksack("pq".as_bytes()).unwrap();
    println!("{:?}", r.comps[0]);
    assert_eq!(r.comps[0][15], 1);
    assert_eq!(r.comps[1][16], 1);
}

#[test]
fn aoc22d3_test_example_p1() {
    let example_input = "vJrwpWtwJgWrhcsFMMfFFhFp
jqHRNqRjqzjGDLGLrsFMfFZSrLrFZsSL
PmmdzqPrVvPwwTWBwg
wMqvLMZHhHMvwLHjbvcjnnSBnvTQFn
ttgJtRGJQctTZtZT
CrZsJsPPZsGzwwsLwLmpwMDw";
    assert_eq!(aoc22::aoc22d3::solvep1(example_input).unwrap(), 157);
}

#[test]
fn aoc22d3_test_example_p2() {
    let example_input = "vJrwpWtwJgWrhcsFMMfFFhFp
jqHRNqRjqzjGDLGLrsFMfFZSrLrFZsSL
PmmdzqPrVvPwwTWBwg
wMqvLMZHhHMvwLHjbvcjnnSBnvTQFn
ttgJtRGJQctTZtZT
CrZsJsPPZsGzwwsLwLmpwMDw";
    assert_eq!(aoc22::aoc22d3::solvep2(example_input).unwrap(), 70);
}

#[test]
fn test_d3_errors() {
    assert_eq!(
        read_rucksack("abc".as_bytes()).err(),
        Some(RucksackError::OddLength)
    );
    assert_eq!(
        read_rucksack("a1".as_bytes()).err(),
        Some(RucksackError::BadItem)
    );
    assert_eq!(
        aoc22::aoc22d3::solvep1("ab\n").err(),
        Some(RucksackError::NoCommon)
    );
    assert_eq!(
        aoc22::aoc22d3::solvep1("abab\n").err(),
        Some(RucksackError::MultipleCommon)
    );
    assert_eq!(
        aoc22::aoc22d3::solvep2("aa\naa\n").err(),
        Some(RucksackError::BadGroup)
    );
}

#[test]
fn aoc22d4_test_example_p1() {
    let example_input = "2-4,6-8
2-3,4-5
5-7,7-9
2-8,3-7
6-6,4-6
2-6,4-8";
    assert_eq!(aoc22::aoc22d4::solvep1(example_input).unwrap(), 2);
    assert_eq!(aoc22::aoc22d4::solvep2(example_input).unwrap(), 4);
}

#[test]
fn aoc22d4_test_example_p2() {}

#[test]
fn aoc22d5_test_example_p1() {
    let example_input = "
    [D]
[N] [C]
[Z] [M] [P]
 1   2   3

move 1 from 2 to 1
move 3 from 1 to 3
move 2 from 2 to 1
move 1 from 1 to 2";
    assert_eq!(aoc22::aoc22d5::solvep1(example_input).unwrap(), b"CMZ".to_vec());
    assert_eq!(aoc22::aoc22d5::solvep2(example_input).unwrap(), b"MCD".to_vec());
}

#[test]
fn aoc22d6_test_example_p1() {
    let examples = [
        ("mjqjpqmgbljsphdztnvjfqwrcgsmlb", 7),
        ("bvwbjplbgvbhsrlpgdmjqwftvncz", 5),
        ("nppdvjthqldpwncqszvftbrmjlhg", 6),
        ("nznrnfrfntjfmvfwmzdfjlvtqnbhcprsg", 10),
        ("zcfzfwzzqfrljwzlrfnpqdbhtmscgvjw", 11),
    ];
    for (s, v) in examples {
        assert_eq!(aoc22::aoc22d6::solvep1(s).unwrap(), v);
    }
}

#[test]
fn aoc22d6_test_example_p2() {
    let examples = [
        ("mjqjpqmgbljsphdztnvjfqwrcgsmlb", 19),
        ("bvwbjplbgvbhsrlpgdmjqwftvncz", 23),
        ("nppdvjthqldpwncqszvftbrmjlhg", 23),
        ("nznrnfrfntjfmvfwmzdfjlvtqnbhcprsg", 29),
        ("zcfzfwzzqfrljwzlrfnpqdbhtmscgvjw", 26),
    ];
    for (s, v) in examples {
        assert_eq!(aoc22::aoc22d6::solvep2(s).unwrap(), v);
    }
}

#[test]
fn test_d6_no_marker() {
    assert_eq!(aoc22::aoc22d6::solvep1("aaaaaaaa"), None);
    assert_eq!(aoc22::aoc22d6::solvep1("abc"), None);
}

#[test]
fn aoc22d7_test_example() {
    let example = "$ cd /
$ ls
dir a
14848514 b.txt
8504156 c.dat
dir d
$ cd a
$ ls
dir e
29116 f
2557 g
62596 h.lst
$ cd e
$ ls
584 i
$ cd ..
$ cd ..
$ cd d
$ ls
4060174 j
8033020 d.log
5626152 d.ext
7214296 k";
    let listing = "- / (dir)
  - a (dir)
    - e (dir)
      - i (file, size=584)
    - f (file, size=29116)
    - g (file, size=2557)
    - h.lst (file, size=62596)
  - b.txt (file, size=14848514)
  - c.dat (file, size=8504156)
  - d (dir)
    - j (file, size=4060174)
    - d.log (file, size=8033020)
    - d.ext (file, size=5626152)
    - k (file, size=7214296)
";
    let root = aoc22::aoc22d7::parse_input(example).unwrap();
    println!("{}", String::from_utf8(root.listing().unwrap()).unwrap());
    assert_eq!(root.listing().unwrap(), listing.as_bytes().to_vec());
    assert_eq!(aoc22::aoc22d7::solvep1(&root).unwrap(), 95437);
    assert_eq!(aoc22::aoc22d7::solvep2(&root).unwrap(), 24933642);
}

#[test]
fn aoc22d8_test_example() {
    let example = "30373
25512
65332
33549
35390";
    let grid = aoc22::aoc22d8::parse_input(example).unwrap();
    assert_eq!(aoc22::aoc22d8::solvep1(&grid).unwrap(), 21);
    assert_eq!(aoc22::aoc22d8::solvep2(&grid).unwrap(), 8);
}

#[test]
fn test_d8_single_row() {
    let grid = aoc22::aoc22d8::parse_input("12321").unwrap();
    // Every tree of a single row sees the sky above it, but a vertical
    // viewing distance of zero zeroes every scenic score.
    assert_eq!(aoc22::aoc22d8::solvep1(&grid).unwrap(), 5);
    assert_eq!(aoc22::aoc22d8::calc_scenic(&grid, 2, 0).unwrap(), 0);
    assert_eq!(aoc22::aoc22d8::calc_scenic(&grid, 9, 0), None);
}

#[test]
fn aoc22d9_test_example() {
    let example = "R 4
U 4
L 3
D 1
R 4
D 1
L 5
R 2";
    assert_eq!(aoc22::aoc22d9::solve(&example, 2).unwrap(), 13);
    assert_eq!(aoc22::aoc22d9::solve(&example, 10).unwrap(), 1);
    let example2 = "R 5
U 8
L 8
D 3
R 17
D 10
L 25
U 20";
    assert_eq!(aoc22::aoc22d9::solve(&example2, 10).unwrap(), 36);
}

#[test]
fn aoc22d20_test_example() {
    let example = "1
2
-3
3
-2
0
4";
    assert_eq!(aoc22::aoc22d20::solve(example).unwrap(), 3);
}

#[test]
fn test_example2() {
    let example = "1
2
-3
3
-2
0
4";
    assert_eq!(
        aoc22::aoc22d20::mult(&aoc22::aoc22d20::parse(example).unwrap()).unwrap(),
        vec![
            811589153,
            1623178306,
            -2434767459,
            2434767459,
            -1623178306,
            0,
            3246356612
        ]
    );
    assert_eq!(aoc22::aoc22d20::solve2(example).unwrap(), 1623178306);
}

#[test]
fn aoc22d13_test_example() {
    let example = "[1,1,3,1,1]
[1,1,5,1,1]

[[1],[2,3,4]]
[[1],4]

[9]
[[8,7,6]]

[[4,4],4,4]
[[4,4],4,4,4]

[7,7,7,7]
[7,7,7]

[]
[3]

[[[]]]
[[]]

[1,[2,[3,[4,[5,6,7]]]],8,9]
[1,[2,[3,[4,[5,6,0]]]],8,9]";
    assert_eq!(aoc22::aoc22d13::solve(example).unwrap(), 13);
    assert_eq!(aoc22::aoc22d13::solvep2(example).unwrap(), 140);
}

#[test]
fn test_d20_edges() {
    // Scaling overflows on an extreme value, the mixer needs a zero to
    // read coordinates from, and a malformed list never parses.
    assert_eq!(aoc22::aoc22d20::mult(&vec![isize::MAX]), None);
    assert_eq!(aoc22::aoc22d20::solve("5\n7\n"), None);
    assert_eq!(aoc22::aoc22d20::solve("1\nx\n"), None);
    assert!(aoc22::aoc22d20::parse("  3  -4 \n5").unwrap() == vec![3, -4, 5]);
}

#[test]
fn aoc22d14_test_example() {
    let example = "498,4 -> 498,6 -> 496,6
503,4 -> 502,4 -> 502,9 -> 494,9";
    assert_eq!(aoc22::aoc22d14::solve(example).unwrap(), 24);
}

#[test]
fn aoc22d14_test_example_p2() {
    let example = "498,4 -> 498,6 -> 496,6
503,4 -> 502,4 -> 502,9 -> 494,9";
    assert_eq!(aoc22::aoc22d14::solve_p2(example).unwrap(), 93);
}

#[test]
fn aoc22d11_test_example() {
    let example = "Monkey 0:
  Starting items: 79, 98
  Operation: new = old * 19
  Test: divisible by 23
    If true: throw to monkey 2
    If false: throw to monkey 3

Monkey 1:
  Starting items: 54, 65, 75, 74
  Operation: new = old + 6
  Test: divisible by 19
    If true: throw to monkey 2
    If false: throw to monkey 0

Monkey 2:
  Starting items: 79, 60, 97
  Operation: new = old * old
  Test: divisible by 13
    If true: throw to monkey 1
    If false: throw to monkey 3

Monkey 3:
  Starting items: 74
  Operation: new = old + 3
  Test: divisible by 17
    If true: throw to monkey 0
    If false: throw to monkey 1";
    assert_eq!(aoc22::aoc22d11::solve(example, 3, 20).unwrap(), 10605);
    assert_eq!(aoc22::aoc22d11::solve(example, 1, 10000).unwrap(), 2713310158);
}

#[test]
fn aoc22d12_test_example() {
    let example = "Sabqponm
abcryxxl
accszExk
acctuvwj
abdefghi";
    assert_eq!(aoc22::aoc22d12::solvep1(example).unwrap(), 31);
    assert_eq!(aoc22::aoc22d12::solvep2(example).unwrap(), 29);
}

const D15_EXAMPLE: &str = "Sensor at x=2, y=18: closest beacon is at x=-2, y=15
Sensor at x=9, y=16: closest beacon is at x=10, y=16
Sensor at x=13, y=2: closest beacon is at x=15, y=3
Sensor at x=12, y=14: closest beacon is at x=10, y=16
Sensor at x=10, y=20: closest beacon is at x=10, y=16
Sensor at x=14, y=17: closest beacon is at x=10, y=16
Sensor at x=8, y=7: closest beacon is at x=2, y=10
Sensor at x=2, y=0: closest beacon is at x=2, y=10
Sensor at x=0, y=11: closest beacon is at x=2, y=10
Sensor at x=20, y=14: closest beacon is at x=25, y=17
Sensor at x=17, y=20: closest beacon is at x=21, y=22
Sensor at x=16, y=7: closest beacon is at x=15, y=3
Sensor at x=14, y=3: closest beacon is at x=15, y=3
Sensor at x=20, y=1: closest beacon is at x=15, y=3";

#[test]
fn aoc22d15_test_example() {
    assert_eq!(aoc22::aoc22d15::solve(D15_EXAMPLE, 10).unwrap(), 26);
}

#[test]
fn aoc22d15_test_example_p2() {
    assert_eq!(aoc22::aoc22d15::solve_p2(D15_EXAMPLE, 20).unwrap(), 56000011);
}

const D16_EXAMPLE: &str = "Valve AA has flow rate=0; tunnels lead to valves DD, II, BB
Valve BB has flow rate=13; tunnels lead to valves CC, AA
Valve CC has flow rate=2; tunnels lead to valves DD, BB
Valve DD has flow rate=20; tunnels lead to valves CC, AA, EE
Valve EE has flow rate=3; tunnels lead to valves FF, DD
Valve FF has flow rate=0; tunnels lead to valves EE, GG
Valve GG has flow rate=0; tunnels lead to valves FF, HH
Valve HH has flow rate=22; tunnel leads to valve GG
Valve II has flow rate=0; tunnels lead to valves AA, JJ
Valve JJ has flow rate=21; tunnel leads to valve II";

#[test]
fn aoc22d16_test_example() {
    assert_eq!(aoc22::aoc22d16::solve::<1>(D16_EXAMPLE, 30).unwrap(), 1651);
}

#[test]
fn aoc22d16_test_example_p2() {
    assert_eq!(aoc22::aoc22d16::solve::<2>(D16_EXAMPLE, 26).unwrap(), 1707);
}

#[test]
fn aoc22d17_test_example() {
    let example = ">>><<><>><<<>><>>><<<>>><<<><<<>><>><<>>";
    assert_eq!(aoc22::aoc22d17::solve(example, 7, 2022, false).unwrap(), 3068);
    assert_eq!(aoc22::aoc22d17::solve(example, 7, 2022, true).unwrap(), 3068);
}

#[test]
fn aoc22d17_test_example_p2() {
    let example = ">>><<><>><<<>><>>><<<>>><<<><<<>><>><<>>";
    assert_eq!(
        aoc22::aoc22d17::solve(example, 7, 1000000000000, true).unwrap(),
        1514285714288
    );
}

#[test]
fn aoc22d18_test_example() {
    let example11 = "1,1,1";
    let example12 = "";
    let example21 = "1,1,1\n2,1,1";
    let example22 = "2,2,2
1,2,2
3,2,2
2,1,2
2,3,2
2,2,1
2,2,3
2,2,4
2,2,6
1,2,5
3,2,5
2,1,5
2,3,5";
    assert_eq!(aoc22::aoc22d18::solve(example11, false).unwrap(), 6);
    assert_eq!(aoc22::aoc22d18::solve(example12, false).unwrap(), 0);
    assert_eq!(aoc22::aoc22d18::solve(example21, false).unwrap(), 10);
    assert_eq!(aoc22::aoc22d18::solve(example22, false).unwrap(), 64);
}

#[test]
fn aoc22d18_test_example_p2() {
    let example11 = "1,1,1";
    let example12 = "";
    let example21 = "1,1,1\n2,1,1";
    let example22 = "2,2,2
1,2,2
3,2,2
2,1,2
2,3,2
2,2,1
2,2,3
2,2,4
2,2,6
1,2,5
3,2,5
2,1,5
2,3,5";
    assert_eq!(aoc22::aoc22d18::solve(example11, true).unwrap(), 6);
    assert_eq!(aoc22::aoc22d18::solve(example12, true).unwrap(), 0);
    assert_eq!(aoc22::aoc22d18::solve(example21, true).unwrap(), 10);
    assert_eq!(aoc22::aoc22d18::solve(example22, true).unwrap(), 58);
}
