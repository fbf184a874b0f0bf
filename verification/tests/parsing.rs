use aoc22::parse_utils::ByteIterator;
use aoc22::parse_utils::ParseError;
use aoc22::parse_utils::consume_sequence;
use aoc22::parse_utils::consume_white_space;
use aoc22::parse_utils::get_byte_iterator;
use aoc22::parse_utils::is_digit;
use aoc22::parse_utils::parse_number;

#[test]
fn test_is_digit() {
    assert!(is_digit(b'0'));
    assert!(is_digit(b'5'));
    assert!(is_digit(b'9'));
    assert!(!is_digit(b'a'));
    assert!(!is_digit(b' '));
    assert!(!is_digit(b'-'));
}

#[test]
fn test_parse_number_values() {
    let mut it = get_byte_iterator("42x");
    assert_eq!(parse_number(&mut it).unwrap(), 42);
    assert_eq!(it.peek(), Some((2, b'x')));

    let mut it = get_byte_iterator("-17,");
    assert_eq!(parse_number(&mut it).unwrap(), -17);

    // A doubled minus sign negates twice.
    let mut it = get_byte_iterator("--5");
    assert_eq!(parse_number(&mut it).unwrap(), 5);

    let mut it = get_byte_iterator("0");
    assert_eq!(parse_number(&mut it).unwrap(), 0);
}

#[test]
fn test_parse_number_errors() {
    let mut it = get_byte_iterator("abc");
    assert_eq!(parse_number(&mut it), Err(ParseError::NotANumber));

    let mut it = get_byte_iterator("");
    assert_eq!(parse_number(&mut it), Err(ParseError::NotANumber));

    let mut it = get_byte_iterator("-");
    assert_eq!(parse_number(&mut it), Err(ParseError::NotANumber));

    let mut it = get_byte_iterator("99999999999999999999999999");
    assert_eq!(parse_number(&mut it), Err(ParseError::Overflow));
}

#[test]
fn test_consume_white_space() {
    let mut it = get_byte_iterator(" \t\n7");
    consume_white_space(&mut it);
    assert_eq!(parse_number(&mut it).unwrap(), 7);

    let mut it = get_byte_iterator("x");
    consume_white_space(&mut it);
    assert_eq!(it.peek(), Some((0, b'x')));
}

#[test]
fn test_consume_sequence_outcomes() {
    let mut it = get_byte_iterator("abcrest");
    assert_eq!(consume_sequence(&mut it, b"abc").unwrap(), true);
    assert_eq!(it.peek(), Some((3, b'r')));

    let mut it = get_byte_iterator("xbc");
    assert_eq!(consume_sequence(&mut it, b"abc").unwrap(), false);
    assert_eq!(it.peek(), Some((0, b'x')));

    let mut it = get_byte_iterator("");
    assert_eq!(consume_sequence(&mut it, b"abc").unwrap(), false);

    let mut it = get_byte_iterator("abX");
    assert_eq!(
        consume_sequence(&mut it, b"abc"),
        Err(ParseError::UnexpectedByte)
    );

    let mut it = get_byte_iterator("ab");
    assert_eq!(
        consume_sequence(&mut it, b"abc"),
        Err(ParseError::UnexpectedEnd)
    );
}

#[test]
fn test_byte_iterator_walk() {
    let mut it = ByteIterator::new(b"hi");
    assert_eq!(it.peek(), Some((0, b'h')));
    assert_eq!(it.next(), Some((0, b'h')));
    assert_eq!(it.next(), Some((1, b'i')));
    assert_eq!(it.next(), None);
    assert_eq!(it.peek(), None);
}
