//! Byte-stream parsing helpers shared by the puzzle modules.
//!
//! A `ByteIterator` is a cursor over the bytes of a source string: it can be
//! peeked, advanced, stripped of whitespace, asked for a signed decimal
//! number, or asked to consume an expected literal sequence.  Malformed
//! input is reported as an error value, never as a panic.

use vstd::prelude::*;
use vstd::string::StringSliceAdditionalSpecFns;

verus! {

/// The ways a parsing step can fail: no number where one was demanded, a
/// number too large for the signed word, or a literal sequence that starts
/// to match and then stops (by a wrong byte, or by the input ending).
#[derive(Clone, Copy, Debug, PartialEq, Eq, Structural)]
pub enum ParseError {
    NotANumber,
    Overflow,
    UnexpectedByte,
    UnexpectedEnd,
}

/// Is `byte` the code of a decimal digit?
pub open spec fn spec_is_digit(byte: u8) -> bool {
    48 <= byte <= 57
}

/// The first position at or after `pos` holding a non-digit, or the length
/// of `s` if digits run to the end.
pub open spec fn digit_run_end(s: Seq<u8>, pos: int) -> int
    decreases s.len() - pos,
{
    if 0 <= pos < s.len() && spec_is_digit(s[pos]) {
        digit_run_end(s, pos + 1)
    } else {
        pos
    }
}

/// The value of the decimal digits `s[from..to]`, read most significant
/// first.
pub open spec fn digits_value(s: Seq<u8>, from: int, to: int) -> int
    decreases to - from,
{
    if to <= from {
        0
    } else {
        digits_value(s, from, to - 1) * 10 + (s[to - 1] - 48)
    }
}

/// What a number starting at `pos` of `s` denotes: its mathematical value
/// and the position just past it, or nothing when `pos` does not start a
/// number.  A leading minus negates the number that follows it, so repeated
/// minus signs cancel out.
pub open spec fn spec_parse_number(s: Seq<u8>, pos: int) -> Option<(int, int)>
    decreases s.len() - pos,
{
    if pos < 0 || pos >= s.len() {
        None
    } else if s[pos] == 45 {
        match spec_parse_number(s, pos + 1) {
            Some((v, end)) => Some((-v, end)),
            None => None,
        }
    } else if spec_is_digit(s[pos]) {
        Some((digits_value(s, pos, digit_run_end(s, pos)), digit_run_end(s, pos)))
    } else {
        None
    }
}

/// Does the number starting at `pos` fit the signed word?  Because a minus
/// sign only flips the sign, this is a bound on the digit run's magnitude.
pub open spec fn spec_number_fits(s: Seq<u8>, pos: int) -> bool
    decreases s.len() - pos,
{
    if pos < 0 || pos >= s.len() {
        true
    } else if s[pos] == 45 {
        spec_number_fits(s, pos + 1)
    } else {
        digits_value(s, pos, digit_run_end(s, pos)) <= isize::MAX
    }
}

/// Is `byte` one of the whitespace bytes that `consume_white_space` skips?
pub open spec fn spec_is_space(byte: u8) -> bool {
    byte == 32 || byte == 9 || byte == 10
}

/// The first position at or after `pos` holding no blank, tab or newline,
/// or the length of `s` if whitespace runs to the end.
pub open spec fn spec_skip_ws(s: Seq<u8>, pos: int) -> int
    decreases s.len() - pos,
{
    if 0 <= pos < s.len() && spec_is_space(s[pos]) {
        spec_skip_ws(s, pos + 1)
    } else {
        pos
    }
}

/// The position that ends a whitespace run starting at `pos` is exactly
/// where the skip lands.
pub proof fn lemma_skip_ws_characterize(s: Seq<u8>, pos: int, r: int)
    requires
        0 <= pos <= r <= s.len(),
        forall|k: int| pos <= k < r ==> spec_is_space(#[trigger] s[k]),
        r < s.len() ==> !spec_is_space(s[r]),
    ensures
        spec_skip_ws(s, pos) == r,
    decreases r - pos,
{
    if pos < r {
        lemma_skip_ws_characterize(s, pos + 1, r);
    }
}

/// The skip never moves backwards, never passes the end, and lands on a
/// position it would not move from.
pub proof fn lemma_skip_ws_bounds(s: Seq<u8>, pos: int)
    requires
        0 <= pos,
    ensures
        pos <= spec_skip_ws(s, pos),
        pos <= s.len() ==> spec_skip_ws(s, pos) <= s.len(),
        spec_skip_ws(s, spec_skip_ws(s, pos)) == spec_skip_ws(s, pos),
    decreases s.len() - pos,
{
    if 0 <= pos < s.len() && spec_is_space(s[pos]) {
        lemma_skip_ws_bounds(s, pos + 1);
    }
}

/// A number starts strictly before it ends, and ends inside the source.
pub proof fn lemma_spec_parse_number_bounds(s: Seq<u8>, pos: int)
    requires
        0 <= pos,
        spec_parse_number(s, pos) is Some,
    ensures
        match spec_parse_number(s, pos) {
            Some(ve) => pos < ve.1 <= s.len(),
            None => true,
        },
    decreases s.len() - pos,
{
    if pos < s.len() && s[pos] == 45 {
        lemma_spec_parse_number_bounds(s, pos + 1);
    } else if pos < s.len() && spec_is_digit(s[pos]) {
        lemma_digit_run(s, pos + 1, pos + 1);
        assert(digit_run_end(s, pos) == digit_run_end(s, pos + 1));
    }
}

/// How far `sequence` agrees with the source bytes starting at `pos`,
/// counting from an agreement of length `k` already established.
pub open spec fn match_len_from(s: Seq<u8>, pos: int, sequence: Seq<u8>, k: int) -> int
    decreases sequence.len() - k,
{
    if 0 <= k < sequence.len() && 0 <= pos + k < s.len() && s[pos + k] == sequence[k] {
        match_len_from(s, pos, sequence, k + 1)
    } else {
        k
    }
}

/// The length of the longest prefix of `sequence` that matches the source
/// bytes starting at `pos`.
pub open spec fn match_len(s: Seq<u8>, pos: int, sequence: Seq<u8>) -> int {
    match_len_from(s, pos, sequence, 0)
}

/// A digit string denotes a non-negative value.
pub proof fn lemma_digits_value_nonneg(s: Seq<u8>, from: int, to: int)
    requires
        forall|k: int| from <= k < to ==> spec_is_digit(#[trigger] s[k]),
    ensures
        digits_value(s, from, to) >= 0,
    decreases to - from,
{
    if to > from {
        lemma_digits_value_nonneg(s, from, to - 1);
        let prev = digits_value(s, from, to - 1);
        assert(prev * 10 >= 0) by (nonlinear_arith)
            requires
                prev >= 0,
        ;
    }
}

/// Reading further digits never shrinks the value.
pub proof fn lemma_digits_value_mono(s: Seq<u8>, from: int, to1: int, to2: int)
    requires
        from <= to1 <= to2,
        forall|k: int| from <= k < to2 ==> spec_is_digit(#[trigger] s[k]),
    ensures
        digits_value(s, from, to1) <= digits_value(s, from, to2),
    decreases to2 - to1,
{
    if to1 < to2 {
        lemma_digits_value_mono(s, from, to1, to2 - 1);
        let prev = digits_value(s, from, to2 - 1);
        lemma_digits_value_nonneg(s, from, to2 - 1);
        assert(prev <= prev * 10) by (nonlinear_arith)
            requires
                prev >= 0,
        ;
    }
}

/// A cursor over the bytes of a source string: the bytes themselves and the
/// position reached so far.
pub struct ByteIterator<'a> {
    bytes: &'a [u8],
    pos: usize,
}

impl<'a> ByteIterator<'a> {
    /// A cursor over the given bytes, starting at the beginning.
    pub fn new(bytes: &'a [u8]) -> (it: ByteIterator<'a>)
        ensures
            it.bytes() == bytes@,
            it.pos() == 0,
            it.wf(),
    {
        ByteIterator { bytes, pos: 0 }
    }

    /// The bytes being walked.
    pub closed spec fn bytes(&self) -> Seq<u8> {
        self.bytes@
    }

    /// The position reached so far.
    pub closed spec fn pos(&self) -> int {
        self.pos as int
    }

    /// Well-formedness: the position never passes the end.
    pub open spec fn wf(&self) -> bool {
        0 <= self.pos() <= self.bytes().len()
    }

    /// The position is held in a machine word.
    pub proof fn lemma_pos_bound(&self)
        ensures
            self.pos() <= usize::MAX,
    {
    }

    /// The current position and byte, without advancing; nothing at the end
    /// of the input.
    pub fn peek(&self) -> (r: Option<(usize, u8)>)
        requires
            self.wf(),
        ensures
            match r {
                Some(pv) => {
                    &&& self.pos() < self.bytes().len()
                    &&& pv.0 == self.pos()
                    &&& pv.1 == self.bytes()[self.pos()]
                },
                None => self.pos() == self.bytes().len(),
            },
    {
        if self.pos < self.bytes.len() {
            Some((self.pos, self.bytes[self.pos]))
        } else {
            None
        }
    }

    /// The current position and byte, advancing past it; nothing at the end
    /// of the input.
    pub fn next(&mut self) -> (r: Option<(usize, u8)>)
        requires
            old(self).wf(),
        ensures
            final(self).bytes() == old(self).bytes(),
            final(self).wf(),
            match r {
                Some(pv) => {
                    &&& old(self).pos() < old(self).bytes().len()
                    &&& pv.0 == old(self).pos()
                    &&& pv.1 == old(self).bytes()[old(self).pos()]
                    &&& final(self).pos() == old(self).pos() + 1
                },
                None => {
                    &&& old(self).pos() == old(self).bytes().len()
                    &&& final(self).pos() == old(self).pos()
                },
            },
    {
        if self.pos < self.bytes.len() {
            let r = (self.pos, self.bytes[self.pos]);
            self.pos = self.pos + 1;
            Some(r)
        } else {
            None
        }
    }
}

/// A cursor over the bytes of `source`, starting at the beginning.
pub fn get_byte_iterator(source: &str) -> (it: ByteIterator)
    ensures
        it.bytes() == source.spec_bytes(),
        it.pos() == 0,
        it.wf(),
{
    ByteIterator { bytes: source.as_bytes(), pos: 0 }
}

/// Is `byte` the code of a decimal digit?
pub fn is_digit(byte: u8) -> (r: bool)
    ensures
        r == spec_is_digit(byte),
{
    48 <= byte && byte <= 57
}

/// Advances the cursor past any run of blanks, tabs and newlines, stopping
/// at the first other byte or at the end of the input.
pub fn consume_white_space(it: &mut ByteIterator)
    requires
        old(it).wf(),
    ensures
        final(it).bytes() == old(it).bytes(),
        final(it).wf(),
        old(it).pos() <= final(it).pos(),
        forall|k: int|
            old(it).pos() <= k < final(it).pos() ==> spec_is_space(#[trigger] old(it).bytes()[k]),
        final(it).pos() < final(it).bytes().len() ==> !spec_is_space(
            final(it).bytes()[final(it).pos()],
        ),
{
    loop
        invariant
            it.wf(),
            it.bytes() == old(it).bytes(),
            old(it).pos() <= it.pos(),
            forall|k: int|
                old(it).pos() <= k < it.pos() ==> spec_is_space(#[trigger] old(it).bytes()[k]),
        decreases it.bytes().len() - it.pos(),
    {
        match it.peek() {
            Some((_, 10u8)) => {},
            Some((_, 9u8)) => {},
            Some((_, 32u8)) => {},
            _ => {
                return ;
            },
        }
        it.next();
    }
}

/// Where the first newline at or after `pos` sits, or the length of `s`
/// when none follows.
pub open spec fn spec_line_end(s: Seq<u8>, pos: int) -> int
    decreases s.len() - pos,
{
    if 0 <= pos < s.len() {
        if s[pos] == 10 {
            pos
        } else {
            spec_line_end(s, pos + 1)
        }
    } else {
        pos
    }
}

/// The position that ends a newline-free run starting at `pos` is exactly
/// where the first newline sits.
pub proof fn lemma_line_end_characterize(s: Seq<u8>, pos: int, r: int)
    requires
        0 <= pos <= r <= s.len(),
        forall|k: int| pos <= k < r ==> #[trigger] s[k] != 10,
        r < s.len() ==> s[r] == 10,
    ensures
        spec_line_end(s, pos) == r,
    decreases r - pos,
{
    if pos < r {
        lemma_line_end_characterize(s, pos + 1, r);
    }
}

/// The pieces `s` cuts into at newlines, from `pos` on: every piece is
/// newline-free, and a trailing newline yields a final empty piece.
pub open spec fn spec_lines_from(s: Seq<u8>, pos: int) -> Seq<Seq<u8>>
    decreases s.len() - pos,
    via spec_lines_from_decreases
{
    if pos < 0 {
        Seq::empty()
    } else {
        let e = spec_line_end(s, pos);
        if e >= s.len() {
            seq![s.subrange(pos, s.len() as int)]
        } else {
            seq![s.subrange(pos, e)] + spec_lines_from(s, e + 1)
        }
    }
}

#[via_fn]
proof fn spec_lines_from_decreases(s: Seq<u8>, pos: int) {
    if pos >= 0 {
        lemma_line_end_bounds(s, pos);
    }
}

/// The first newline never sits before where the search began.
pub proof fn lemma_line_end_bounds(s: Seq<u8>, pos: int)
    requires
        0 <= pos,
    ensures
        pos <= spec_line_end(s, pos),
    decreases s.len() - pos,
{
    if 0 <= pos < s.len() && s[pos] != 10 {
        lemma_line_end_bounds(s, pos + 1);
    }
}

/// The source cut at every newline, in order; the pieces carry no newline
/// themselves.  A trailing newline yields a final empty piece, as does an
/// empty source.
pub fn split_lines(source: &str) -> (lines: Vec<Vec<u8>>)
    ensures
        lines@.len() >= 1,
        forall|i: int, j: int|
            0 <= i < lines@.len() && 0 <= j < lines@[i]@.len() ==> #[trigger] lines@[i]@[j] != 10u8,
        lines@.map_values(|l: Vec<u8>| l@) == spec_lines_from(source.spec_bytes(), 0),
{
    let ghost s = source.spec_bytes();
    let bytes = source.as_bytes();
    let mut lines: Vec<Vec<u8>> = Vec::new();
    let mut current: Vec<u8> = Vec::new();
    let ghost start: int = 0;
    let n = bytes.len();
    for p in 0..n
        invariant
            n == bytes@.len(),
            s == source.spec_bytes(),
            s == bytes@,
            0 <= start <= p <= n,
            current@ == s.subrange(start, p as int),
            forall|k: int| start <= k < p ==> #[trigger] s[k] != 10,
            spec_lines_from(s, 0) == lines@.map_values(|l: Vec<u8>| l@) + spec_lines_from(s, start),
            forall|i: int, j: int|
                0 <= i < lines@.len() && 0 <= j < lines@[i]@.len() ==> #[trigger] lines@[i]@[j]
                    != 10u8,
    {
        let b = bytes[p];
        if b == 10 {
            proof {
                lemma_line_end_characterize(s, start, p as int);
                assert(spec_lines_from(s, start) == seq![s.subrange(start, p as int)]
                    + spec_lines_from(s, p + 1));
                assert(lines@.push(current).map_values(|l: Vec<u8>| l@) =~= lines@.map_values(
                    |l: Vec<u8>| l@,
                ).push(current@));
                assert(lines@.map_values(|l: Vec<u8>| l@) + (seq![current@] + spec_lines_from(
                    s,
                    p + 1,
                )) =~= lines@.map_values(|l: Vec<u8>| l@).push(current@) + spec_lines_from(
                    s,
                    p + 1,
                ));
            }
            lines.push(current);
            current = Vec::new();
            proof {
                start = p + 1;
                assert(current@ =~= s.subrange(start, p + 1));
            }
        } else {
            current.push(b);
            proof {
                assert(current@ =~= s.subrange(start, p + 1));
            }
        }
    }
    proof {
        lemma_line_end_characterize(s, start, n as int);
        assert(spec_lines_from(s, start) == seq![s.subrange(start, n as int)]);
        assert(current@ =~= s.subrange(start, n as int));
        assert(lines@.push(current).map_values(|l: Vec<u8>| l@) =~= lines@.map_values(
            |l: Vec<u8>| l@,
        ).push(current@));
        assert(lines@.map_values(|l: Vec<u8>| l@) + seq![current@] =~= lines@.map_values(
            |l: Vec<u8>| l@,
        ).push(current@));
    }
    lines.push(current);
    lines
}

/// `r` with its value negated when `negate` is set.
pub open spec fn negate_result(r: Option<(int, int)>, negate: bool) -> Option<(int, int)> {
    match r {
        Some((v, end)) => if negate {
            Some((-v, end))
        } else {
            Some((v, end))
        },
        None => None,
    }
}

/// Parses a signed decimal number at the cursor: a run of minus signs, each
/// negating what follows, and then a digit run.  Reports `NotANumber` when
/// the cursor does not sit on a number, and `Overflow` when the digit run's
/// value does not fit the signed word.
pub fn parse_number(it: &mut ByteIterator) -> (r: Result<isize, ParseError>)
    requires
        old(it).wf(),
    ensures
        final(it).bytes() == old(it).bytes(),
        final(it).wf(),
        old(it).pos() <= final(it).pos(),
        r is Ok ==> old(it).pos() < final(it).pos(),
        match spec_parse_number(old(it).bytes(), old(it).pos()) {
            Some(ve) => {
                if spec_number_fits(old(it).bytes(), old(it).pos()) {
                    (r matches Ok(n) && n as int == ve.0) && final(it).pos() == ve.1
                } else {
                    r == Err::<isize, ParseError>(ParseError::Overflow)
                }
            },
            None => r == Err::<isize, ParseError>(ParseError::NotANumber),
        },
{
    let ghost s = old(it).bytes();
    let ghost p0 = old(it).pos();
    let mut negate = false;
    loop
        invariant
            s == old(it).bytes(),
            p0 == old(it).pos(),
            old(it).wf(),
            it.wf(),
            it.bytes() == s,
            p0 <= it.pos() <= s.len(),
            spec_parse_number(s, p0) == negate_result(spec_parse_number(s, it.pos()), negate),
            spec_number_fits(s, p0) == spec_number_fits(s, it.pos()),
        ensures
            it.pos() == s.len() || s[it.pos()] != 45,
        decreases s.len() - it.pos(),
    {
        match it.peek() {
            Some((_, 45u8)) => {
                it.next();
                negate = !negate;
            },
            _ => {
                break ;
            },
        }
    }
    let first = match it.peek() {
        Some(pv) => pv.1,
        None => {
            return Err(ParseError::NotANumber);
        },
    };
    if !is_digit(first) {
        return Err(ParseError::NotANumber);
    }
    let ghost start = it.pos();
    let mut acc: isize = 0;
    loop
        invariant
            s == old(it).bytes(),
            p0 == old(it).pos(),
            old(it).wf(),
            it.wf(),
            it.bytes() == s,
            p0 <= start <= it.pos() <= s.len(),
            start < s.len() && spec_is_digit(s[start]),
            spec_parse_number(s, p0) == negate_result(spec_parse_number(s, start), negate),
            spec_number_fits(s, p0) == spec_number_fits(s, start),
            forall|k: int| start <= k < it.pos() ==> spec_is_digit(#[trigger] s[k]),
            digit_run_end(s, start) == digit_run_end(s, it.pos()),
            0 <= acc,
            acc == digits_value(s, start, it.pos()),
        ensures
            it.pos() == digit_run_end(s, start),
            acc == digits_value(s, start, it.pos()),
            spec_parse_number(s, p0) == negate_result(spec_parse_number(s, start), negate),
            spec_number_fits(s, p0) == spec_number_fits(s, start),
            start < s.len() && spec_is_digit(s[start]),
            it.wf(),
            it.bytes() == s,
            p0 <= it.pos(),
        decreases s.len() - it.pos(),
    {
        let b = match it.peek() {
            Some(pv) => pv.1,
            None => {
                proof {
                    assert(digit_run_end(s, it.pos()) == it.pos());
                }
                break ;
            },
        };
        if !is_digit(b) {
            proof {
                assert(digit_run_end(s, it.pos()) == it.pos());
            }
            break ;
        }
        let ghost q = it.pos();
        let d = (b - 48) as isize;
        let overflowed = match acc.checked_mul(10) {
            Some(acc10) => {
                match acc10.checked_add(d) {
                    Some(acc2) => {
                        acc = acc2;
                        false
                    },
                    None => true,
                }
            },
            None => true,
        };
        proof {
            lemma_digit_run(s, start, q);
            let run_end = digit_run_end(s, start);
            assert(digit_run_end(s, q) == digit_run_end(s, q + 1));
            assert(digits_value(s, start, q + 1) == digits_value(s, start, q) * 10 + (s[q] - 48));
            if overflowed {
                assert forall|k: int| start <= k < run_end implies spec_is_digit(
                    #[trigger] s[k],
                ) by {
                    lemma_digit_run(s, start, k);
                }
                lemma_digits_value_mono(s, start, q + 1, run_end);
            }
        }
        if overflowed {
            return Err(ParseError::Overflow);
        }
        it.next();
    }
    proof {
        lemma_digit_run(s, start + 1, start + 1);
        assert(digit_run_end(s, start) == digit_run_end(s, start + 1));
    }
    if negate {
        Ok(-acc)
    } else {
        Ok(acc)
    }
}

/// The matched prefix agrees byte for byte with the source, sits inside the
/// source, and never exceeds the sequence.
pub proof fn lemma_match_len(s: Seq<u8>, pos: int, sequence: Seq<u8>, k: int)
    requires
        0 <= k <= sequence.len(),
        0 <= pos,
    ensures
        k <= match_len_from(s, pos, sequence, k) <= sequence.len(),
        match_len_from(s, pos, sequence, k) > k ==> pos + match_len_from(s, pos, sequence, k)
            <= s.len(),
        forall|m: int|
            k <= m < match_len_from(s, pos, sequence, k) ==> s[pos + m] == #[trigger] sequence[m],
    decreases sequence.len() - k,
{
    if 0 <= k < sequence.len() && 0 <= pos + k < s.len() && s[pos + k] == sequence[k] {
        lemma_match_len(s, pos, sequence, k + 1);
        let ml = match_len_from(s, pos, sequence, k);
        assert(ml == match_len_from(s, pos, sequence, k + 1));
        assert forall|m: int|
            k <= m < ml implies s[pos + m] == #[trigger] sequence[m] by {
            if m != k {
                assert(k + 1 <= m < match_len_from(s, pos, sequence, k + 1));
            }
        }
    }
}

/// Consumes `sequence` from the cursor.
///
/// If the whole sequence matches it is consumed and the call returns true;
/// if already the first byte differs (or the input is exhausted) nothing is
/// consumed and the call returns false; a mismatch after a partial match
/// reports an error — `UnexpectedEnd` when the input ran out,
/// `UnexpectedByte` when a wrong byte followed.
pub fn consume_sequence(it: &mut ByteIterator, sequence: &[u8]) -> (r: Result<bool, ParseError>)
    requires
        old(it).wf(),
        sequence@.len() >= 1,
    ensures
        final(it).bytes() == old(it).bytes(),
        final(it).wf(),
        ({
            let s = old(it).bytes();
            let p = old(it).pos();
            let sq = sequence@;
            let n = match_len(s, p, sq);
            match r {
                Ok(true) => n == sq.len() && final(it).pos() == p + n,
                Ok(false) => n == 0 && final(it).pos() == p,
                Err(ParseError::UnexpectedEnd) => {
                    0 < n < sq.len() && p + n == s.len() && final(it).pos() == s.len()
                },
                Err(ParseError::UnexpectedByte) => {
                    0 < n < sq.len() && p + n < s.len() && final(it).pos() == p + n + 1
                },
                Err(_) => false,
            }
        }),
{
    let ghost s = old(it).bytes();
    let ghost p = old(it).pos();
    let sq = sequence;
    let ghost n = match_len(s, p, sq@);
    proof {
        lemma_match_len(s, p, sq@, 0);
    }
    match it.peek() {
        Some(pv) => {
            if pv.1 != sq[0] {
                return Ok(false);
            }
            it.next();
        },
        None => {
            return Ok(false);
        },
    }
    let mut k: usize = 1;
    loop
        invariant
            s == old(it).bytes(),
            p == old(it).pos(),
            old(it).wf(),
            n == match_len(s, p, sq@),
            sq@ == sequence@,
            sq@.len() >= 1,
            it.wf(),
            it.bytes() == s,
            1 <= k <= sq@.len(),
            it.pos() == p + k,
            p + k <= s.len(),
            forall|m: int| 0 <= m < k ==> s[p + m] == sq@[m],
            n == match_len_from(s, p, sq@, k as int),
        decreases sq@.len() - k,
    {
        if k == sq.len() {
            proof {
                assert(match_len_from(s, p, sq@, k as int) == k);
            }
            return Ok(true);
        }
        let seq_byte = sq[k];
        match it.next() {
            Some(pv) => {
                if pv.1 != seq_byte {
                    proof {
                        assert(match_len_from(s, p, sq@, k as int) == k);
                    }
                    return Err(ParseError::UnexpectedByte);
                }
            },
            None => {
                proof {
                    assert(match_len_from(s, p, sq@, k as int) == k);
                }
                return Err(ParseError::UnexpectedEnd);
            },
        }
        k = k + 1;
    }
}

/// Every position of a digit run up to its end holds a digit, and the run
/// ends either at the end of the source or at a non-digit.
pub proof fn lemma_digit_run(s: Seq<u8>, pos: int, at: int)
    requires
        0 <= pos <= s.len(),
        pos <= at,
    ensures
        pos <= digit_run_end(s, pos) <= s.len(),
        at < digit_run_end(s, pos) ==> spec_is_digit(s[at]),
        digit_run_end(s, pos) < s.len() ==> !spec_is_digit(s[digit_run_end(s, pos)]),
    decreases s.len() - pos,
{
    if pos < s.len() && spec_is_digit(s[pos]) {
        if at < pos + 1 {
            lemma_digit_run(s, pos + 1, pos + 1);
        } else {
            lemma_digit_run(s, pos + 1, at);
        }
    }
}

} // verus!
