//! The textual form `HH:MM:SS<sep>FF` read into unvalidated fields.
use vstd::prelude::*;

verus! {

use vstd::string::StrSliceExecFns;
use crate::FrameCount;

#[derive(Debug, Eq, PartialEq, Copy, Clone)]
pub enum Seperator {
    Semicolon,
    Colon,
}

/// The character that a separator stands for.
pub open spec fn sep_char(sep: Seperator) -> char {
    match sep {
        Seperator::Semicolon => ';',
        Seperator::Colon => ':',
    }
}

impl From<Seperator> for char {
    fn from(sep: Seperator) -> (r: char) {
        match sep {
            Seperator::Semicolon => ';',
            Seperator::Colon => ':',
        }
    }
}

impl vstd::std_specs::convert::FromSpecImpl<Seperator> for char {
    open spec fn obeys_from_spec() -> bool {
        true
    }

    open spec fn from_spec(sep: Seperator) -> char {
        sep_char(sep)
    }
}

impl std::convert::TryFrom<char> for Seperator {
    type Error = ();

    fn try_from(c: char) -> (r: Result<Self, Self::Error>) {
        match c {
            ';' => Ok(Self::Semicolon),
            ':' => Ok(Self::Colon),
            _ => Err(()),
        }
    }
}

impl vstd::std_specs::convert::TryFromSpecImpl<char> for Seperator {
    open spec fn obeys_try_from_spec() -> bool {
        true
    }

    open spec fn try_from_spec(c: char) -> Result<Self, ()> {
        if c == ';' {
            Ok(Seperator::Semicolon)
        } else if c == ':' {
            Ok(Seperator::Colon)
        } else {
            Err(())
        }
    }
}

///This is the timecode produced directly after being parsed. It has no knowledge
///about what the target framerate is, and simply contains the data found in the string.
#[derive(Debug, PartialEq, Clone, Copy)]
pub struct UnvalidatedTC {
    pub h: u8,
    pub m: u8,
    pub s: u8,
    pub f: FrameCount,
    pub seperator: Seperator,
}

pub open spec fn is_digit(c: char) -> bool {
    '0' <= c <= '9'
}

pub open spec fn digit_value(c: char) -> nat {
    (c as u32 - '0' as u32) as nat
}

/// The number written by a string of decimal digits.
pub open spec fn digits_value(s: Seq<char>) -> nat
    decreases s.len(),
{
    if s.len() == 0 {
        0
    } else {
        digits_value(s.drop_last()) * 10 + digit_value(s.last())
    }
}

pub open spec fn all_digits(s: Seq<char>) -> bool {
    forall|i: int| 0 <= i < s.len() ==> is_digit(#[trigger] s[i])
}

pub open spec fn pow10(n: nat) -> nat
    decreases n,
{
    if n == 0 {
        1
    } else {
        10 * pow10((n - 1) as nat)
    }
}

/// How many digits follow position `i` of `s`, counting at most `max`.
pub open spec fn run_len(s: Seq<char>, i: int, max: nat) -> nat
    decreases max,
{
    if max > 0 && 0 <= i < s.len() && is_digit(s[i]) {
        1 + run_len(s, i + 1, (max - 1) as nat)
    } else {
        0
    }
}

/// The number written by the `len` characters from position `i`.
pub open spec fn field_value(s: Seq<char>, i: int, len: int) -> nat {
    digits_value(s.subrange(i, i + len))
}

/// A timecode at the start of `s`: three fields of two or three digits separated by
/// `:`, then `:` or `;` and a frames field of two to ten digits, each field taking
/// as many digits as it can. Gives the fields and the position after the frames, or
/// `None` where the text does not match or a value does not fit its field.
pub open spec fn timecode_prefix(s: Seq<char>) -> Option<(UnvalidatedTC, int)> {
    let l1 = run_len(s, 0, 3) as int;
    let p1 = l1 + 1;
    let l2 = run_len(s, p1, 3) as int;
    let p2 = p1 + l2 + 1;
    let l3 = run_len(s, p2, 3) as int;
    let p3 = p2 + l3 + 1;
    let l4 = run_len(s, p3, 10) as int;
    let h = field_value(s, 0, l1);
    let m = field_value(s, p1, l2);
    let sec = field_value(s, p2, l3);
    let f = field_value(s, p3, l4);
    if l1 >= 2 && p1 <= s.len() && s[l1] == ':' && l2 >= 2 && p2 <= s.len() && s[p1 + l2]
        == ':' && l3 >= 2 && p3 <= s.len() && (s[p2 + l3] == ':' || s[p2 + l3] == ';') && l4
        >= 2 && h <= 255 && m <= 255 && sec <= 255 && f <= u32::MAX {
        Some(
            (
                UnvalidatedTC {
                    h: h as u8,
                    m: m as u8,
                    s: sec as u8,
                    f: f as u32,
                    seperator: if s[p2 + l3] == ';' {
                        Seperator::Semicolon
                    } else {
                        Seperator::Colon
                    },
                },
                p3 + l4,
            ),
        )
    } else {
        None
    }
}

/// A timecode that takes up the whole of `s`.
pub open spec fn parse_timecode(s: Seq<char>) -> Option<UnvalidatedTC> {
    match timecode_prefix(s) {
        Some((tc, end)) => if end == s.len() {
            Some(tc)
        } else {
            None
        },
        None => None,
    }
}

/// Powers of ten grow with the exponent.
pub proof fn lemma_pow10_mono(n: nat, m: nat)
    requires
        n <= m,
    ensures
        1 <= pow10(n) <= pow10(m),
    decreases m,
{
    if n < m {
        lemma_pow10_mono(n, (m - 1) as nat);
    } else if n > 0 {
        lemma_pow10_mono((n - 1) as nat, (n - 1) as nat);
    }
}

proof fn lemma_pow10_bound(n: nat)
    requires
        n <= 10,
    ensures
        pow10(n) <= 10_000_000_000,
{
    reveal_with_fuel(pow10, 11);
    lemma_pow10_mono(n, 10);
}

/// The number written by a prefix is at most the number written by the whole.
pub proof fn lemma_digits_prefix_le(s: Seq<char>, j: int)
    requires
        0 <= j <= s.len(),
    ensures
        digits_value(s.subrange(0, j)) <= digits_value(s),
    decreases s.len(),
{
    if j == s.len() {
        assert(s.subrange(0, j) =~= s);
    } else {
        lemma_digits_prefix_le(s.drop_last(), j);
        assert(s.drop_last().subrange(0, j) =~= s.subrange(0, j));
    }
}

///string to int: the number written by `input`, which must be one or more ASCII
///digits and fit a `u64`.
pub fn from_dec(input: &str) -> (r: Option<u64>)
    ensures
        r is Some <==> (input@.len() > 0 && all_digits(input@) && digits_value(input@)
            <= u64::MAX),
        r matches Some(v) ==> v == digits_value(input@),
{
    let len = input.unicode_len();
    if len == 0 {
        return None;
    }
    let mut i: usize = 0;
    let mut value: u64 = 0;
    proof {
        assert(input@.subrange(0, 0) =~= Seq::<char>::empty());
    }
    while i < len
        invariant
            i <= len,
            len == input@.len(),
            value == digits_value(input@.subrange(0, i as int)),
            all_digits(input@.subrange(0, i as int)),
        decreases len - i,
    {
        let c = input.get_char(i);
        if !is_digit_char(c) {
            return None;
        }
        let sub = Ghost(input@.subrange(0, i + 1));
        proof {
            assert(sub@.drop_last() =~= input@.subrange(0, i as int));
            assert(sub@.last() == c);
            lemma_digits_prefix_le(input@, i + 1);
        }
        let d = c as u64 - '0' as u64;
        let v10 = match value.checked_mul(10) {
            Some(v) => v,
            None => {
                return None;
            },
        };
        value = match v10.checked_add(d) {
            Some(v) => v,
            None => {
                return None;
            },
        };
        i = i + 1;
        proof {
            assert forall|j: int| 0 <= j < i implies is_digit(
                #[trigger] input@.subrange(0, i as int)[j],
            ) by {
                if j < i - 1 {
                    assert(input@.subrange(0, i as int)[j] == input@.subrange(0, i - 1)[j]);
                }
            }
        }
    }
    proof {
        assert(input@.subrange(0, len as int) =~= input@);
    }
    Some(value)
}

fn is_digit_char(c: char) -> (r: bool)
    ensures
        r == is_digit(c),
{
    c >= '0' && c <= '9'
}

/// Reads the digits from position `start` of `s`, at most `max` of them: their count
/// and the number they write.
fn digit_run(s: &str, len: usize, start: usize, max: usize) -> (r: (usize, u64))
    requires
        len == s@.len(),
        start <= len,
        max <= 10,
    ensures
        r.0 == run_len(s@, start as int, max as nat),
        start + r.0 <= len,
        r.1 == field_value(s@, start as int, r.0 as int),
{
    let mut i: usize = start;
    let mut value: u64 = 0;
    proof {
        assert(s@.subrange(start as int, start as int) =~= Seq::<char>::empty());
    }
    while i < len && i - start < max && is_digit_char(s.get_char(i))
        invariant
            start <= i <= len,
            i - start <= max,
            max <= 10,
            len == s@.len(),
            run_len(s@, start as int, max as nat) == (i - start) + run_len(
                s@,
                i as int,
                (max - (i - start)) as nat,
            ),
            value == digits_value(s@.subrange(start as int, i as int)),
            value < pow10((i - start) as nat),
        decreases len - i,
    {
        let c = s.get_char(i);
        proof {
            let sub = s@.subrange(start as int, i + 1);
            assert(sub.drop_last() =~= s@.subrange(start as int, i as int));
            assert(sub.last() == c);
            lemma_pow10_bound((i - start) as nat);
            assert(pow10((i + 1 - start) as nat) == 10 * pow10((i - start) as nat));
        }
        value = value * 10 + (c as u64 - '0' as u64);
        i = i + 1;
    }
    proof {
        assert(run_len(s@, i as int, (max - (i - start)) as nat) == 0);
    }
    (i - start, value)
}

///Reads a timecode at the start of `input`, returning the rest of the input and the
///fields read. Fails where the text does not match `HH:MM:SS<sep>FF` or a value does
///not fit its field; what follows the frames field is left to the caller.
pub fn timecode_nom(input: &str) -> (r: Result<(&str, UnvalidatedTC), ()>)
    ensures
        timecode_prefix(input@) matches Some((tc, end)) ==> end <= input@.len(),
        timecode_prefix(input@) matches Some((tc, end)) ==> r matches Ok((rest, t)) && t == tc
            && rest@ == input@.subrange(end, input@.len() as int),
        timecode_prefix(input@) is None ==> r is Err,
{
    let len = input.unicode_len();
    let s = input;
    let (l1, h) = digit_run(s, len, 0, 3);
    if l1 < 2 || l1 >= len || s.get_char(l1) != ':' {
        return Err(());
    }
    let p1 = l1 + 1;
    let (l2, m) = digit_run(s, len, p1, 3);
    if l2 < 2 || p1 + l2 >= len || s.get_char(p1 + l2) != ':' {
        return Err(());
    }
    let p2 = p1 + l2 + 1;
    let (l3, sec) = digit_run(s, len, p2, 3);
    if l3 < 2 || p2 + l3 >= len {
        return Err(());
    }
    let sep_c = s.get_char(p2 + l3);
    let seperator = if sep_c == ';' {
        Seperator::Semicolon
    } else if sep_c == ':' {
        Seperator::Colon
    } else {
        return Err(());
    };
    let p3 = p2 + l3 + 1;
    let (l4, f) = digit_run(s, len, p3, 10);
    if l4 < 2 || h > 255 || m > 255 || sec > 255 || f > u32::MAX as u64 {
        return Err(());
    }
    let rest = s.substring_char(p3 + l4, len);
    Ok((rest, UnvalidatedTC { h: h as u8, m: m as u8, s: sec as u8, f: f as u32, seperator }))
}

///Returns an unvalidated timecode parsed into a struct iff it matches a valid timecode format
///
/// Current valid formats:
///   HHH:MM:SS;FFF
///   HHH:MM:SS:FFF
///
/// hours, minutes and seconds are two or three digits below 256; frames are two to
/// ten digits and fit a `FrameCount`.
///
/// NOTE: may not have any trailing/preceding whitespace. To allow trailing characters, see
/// [`timecode_nom`]
pub fn unvalidated(input: &str) -> (r: Option<UnvalidatedTC>)
    ensures
        r == parse_timecode(input@),
{
    match timecode_nom(input) {
        Ok((rest, v)) => {
            proof {
                let (tc, end) = timecode_prefix(input@).unwrap();
                assert(rest@.len() == input@.len() - end);
            }
            //trailing characters are not part of a timecode
            if rest.unicode_len() == 0 {
                Some(v)
            } else {
                None
            }
        },
        Err(_) => None,
    }
}

impl std::str::FromStr for UnvalidatedTC {
    type Err = ();

    fn from_str(s: &str) -> (r: Result<Self, ()>)
        ensures
            parse_timecode(s@) matches Some(tc) ==> r == Ok::<UnvalidatedTC, ()>(tc),
            parse_timecode(s@) is None ==> r == Err::<UnvalidatedTC, ()>(()),
    {
        match unvalidated(s) {
            Some(t) => Ok(t),
            None => Err(()),
        }
    }
}

} // verus!
