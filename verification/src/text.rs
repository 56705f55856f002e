//! Characters, white space and decimal numbers: the text primitives the rest
//! of the library stands on.

use vstd::prelude::*;

verus! {

/// Whether `c` counts as white space: what `char::is_whitespace` of std
/// answers for it.
pub uninterp spec fn white_space(c: char) -> bool;

/// The upper-case form of a text: what `str::to_uppercase` of std gives for
/// it.
pub uninterp spec fn uppercased(s: Seq<char>) -> Seq<char>;

/// The error of std's integer parsing, carried through as it comes.
#[verifier::external_type_specification]
#[verifier::external_body]
pub struct ExParseIntError(std::num::ParseIntError);

/// `char::is_whitespace` of std. Its answer depends on the character alone,
/// which is all that is claimed of it here.
#[verifier::external_body]
pub(crate) fn is_whitespace(c: char) -> (r: bool)
    ensures
        r == white_space(c),
{
    c.is_whitespace()
}

/// `str::to_uppercase` of std. Its result depends on the characters of the
/// text alone, which is all that is claimed of it here.
#[verifier::external_body]
pub(crate) fn to_uppercase(s: &str) -> (r: String)
    ensures
        r@ == uppercased(s@),
{
    s.to_uppercase()
}

/// `str::parse::<i64>` of std: succeeds exactly on an optional sign followed
/// by decimal digits whose value fits an `i64`, and then gives that value.
#[verifier::external_body]
pub(crate) fn parse_i64(s: &str) -> (r: Result<i64, std::num::ParseIntError>)
    ensures
        match r {
            Ok(value) => signed_decimal(s@) == Some(value as int),
            Err(_) => !within(signed_decimal(s@), i64::MIN as int, i64::MAX as int),
        },
{
    s.parse::<i64>()
}

/// `str::parse::<usize>` of std: succeeds exactly on an optional `+`
/// followed by decimal digits whose value fits a `usize`, and then gives
/// that value.
#[verifier::external_body]
pub(crate) fn parse_usize(s: &str) -> (r: Result<usize, std::num::ParseIntError>)
    ensures
        match r {
            Ok(value) => unsigned_decimal(s@) == Some(value as int),
            Err(_) => !within(unsigned_decimal(s@), 0, usize::MAX as int),
        },
{
    s.parse::<usize>()
}

/// Whether `number` is there and lies between `low` and `high`.
pub open spec fn within(number: Option<int>, low: int, high: int) -> bool {
    match number {
        Some(value) => low <= value <= high,
        None => false,
    }
}

/// Whether `c` is one of the ten decimal digits.
pub open spec fn is_digit(c: char) -> bool {
    '0' <= c && c <= '9'
}

/// Whether `s` is one decimal digit or more, and nothing else.
pub open spec fn is_digits(s: Seq<char>) -> bool {
    s.len() > 0 && forall|i: int| 0 <= i < s.len() ==> is_digit(#[trigger] s[i])
}

/// The number that the decimal digits `s` denote.
pub open spec fn digits_value(s: Seq<char>) -> int
    decreases s.len(),
{
    if s.len() == 0 {
        0
    } else {
        digits_value(s.drop_last()) * 10 + (s.last() as int - '0' as int)
    }
}

/// The number that `s` denotes as an optional `+` followed by digits, if it
/// is of that form.
pub open spec fn unsigned_decimal(s: Seq<char>) -> Option<int> {
    if s.len() > 0 && s[0] == '+' {
        if is_digits(s.skip(1)) {
            Some(digits_value(s.skip(1)))
        } else {
            None
        }
    } else if is_digits(s) {
        Some(digits_value(s))
    } else {
        None
    }
}

/// The number that `s` denotes as an optional `+` or `-` followed by digits,
/// if it is of that form.
pub open spec fn signed_decimal(s: Seq<char>) -> Option<int> {
    if s.len() > 0 && s[0] == '-' {
        if is_digits(s.skip(1)) {
            Some(-digits_value(s.skip(1)))
        } else {
            None
        }
    } else {
        unsigned_decimal(s)
    }
}

/// `s` without its leading white space.
pub open spec fn trimmed_start(s: Seq<char>) -> Seq<char>
    decreases s.len(),
{
    if s.len() > 0 && white_space(s[0]) {
        trimmed_start(s.drop_first())
    } else {
        s
    }
}

/// `s` without its trailing white space.
pub open spec fn trimmed_end(s: Seq<char>) -> Seq<char>
    decreases s.len(),
{
    if s.len() > 0 && white_space(s.last()) {
        trimmed_end(s.drop_last())
    } else {
        s
    }
}

/// `s` without its leading and trailing white space.
pub open spec fn trimmed(s: Seq<char>) -> Seq<char> {
    trimmed_end(trimmed_start(s))
}

/// `text` said `times` times over.
pub open spec fn repeated(text: Seq<char>, times: nat) -> Seq<char>
    decreases times,
{
    if times == 0 {
        Seq::<char>::empty()
    } else {
        repeated(text, (times - 1) as nat) + text
    }
}

/// The characters of `s`, in order.
pub fn chars_of(s: &str) -> (chars: Vec<char>)
    ensures
        chars@ == s@,
{
    let mut chars: Vec<char> = Vec::new();
    for c in it: s.chars()
        invariant
            chars@ == it.seq().take(it.index() as int),
            it.seq() == s@,
    {
        chars.push(c);
    }
    chars
}

/// Where the part of `chars` between `from` and `to` begins and ends once
/// its leading and trailing white space is left out.
pub fn trim_bounds(chars: &Vec<char>, from: usize, to: usize) -> (bounds: (usize, usize))
    requires
        from <= to <= chars.len(),
    ensures
        from <= bounds.0 <= bounds.1 <= to,
        chars@.subrange(bounds.0 as int, bounds.1 as int) == trimmed(
            chars@.subrange(from as int, to as int),
        ),
{
    let mut start = from;
    while start < to && is_whitespace(chars[start])
        invariant
            from <= start <= to <= chars.len(),
            trimmed_start(chars@.subrange(start as int, to as int)) == trimmed_start(
                chars@.subrange(from as int, to as int),
            ),
        decreases to - start,
    {
        proof {
            assert(chars@.subrange(start as int, to as int).drop_first() =~= chars@.subrange(
                start + 1,
                to as int,
            ));
        }
        start += 1;
    }
    let mut end = to;
    while end > start && is_whitespace(chars[end - 1])
        invariant
            start <= end <= to <= chars.len(),
            trimmed_end(chars@.subrange(start as int, end as int)) == trimmed_end(
                chars@.subrange(start as int, to as int),
            ),
        decreases end - start,
    {
        proof {
            assert(chars@.subrange(start as int, end as int).drop_last() =~= chars@.subrange(
                start as int,
                end - 1,
            ));
        }
        end -= 1;
    }
    (start, end)
}

} // verus!
