//! Reading numbers, flags and names out of the short texts that the kernel's
//! sysfs files and the configuration file hold.
use std::num::ParseIntError;
use vstd::prelude::*;

verus! {

#[verifier::external_type_specification]
#[verifier::external_body]
pub struct ExParseIntError(ParseIntError);

/// Unicode's `White_Space` property, which `str::trim` and `str::trim_end` strip.
pub open spec fn is_whitespace(c: char) -> bool {
    ||| '\u{9}' <= c <= '\u{d}'
    ||| c == ' '
    ||| c == '\u{85}'
    ||| c == '\u{a0}'
    ||| c == '\u{1680}'
    ||| '\u{2000}' <= c <= '\u{200a}'
    ||| c == '\u{2028}'
    ||| c == '\u{2029}'
    ||| c == '\u{202f}'
    ||| c == '\u{205f}'
    ||| c == '\u{3000}'
}

/// `s` without its trailing whitespace.
pub open spec fn trimmed_end(s: Seq<char>) -> Seq<char>
    decreases s.len(),
{
    if s.len() > 0 && is_whitespace(s.last()) {
        trimmed_end(s.drop_last())
    } else {
        s
    }
}

/// `s` without its leading whitespace.
pub open spec fn trimmed_start(s: Seq<char>) -> Seq<char>
    decreases s.len(),
{
    if s.len() > 0 && is_whitespace(s[0]) {
        trimmed_start(s.drop_first())
    } else {
        s
    }
}

/// `s` without leading and trailing whitespace.
pub open spec fn trimmed(s: Seq<char>) -> Seq<char> {
    trimmed_start(trimmed_end(s))
}

pub open spec fn is_decimal_digit(c: char) -> bool {
    '0' <= c <= '9'
}

/// The number that a string of decimal digits writes.
pub open spec fn digits_value(s: Seq<char>) -> nat
    decreases s.len(),
{
    if s.len() == 0 {
        0
    } else {
        digits_value(s.drop_last()) * 10 + (s.last() as nat - '0' as nat) as nat
    }
}

/// What `str::parse` makes of `s` for an unsigned integer type whose largest
/// value is `max`: an optional `+` followed by at least one ASCII digit and
/// nothing else, with a value that fits.
pub open spec fn parsed_unsigned(s: Seq<char>, max: nat) -> Option<nat> {
    let digits = if s.len() > 0 && s[0] == '+' {
        s.drop_first()
    } else {
        s
    };
    if digits.len() > 0 && (forall|i: int| 0 <= i < digits.len() ==> is_decimal_digit(#[trigger] digits[i]))
        && digits_value(digits) <= max {
        Some(digits_value(digits))
    } else {
        None
    }
}

/// What `str::parse::<bool>` makes of `s`.
pub open spec fn parsed_bool(s: Seq<char>) -> Option<bool> {
    if s == "true"@ {
        Some(true)
    } else if s == "false"@ {
        Some(false)
    } else {
        None
    }
}

/// Whether `c` is Unicode whitespace, as `char::is_whitespace` tells.
pub fn is_whitespace_char(c: char) -> (res: bool)
    ensures
        res == is_whitespace(c),
{
    ('\u{9}' <= c && c <= '\u{d}') || c == ' ' || c == '\u{85}' || c == '\u{a0}' || c == '\u{1680}'
        || ('\u{2000}' <= c && c <= '\u{200a}') || c == '\u{2028}' || c == '\u{2029}' || c == '\u{202f}'
        || c == '\u{205f}' || c == '\u{3000}'
}

/// The text without trailing Unicode whitespace (what `str::trim_end` gives).
pub fn trim_end(s: &str) -> (res: &str)
    ensures
        res@ == trimmed_end(s@),
{
    let mut end = s.unicode_len();
    assert(s@.subrange(0, end as int) =~= s@);
    loop
        invariant
            end <= s@.len(),
            trimmed_end(s@) == trimmed_end(s@.subrange(0, end as int)),
        ensures
            end <= s@.len(),
            trimmed_end(s@) == trimmed_end(s@.subrange(0, end as int)),
            end == 0 || !is_whitespace(s@[end - 1]),
        decreases end,
    {
        if end == 0 {
            break;
        }
        if !is_whitespace_char(s.get_char(end - 1)) {
            break;
        }
        proof {
            let sub = s@.subrange(0, end as int);
            assert(sub.drop_last() =~= s@.subrange(0, end - 1));
            assert(sub.last() == s@[end - 1]);
        }
        end = end - 1;
    }
    let res = s.substring_char(0, end);
    proof {
        let sub = s@.subrange(0, end as int);
        if end > 0 {
            assert(sub.last() == s@[end - 1]);
        } else {
            assert(sub =~= Seq::<char>::empty());
        }
    }
    res
}

/// The text without leading Unicode whitespace (what `str::trim_start` gives).
fn trim_start(s: &str) -> (res: &str)
    ensures
        res@ == trimmed_start(s@),
{
    let n = s.unicode_len();
    let mut start: usize = 0;
    assert(s@.subrange(0, n as int) =~= s@);
    loop
        invariant
            start <= n,
            n == s@.len(),
            trimmed_start(s@) == trimmed_start(s@.subrange(start as int, n as int)),
        ensures
            start <= n,
            n == s@.len(),
            trimmed_start(s@) == trimmed_start(s@.subrange(start as int, n as int)),
            start == n || !is_whitespace(s@[start as int]),
        decreases n - start,
    {
        if start == n {
            break;
        }
        if !is_whitespace_char(s.get_char(start)) {
            break;
        }
        proof {
            let sub = s@.subrange(start as int, n as int);
            assert(sub.drop_first() =~= s@.subrange(start + 1, n as int));
            assert(sub[0] == s@[start as int]);
        }
        start = start + 1;
    }
    let res = s.substring_char(start, n);
    proof {
        let sub = s@.subrange(start as int, n as int);
        if start < n {
            assert(sub[0] == s@[start as int]);
        } else {
            assert(sub =~= Seq::<char>::empty());
        }
    }
    res
}

/// The text without leading and trailing Unicode whitespace (what `str::trim`
/// gives).
pub fn trim(s: &str) -> (res: &str)
    ensures
        res@ == trimmed(s@),
{
    trim_start(trim_end(s))
}

/// `str::parse::<u32>`: succeeds exactly on an optional `+` followed by
/// decimal digits whose value fits in a `u32`, and then gives that value.
#[verifier::external_body]
pub(crate) fn parse_u32(s: &str) -> (res: Result<u32, ParseIntError>)
    ensures
        res is Ok <==> parsed_unsigned(s@, u32::MAX as nat) is Some,
        res matches Ok(v) ==> parsed_unsigned(s@, u32::MAX as nat) == Some(v as nat),
{
    s.parse::<u32>()
}

/// `str::parse::<u8>`: succeeds exactly on an optional `+` followed by
/// decimal digits whose value fits in a `u8`, and then gives that value.
#[verifier::external_body]
pub(crate) fn parse_u8(s: &str) -> (res: Option<u8>)
    ensures
        res is Some <==> parsed_unsigned(s@, u8::MAX as nat) is Some,
        res matches Some(v) ==> parsed_unsigned(s@, u8::MAX as nat) == Some(v as nat),
{
    s.parse::<u8>().ok()
}

/// What `str::parse::<bool>` gives: `true` for "true", `false` for
/// "false", nothing for anything else.
pub fn parse_bool(s: &str) -> (res: Option<bool>)
    ensures
        res == parsed_bool(s@),
{
    if same_text(s, "true") {
        Some(true)
    } else if same_text(s, "false") {
        Some(false)
    } else {
        None
    }
}

/// Whether two texts hold the same characters.
pub fn same_text(a: &str, b: &str) -> (res: bool)
    ensures
        res == (a@ == b@),
{
    let n = a.unicode_len();
    if n != b.unicode_len() {
        return false;
    }
    let mut i: usize = 0;
    while i < n
        invariant
            n == a@.len(),
            n == b@.len(),
            i <= n,
            forall|j: int| 0 <= j < i ==> a@[j] == b@[j],
        decreases n - i,
    {
        if a.get_char(i) != b.get_char(i) {
            return false;
        }
        i = i + 1;
    }
    assert(a@ =~= b@);
    true
}

} // verus!
