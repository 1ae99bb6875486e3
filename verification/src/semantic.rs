//! Meaning checks after a match: a matched field is not yet a valid number, request
//! line or time.

use vstd::prelude::*;

use crate::compile::{all_digits, digits_value, lemma_digits_value_mono};
use crate::ext::{
    naive_parse_result, offset_parse_result, parse_naive, parse_rfc3339, parse_with_offset,
    rfc3339_parse_result, str_chars, CHRONO_MICROS_BOUND,
};
use crate::model::{TimestampFormat, TimezonePolicy};
use crate::text::{chars_contain, chars_start_with, chars_substring, contains, is_ascii_digit, push_str, starts_with};

verus! {

/// A resolved timestamp.
#[derive(Debug, Clone, Copy, PartialEq, Eq)]
pub struct ResolvedTime {
    /// UTC microseconds; `None` when the time zone is not determined.
    pub utc_micros: Option<i64>,
    /// The offset applied, in seconds.
    pub offset_seconds: Option<i32>,
}

/// The value of an integer text as Rust's signed integer parser reads it: an optional
/// `+` or `-`, then one or more ASCII digits.
pub open spec fn signed_int_value(s: Seq<char>) -> Option<int> {
    if s.len() >= 2 && s[0] == '-' && all_digits(s.drop_first()) {
        Some(-(digits_value(s.drop_first()) as int))
    } else if s.len() >= 2 && s[0] == '+' && all_digits(s.drop_first()) {
        Some(digits_value(s.drop_first()) as int)
    } else if s.len() >= 1 && all_digits(s) {
        Some(digits_value(s) as int)
    } else {
        None
    }
}

/// The value of an integer text as Rust's unsigned integer parser reads it: an optional
/// `+`, then one or more ASCII digits.
pub open spec fn unsigned_int_value(s: Seq<char>) -> Option<nat> {
    if s.len() >= 2 && s[0] == '+' && all_digits(s.drop_first()) {
        Some(digits_value(s.drop_first()))
    } else if s.len() >= 1 && all_digits(s) {
        Some(digits_value(s))
    } else {
        None
    }
}

/// When the digits read so far already exceed `bound`, the whole number does too.
proof fn lemma_prefix_over(rest: Seq<char>, i: int, bound: int)
    requires
        1 <= i <= rest.len(),
        digits_value(rest.subrange(0, i)) > bound,
    ensures
        !(all_digits(rest) && digits_value(rest) <= bound),
{
    if all_digits(rest) {
        lemma_digits_value_mono(rest, i);
    }
}

/// The value of the digits `c[from..]`, if all are digits, there is at least one, and the
/// value fits in a `u64`.
fn digits_u64(c: &Vec<char>, from: usize) -> (r: Option<u64>)
    requires
        from <= c.len(),
    ensures
        match r {
            Some(v) => from < c.len() && all_digits(c@.subrange(from as int, c.len() as int))
                && v as nat == digits_value(c@.subrange(from as int, c.len() as int)),
            None => from == c.len() || !all_digits(c@.subrange(from as int, c.len() as int))
                || digits_value(c@.subrange(from as int, c.len() as int)) > u64::MAX,
        },
{
    if from == c.len() {
        return None;
    }
    let ghost rest = c@.subrange(from as int, c.len() as int);
    let mut value: u64 = 0;
    let mut i: usize = from;
    while i < c.len()
        invariant
            from < c.len(),
            rest == c@.subrange(from as int, c.len() as int),
            from <= i <= c.len(),
            all_digits(c@.subrange(from as int, i as int)),
            value as nat == digits_value(c@.subrange(from as int, i as int)),
        decreases c.len() - i,
    {
        let ch = c[i];
        if !('0' <= ch && ch <= '9') {
            assert(!all_digits(rest)) by {
                assert(rest[i - from] == ch);
            }
            return None;
        }
        let d: u64 = (ch as u32 - 48) as u64;
        proof {
            let s = c@.subrange(from as int, i + 1);
            assert(s.drop_last() =~= c@.subrange(from as int, i as int));
            assert(s.last() == ch);
            assert(c@.subrange(from as int, i + 1) =~= rest.subrange(0, i + 1 - from));
        }
        match value.checked_mul(10) {
            None => {
                proof { lemma_prefix_over(rest, i + 1 - from, u64::MAX as int); }
                return None;
            },
            Some(m) => match m.checked_add(d) {
                None => {
                    proof { lemma_prefix_over(rest, i + 1 - from, u64::MAX as int); }
                    return None;
                },
                Some(v) => {
                    value = v;
                },
            },
        }
        i = i + 1;
    }
    Some(value)
}

/// The `i64` an integer text stands for, if it is one and fits.
pub open spec fn i64_value(s: Seq<char>) -> Option<i64> {
    match signed_int_value(s) {
        Some(v) => if i64::MIN <= v <= i64::MAX { Some(v as i64) } else { None },
        None => None,
    }
}

/// Parses a signed integer (Rust's `i64` text form).
pub fn parse_i64(raw: &str) -> (r: Option<i64>)
    ensures
        r == i64_value(raw@),
{
    let c = str_chars(raw);
    if c.len() == 0 {
        return None;
    }
    if c[0] == '-' || c[0] == '+' {
        assert(c@.subrange(1, c.len() as int) =~= c@.drop_first());
        let neg = c[0] == '-';
        match digits_u64(&c, 1) {
            None => None,
            Some(m) => {
                if neg {
                    if m <= 0x8000_0000_0000_0000u64 {
                        if m == 0x8000_0000_0000_0000u64 {
                            Some(i64::MIN)
                        } else {
                            Some(-(m as i64))
                        }
                    } else {
                        None
                    }
                } else if m <= 0x7fff_ffff_ffff_ffffu64 {
                    Some(m as i64)
                } else {
                    None
                }
            },
        }
    } else {
        assert(c@.subrange(0, c.len() as int) =~= c@);
        match digits_u64(&c, 0) {
            None => None,
            Some(m) => if m <= 0x7fff_ffff_ffff_ffffu64 {
                Some(m as i64)
            } else {
                None
            },
        }
    }
}

/// Parses an unsigned integer of at most `u16::MAX` (Rust's `u16` text form).
fn parse_u16(raw: &str) -> (r: Option<u16>)
    ensures
        match unsigned_int_value(raw@) {
            Some(v) => if v <= u16::MAX { r == Some(v as u16) } else { r is None },
            None => r is None,
        },
{
    let c = str_chars(raw);
    if c.len() == 0 {
        return None;
    }
    let from: usize = if c[0] == '+' { 1 } else { 0 };
    assert(c@.subrange(1, c.len() as int) =~= c@.drop_first());
    assert(c@.subrange(0, c.len() as int) =~= c@);
    if from == 0 {
        assert(c@[0] != '+');
    } else {
        assert(!is_ascii_digit(c@[0]));
    }
    match digits_u64(&c, from) {
        None => None,
        Some(m) => if m <= 65535 {
            Some(m as u16)
        } else {
            None
        },
    }
}

/// A status code: an unsigned integer from 100 to 599.
pub open spec fn status_value(s: Seq<char>) -> Option<u16> {
    match unsigned_int_value(s) {
        Some(v) => if 100 <= v <= 599 { Some(v as u16) } else { None },
        None => None,
    }
}

/// Parses a status code; only 100 to 599 is valid.
pub fn parse_status(raw: &str) -> (r: Option<u16>)
    ensures
        r == status_value(raw@),
{
    match parse_u16(raw) {
        Some(s) => if 100 <= s && s <= 599 {
            Some(s)
        } else {
            None
        },
        None => None,
    }
}

/// Position of the first `c` in `s`.
pub open spec fn find_char(s: Seq<char>, c: char) -> Option<int>
    decreases s.len(),
{
    if s.len() == 0 {
        None
    } else if s[0] == c {
        Some(0)
    } else {
        match find_char(s.drop_first(), c) {
            Some(i) => Some(i + 1),
            None => None,
        }
    }
}

/// What the position found means: the first occurrence.
pub proof fn lemma_find_char(s: Seq<char>, c: char)
    ensures
        match find_char(s, c) {
            Some(i) => 0 <= i < s.len() && s[i] == c && forall|k: int| 0 <= k < i ==> s[k] != c,
            None => forall|k: int| 0 <= k < s.len() ==> s[k] != c,
        },
    decreases s.len(),
{
    if s.len() > 0 {
        lemma_find_char(s.drop_first(), c);
        if s[0] != c {
            assert forall|k: int| 1 <= k < s.len() implies s[k] == s.drop_first()[k - 1] by {}
        }
    }
}

/// The first `c` at or after `from` in `v`.
fn find_char_from(v: &Vec<char>, c: char, from: usize) -> (r: Option<usize>)
    requires
        from <= v.len(),
    ensures
        match find_char(v@.subrange(from as int, v.len() as int), c) {
            Some(i) => r == Some((i + from) as usize),
            None => r is None,
        },
        r matches Some(k) ==> from <= k < v.len(),
    decreases v.len() - from,
{
    proof { lemma_find_char(v@.subrange(from as int, v.len() as int), c); }
    if from == v.len() {
        return None;
    }
    let ghost s = v@.subrange(from as int, v.len() as int);
    assert(s.drop_first() =~= v@.subrange(from + 1, v.len() as int));
    if v[from] == c {
        return Some(from);
    }
    find_char_from(v, c, from + 1)
}

/// A method token: one or more of `A`-`Z`, `-`, `_`.
pub open spec fn method_token(t: Seq<char>) -> bool {
    t.len() > 0 && forall|i: int| 0 <= i < t.len() ==> ('A' <= #[trigger] t[i] <= 'Z' || t[i] == '-' || t[i] == '_')
}

/// Whether `t` is a method token.
pub fn is_method(t: &Vec<char>) -> (r: bool)
    ensures
        r == method_token(t@),
{
    if t.len() == 0 {
        return false;
    }
    let mut i: usize = 0;
    while i < t.len()
        invariant
            i <= t.len(),
            forall|k: int| 0 <= k < i ==> ('A' <= #[trigger] t@[k] <= 'Z' || t@[k] == '-' || t@[k] == '_'),
        decreases t.len() - i,
    {
        let ch = t[i];
        if !(('A' <= ch && ch <= 'Z') || ch == '-' || ch == '_') {
            return false;
        }
        i = i + 1;
    }
    true
}

/// The method, target and protocol of a request line. The line is cut at its first two
/// spaces; a line whose method or protocol is malformed is kept whole as the target.
pub open spec fn request_parts(raw: Seq<char>) -> (Option<Seq<char>>, Option<Seq<char>>, Option<Seq<char>>) {
    let whole = (None::<Seq<char>>, Some(raw), None::<Seq<char>>);
    match find_char(raw, ' ') {
        None => whole,
        Some(i) => {
            let a = raw.subrange(0, i);
            let rest = raw.subrange(i + 1, raw.len() as int);
            match find_char(rest, ' ') {
                Some(j) => {
                    let b = rest.subrange(0, j);
                    let c = rest.subrange(j + 1, rest.len() as int);
                    if method_token(a) && starts_with(c, "HTTP/"@) {
                        (Some(a), Some(b), Some(c))
                    } else {
                        whole
                    }
                },
                None => if method_token(a) {
                    (Some(a), Some(rest), None)
                } else {
                    whole
                },
            }
        },
    }
}

/// The characters of each present value.
pub open spec fn opt3_view(t: (Option<String>, Option<String>, Option<String>)) -> (Option<Seq<char>>, Option<Seq<char>>, Option<Seq<char>>) {
    (crate::record::opt_view(t.0), crate::record::opt_view(t.1), crate::record::opt_view(t.2))
}

/// Splits a request line into method, target and protocol (see [`request_parts`]).
pub fn split_request_line(raw: &str) -> (r: (Option<String>, Option<String>, Option<String>))
    ensures
        opt3_view(r) == request_parts(raw@),
{
    let c = str_chars(raw);
    assert(c@.subrange(0, c.len() as int) =~= c@);
    let whole = (None, Some(raw.to_owned()), None);
    match find_char_from(&c, ' ', 0) {
        None => whole,
        Some(i) => {
            let a = crate::text::chars_slice(&c, 0, i);
            let ghost rest = c@.subrange(i + 1, c.len() as int);
            proof {
                lemma_find_char(c@, ' ');
                lemma_find_char(rest, ' ');
            }
            match find_char_from(&c, ' ', i + 1) {
                Some(j) => {
                    proof {
                        let jj = find_char(rest, ' ')->Some_0;
                        assert(j == jj + i + 1);
                        assert(rest.subrange(0, jj) =~= c@.subrange(i + 1, j as int));
                        assert(rest.subrange(jj + 1, rest.len() as int) =~= c@.subrange(j + 1, c.len() as int));
                    }
                    let proto = crate::text::chars_slice(&c, j + 1, c.len());
                    if is_method(&a) && chars_start_with(&proto, "HTTP/") {
                        (Some(crate::text::chars_to_string(&a)), Some(chars_substring(&c, i + 1, j)), Some(crate::text::chars_to_string(&proto)))
                    } else {
                        whole
                    }
                },
                None => {
                    if is_method(&a) {
                        (Some(crate::text::chars_to_string(&a)), Some(chars_substring(&c, i + 1, c.len())), None)
                    } else {
                        whole
                    }
                },
            }
        },
    }
}

/// The time given by a date-time without offset (`naive`, read as UTC) under `policy`:
/// unresolved under `FromInput`, else shifted by the policy's offset.
pub open spec fn policy_time(naive: i64, policy: TimezonePolicy) -> ResolvedTime {
    match policy {
        TimezonePolicy::FromInput => ResolvedTime { utc_micros: None, offset_seconds: None },
        TimezonePolicy::Fixed { offset_seconds } => ResolvedTime {
            utc_micros: Some((naive - offset_seconds * 1_000_000) as i64),
            offset_seconds: Some(offset_seconds),
        },
        TimezonePolicy::Utc => ResolvedTime { utc_micros: Some(naive), offset_seconds: Some(0) },
    }
}

/// The time of a date-time parsed with its own offset.
pub open spec fn fixed_time(t: (i64, i32)) -> ResolvedTime {
    ResolvedTime { utc_micros: Some(t.0), offset_seconds: Some(t.1) }
}

fn apply_policy(naive: i64, policy: TimezonePolicy) -> (r: ResolvedTime)
    requires
        -CHRONO_MICROS_BOUND <= naive <= CHRONO_MICROS_BOUND,
    ensures
        r == policy_time(naive, policy),
{
    match policy {
        TimezonePolicy::FromInput => ResolvedTime { utc_micros: None, offset_seconds: None },
        TimezonePolicy::Fixed { offset_seconds } => {
            let shift: i64 = (offset_seconds as i64) * 1_000_000;
            ResolvedTime { utc_micros: Some(naive - shift), offset_seconds: Some(offset_seconds) }
        },
        TimezonePolicy::Utc => ResolvedTime { utc_micros: Some(naive), offset_seconds: Some(0) },
    }
}

/// A date-time without offset read with `fmt`, under `policy`.
pub open spec fn naive_time(raw: Seq<char>, fmt: Seq<char>, policy: TimezonePolicy) -> Option<ResolvedTime> {
    match naive_parse_result(raw, fmt) {
        Some(n) => Some(policy_time(n, policy)),
        None => None,
    }
}

/// The timestamp a raw field gives under `format` and `policy`. An offset in the input wins
/// over the policy; without one the policy applies.
pub open spec fn resolved_time(raw: Seq<char>, format: TimestampFormat, policy: TimezonePolicy) -> Option<ResolvedTime> {
    match format {
        TimestampFormat::Clf => match offset_parse_result(raw, "%d/%b/%Y:%H:%M:%S %z"@) {
            Some(t) => Some(fixed_time(t)),
            None => naive_time(raw, "%d/%b/%Y:%H:%M:%S"@, policy),
        },
        TimestampFormat::Iso8601 => match rfc3339_parse_result(raw) {
            Some(t) => Some(fixed_time(t)),
            None => match naive_parse_result(raw, "%Y-%m-%dT%H:%M:%S%.f"@) {
                Some(n) => Some(policy_time(n, policy)),
                None => naive_time(raw, "%Y-%m-%d %H:%M:%S%.f"@, policy),
            },
        },
        TimestampFormat::Custom { pattern } => if contains(pattern@, "%z"@) || contains(pattern@, "%:z"@) {
            match offset_parse_result(raw, pattern@) {
                Some(t) => Some(fixed_time(t)),
                None => None,
            }
        } else {
            naive_time(raw, pattern@, policy)
        },
    }
}

fn naive_with_policy(raw: &str, fmt: &str, policy: TimezonePolicy) -> (r: Option<ResolvedTime>)
    ensures
        r == naive_time(raw@, fmt@, policy),
{
    match parse_naive(raw, fmt) {
        Some(n) => Some(apply_policy(n, policy)),
        None => None,
    }
}

/// Reads a timestamp. Without an offset in the input the policy applies.
pub fn resolve_timestamp(raw: &str, format: &TimestampFormat, policy: TimezonePolicy) -> (r: Option<ResolvedTime>)
    ensures
        r == resolved_time(raw@, *format, policy),
{
    match format {
        TimestampFormat::Clf => {
            match parse_with_offset(raw, "%d/%b/%Y:%H:%M:%S %z") {
                Some(t) => Some(ResolvedTime { utc_micros: Some(t.0), offset_seconds: Some(t.1) }),
                None => naive_with_policy(raw, "%d/%b/%Y:%H:%M:%S", policy),
            }
        },
        TimestampFormat::Iso8601 => {
            match parse_rfc3339(raw) {
                Some(t) => Some(ResolvedTime { utc_micros: Some(t.0), offset_seconds: Some(t.1) }),
                None => match parse_naive(raw, "%Y-%m-%dT%H:%M:%S%.f") {
                    Some(n) => Some(apply_policy(n, policy)),
                    None => naive_with_policy(raw, "%Y-%m-%d %H:%M:%S%.f", policy),
                },
            }
        },
        TimestampFormat::Custom { pattern } => {
            let pc = str_chars(pattern.as_str());
            if chars_contain(&pc, "%z") || chars_contain(&pc, "%:z") {
                match parse_with_offset(raw, pattern.as_str()) {
                    Some(t) => Some(ResolvedTime { utc_micros: Some(t.0), offset_seconds: Some(t.1) }),
                    None => None,
                }
            } else {
                naive_with_policy(raw, pattern.as_str(), policy)
            }
        },
    }
}

/// Reads the W3C `date` and `time` fields (no offset; the policy applies, UTC by default).
pub fn resolve_w3c_datetime(date: &str, time: &str, policy: TimezonePolicy) -> (r: Option<ResolvedTime>)
    ensures
        r == naive_time(date@ + " "@ + time@, "%Y-%m-%d %H:%M:%S%.f"@, policy),
{
    let mut v: Vec<char> = Vec::new();
    push_str(&mut v, date);
    push_str(&mut v, " ");
    push_str(&mut v, time);
    let combined = crate::text::chars_to_string(&v);
    naive_with_policy(combined.as_str(), "%Y-%m-%d %H:%M:%S%.f", policy)
}

} // verus!
