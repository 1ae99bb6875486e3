//! Calls into std and into outside crates whose results verified code uses.
//! Each item here is trusted: its contract is stated from the called function's
//! documentation or source, and Verus does not check it.

use sha2::Digest;
use std::fmt::Write;
use vstd::prelude::*;

verus! {

/// `str::chars` collected into a vector: the characters of `s` in order.
#[verifier::external_body]
pub(crate) fn str_chars(s: &str) -> (r: Vec<char>)
    ensures
        r@ == s@,
{
    s.chars().collect()
}

/// `String: FromIterator<char>`: the string made of the characters of `v` in order.
#[verifier::external_body]
pub(crate) fn string_from_chars(v: &[char]) -> (r: String)
    ensures
        r@ == v@,
{
    v.iter().collect()
}

/// `std::str::from_utf8`, the text copied into a `String`: present exactly when the
/// bytes are UTF-8, and then the characters they encode.
#[verifier::external_body]
pub(crate) fn utf8_text(bytes: &[u8]) -> (r: Option<String>)
    ensures
        r is Some <==> vstd::utf8::valid_utf8(bytes@),
        r matches Some(s) ==> s@ == vstd::utf8::decode_utf8(bytes@),
{
    match std::str::from_utf8(bytes) {
        Ok(s) => Some(s.to_string()),
        Err(_) => None,
    }
}

/// Size limit given to the regex compiler for the block patterns.
pub const REGEX_SIZE_LIMIT: usize = 8 * 1024 * 1024;

/// The characters of each present value, absent values kept absent.
pub open spec fn opt_strings_view(v: Seq<Option<String>>) -> Seq<Option<Seq<char>>> {
    v.map_values(|o: Option<String>| match o {
        Some(s) => Some(s@),
        None => None,
    })
}

/// What `regex::RegexBuilder::new(pattern).size_limit(REGEX_SIZE_LIMIT).build()` gives:
/// the names of the capture groups in group order, or the error's text.
pub uninterp spec fn regex_build_result(pattern: Seq<char>) -> Result<Seq<Option<Seq<char>>>, Seq<char>>;

/// What `regex::Regex::new(pattern)` gives: the names of the capture groups in group order,
/// or the error's text.
pub uninterp spec fn regex_new_result(pattern: Seq<char>) -> Result<Seq<Option<Seq<char>>>, Seq<char>>;

/// What `Regex::captures(text)` gives for the regex built as in [`regex_build_result`]:
/// `None` without a match, else the text of each group in group order (`None` for a group
/// that took no part in the match).
pub uninterp spec fn regex_captures_result(pattern: Seq<char>, text: Seq<char>) -> Option<Seq<Option<Seq<char>>>>;

/// Compiled regular expressions are held as they are.
#[verifier::external_type_specification]
#[verifier::external_body]
pub struct ExRegex(regex::Regex);

/// A regular expression compiled by `regex::RegexBuilder` under [`REGEX_SIZE_LIMIT`], kept
/// with the pattern it was compiled from. Only [`CompiledRegex::build`] makes one, so the
/// regex is always the one its pattern compiles to.
#[derive(Debug)]
pub struct CompiledRegex {
    re: regex::Regex,
    pattern: String,
}

impl CompiledRegex {
    /// The pattern the regex was compiled from.
    pub closed spec fn pattern_view(&self) -> Seq<char> {
        self.pattern@
    }

    /// The pattern the regex was compiled from.
    pub fn as_str(&self) -> (r: &str)
        ensures
            r@ == self.pattern_view(),
    {
        self.pattern.as_str()
    }

    /// Compiles `pattern` with `regex::RegexBuilder` under [`REGEX_SIZE_LIMIT`]: the regex
    /// with its capture group names (`Regex::capture_names`), or the error's text. Besides
    /// naming this result, the contract says the regex keeps its pattern.
    #[verifier::external_body]
    pub(crate) fn build(pattern: &str) -> (r: Result<(CompiledRegex, Vec<Option<String>>), String>)
        ensures
            match r {
                Ok((c, names)) => c.pattern_view() == pattern@
                    && regex_build_result(pattern@) == Ok::<Seq<Option<Seq<char>>>, Seq<char>>(opt_strings_view(names@)),
                Err(e) => regex_build_result(pattern@) == Err::<Seq<Option<Seq<char>>>, Seq<char>>(e@),
            },
    {
        match regex::RegexBuilder::new(pattern).size_limit(REGEX_SIZE_LIMIT).build() {
            Ok(re) => {
                let names = re.capture_names().map(|n| n.map(|s| s.to_owned())).collect();
                Ok((CompiledRegex { re, pattern: pattern.to_owned() }, names))
            },
            Err(e) => Err(e.to_string()),
        }
    }

    /// Matches `text` with `Regex::captures`. Besides naming the result, the contract states
    /// what the regex documentation gives: a match has one entry per capture group
    /// (`Captures::len` equals the number of names `capture_names` yields).
    #[verifier::external_body]
    pub(crate) fn captures(&self, text: &str) -> (r: Option<Vec<Option<String>>>)
        requires
            regex_build_result(self.pattern_view()) is Ok,
        ensures
            match r {
                Some(c) => regex_captures_result(self.pattern_view(), text@) == Some(opt_strings_view(c@))
                    && c@.len() == regex_build_result(self.pattern_view())->Ok_0.len(),
                None => regex_captures_result(self.pattern_view(), text@) is None,
            },
    {
        let caps = self.re.captures(text)?;
        Some(caps.iter().map(|m| m.map(|m| m.as_str().to_owned())).collect())
    }
}

/// `regex::Regex::new(pattern)`: its capture group names, or the error's text.
#[verifier::external_body]
pub(crate) fn regex_new(pattern: &str) -> (r: Result<Vec<Option<String>>, String>)
    ensures
        match r {
            Ok(names) => regex_new_result(pattern@) == Ok::<Seq<Option<Seq<char>>>, Seq<char>>(opt_strings_view(names@)),
            Err(e) => regex_new_result(pattern@) == Err::<Seq<Option<Seq<char>>>, Seq<char>>(e@),
        },
{
    match regex::Regex::new(pattern) {
        Ok(re) => Ok(re.capture_names().map(|n| n.map(|s| s.to_owned())).collect()),
        Err(e) => Err(e.to_string()),
    }
}

/// Whether the items of `chrono::format::StrftimeItems::new(pattern)` include an
/// `Item::Error` (an invalid or unknown conversion specifier).
pub uninterp spec fn strftime_error_result(pattern: Seq<char>) -> bool;

/// Walks `chrono::format::StrftimeItems::new(pattern)` and reports whether any item is
/// `Item::Error`. The contract only names this result.
#[verifier::external_body]
pub(crate) fn strftime_has_error(pattern: &str) -> (r: bool)
    ensures
        r == strftime_error_result(pattern@),
{
    chrono::format::StrftimeItems::new(pattern).any(|item| item == chrono::format::Item::Error)
}


/// A bound on the UTC microseconds of any date chrono represents: its dates run from
/// January 1, 262144 BCE to December 31, 262142 CE (`NaiveDate::MIN`, `NaiveDate::MAX`).
pub const CHRONO_MICROS_BOUND: i64 = 8_400_000_000_000_000_000;

/// What `chrono::DateTime::parse_from_str(raw, fmt)` gives: the instant (UTC microseconds)
/// and its offset in seconds east of UTC, or `None` when parsing fails.
pub uninterp spec fn offset_parse_result(raw: Seq<char>, fmt: Seq<char>) -> Option<(i64, i32)>;

/// What `chrono::DateTime::parse_from_rfc3339(raw)` gives, as in [`offset_parse_result`].
pub uninterp spec fn rfc3339_parse_result(raw: Seq<char>) -> Option<(i64, i32)>;

/// What `chrono::NaiveDateTime::parse_from_str(raw, fmt)` gives, read as UTC
/// (`and_utc().timestamp_micros()`), or `None` when parsing fails.
pub uninterp spec fn naive_parse_result(raw: Seq<char>, fmt: Seq<char>) -> Option<i64>;

/// Parses a date-time with an offset by `chrono::DateTime::parse_from_str`; the result is
/// the instant in UTC microseconds (`timestamp_micros`) and the offset
/// (`offset().local_minus_utc()`). The contract only names the result.
#[verifier::external_body]
pub(crate) fn parse_with_offset(raw: &str, fmt: &str) -> (r: Option<(i64, i32)>)
    ensures
        r == offset_parse_result(raw@, fmt@),
{
    match chrono::DateTime::parse_from_str(raw, fmt) {
        Ok(dt) => Some((dt.timestamp_micros(), dt.offset().local_minus_utc())),
        Err(_) => None,
    }
}

/// Parses an RFC 3339 date-time by `chrono::DateTime::parse_from_rfc3339`, giving the
/// instant and offset as [`parse_with_offset`] does. The contract only names the result.
#[verifier::external_body]
pub(crate) fn parse_rfc3339(raw: &str) -> (r: Option<(i64, i32)>)
    ensures
        r == rfc3339_parse_result(raw@),
{
    match chrono::DateTime::parse_from_rfc3339(raw) {
        Ok(dt) => Some((dt.timestamp_micros(), dt.offset().local_minus_utc())),
        Err(_) => None,
    }
}

/// Parses a date-time without offset by `chrono::NaiveDateTime::parse_from_str` and reads
/// it as UTC microseconds. Besides naming the result, the contract states the range of
/// chrono's dates (see [`CHRONO_MICROS_BOUND`]).
#[verifier::external_body]
pub(crate) fn parse_naive(raw: &str, fmt: &str) -> (r: Option<i64>)
    ensures
        r == naive_parse_result(raw@, fmt@),
        r matches Some(m) ==> -CHRONO_MICROS_BOUND <= m <= CHRONO_MICROS_BOUND,
{
    match chrono::NaiveDateTime::parse_from_str(raw, fmt) {
        Ok(n) => Some(n.and_utc().timestamp_micros()),
        Err(_) => None,
    }
}


/// File system paths are carried through the library as they are.
#[verifier::external_type_specification]
#[verifier::external_body]
pub struct ExPathBuf(std::path::PathBuf);

/// What `Path::join(base, part)` gives: `part` adjoined to `base` with the target's
/// separator (or `part` alone where it is absolute).
pub uninterp spec fn path_join_result(base: std::path::PathBuf, part: Seq<char>) -> std::path::PathBuf;

/// `Path::join` on an owned path: `part` adjoined to `base`. The contract only names the
/// result.
#[verifier::external_body]
pub(crate) fn path_join(base: &std::path::PathBuf, part: &str) -> (r: std::path::PathBuf)
    ensures
        r == path_join_result(*base, part@),
{
    base.join(part)
}

/// What `Path::components` gives for a path, each component taken as its bytes
/// (`OsStr::as_encoded_bytes`).
pub uninterp spec fn path_components_result(path: std::path::PathBuf) -> Seq<Seq<u8>>;

/// `Path::components`: the components of a path in order, each as its bytes. The contract
/// only names the result.
#[verifier::external_body]
pub(crate) fn path_components(p: &std::path::PathBuf) -> (r: Vec<Vec<u8>>)
    ensures
        r@.len() == path_components_result(*p).len(),
        forall|i: int| 0 <= i < r@.len() ==> (#[trigger] r@[i])@ == path_components_result(*p)[i],
{
    p.components().map(|c| c.as_os_str().as_encoded_bytes().to_vec()).collect()
}

/// `PathBuf::clone`: a copy of the path. Nothing is claimed of the result.
pub assume_specification[<std::path::PathBuf as Clone>::clone](p: &std::path::PathBuf) -> std::path::PathBuf;

/// `PathBuf == PathBuf`: compares two paths component by component. Nothing is claimed of
/// the result.
pub assume_specification[<std::path::PathBuf as PartialEq>::eq](a: &std::path::PathBuf, b: &std::path::PathBuf) -> bool;

/// `Duration::clone`: `Duration` is `Copy`, so the clone is the same value.
pub assume_specification[<std::time::Duration as Clone>::clone](d: &std::time::Duration) -> (r: std::time::Duration)
    ensures
        r == *d;

/// What `Duration::from_millis(ms)` gives: a span of `ms` milliseconds.
pub uninterp spec fn millis_duration(ms: u64) -> std::time::Duration;

/// `Duration::from_millis`. The contract only names the result.
#[verifier::external_body]
pub(crate) fn duration_from_millis(ms: u64) -> (r: std::time::Duration)
    ensures
        r == millis_duration(ms),
{
    std::time::Duration::from_millis(ms)
}

/// What `sha2::Sha256::digest(bytes)` gives: the 32 bytes of the SHA-256 digest.
pub uninterp spec fn sha256_result(bytes: Seq<u8>) -> Seq<u8>;

/// SHA-256 of `bytes` by `sha2::Sha256::digest`. Besides naming the result, the contract
/// states the digest's documented size, 32 bytes.
#[verifier::external_body]
pub(crate) fn sha256(bytes: &[u8]) -> (r: Vec<u8>)
    ensures
        r@ == sha256_result(bytes@),
        r@.len() == 32,
{
    sha2::Sha256::digest(bytes).to_vec()
}


/// What `chrono::DateTime::from_timestamp_micros(micros)` then
/// `to_rfc3339_opts(SecondsFormat::Micros, true)` gives: the RFC 3339 text in UTC with
/// microseconds and `Z`, or `None` when the instant is out of chrono's range.
pub uninterp spec fn rfc3339_micros_result(micros: i64) -> Option<Seq<char>>;

/// Formats an instant (UTC microseconds) as RFC 3339 with microseconds and `Z`, by
/// `chrono::DateTime::from_timestamp_micros` and `to_rfc3339_opts`. The contract only
/// names the result.
#[verifier::external_body]
pub(crate) fn rfc3339_micros(micros: i64) -> (r: Option<String>)
    ensures
        match r {
            Some(s) => rfc3339_micros_result(micros) == Some(s@),
            None => rfc3339_micros_result(micros) is None,
        },
{
    chrono::DateTime::from_timestamp_micros(micros).map(|dt| dt.to_rfc3339_opts(chrono::SecondsFormat::Micros, true))
}


/// What chrono gives for an instant (UTC microseconds) shown at a fixed offset (seconds
/// east): `DateTime::from_timestamp_micros`, `FixedOffset::east_opt`, `with_timezone`,
/// then `format(fmt)`; `None` when the instant or the offset is out of range or the
/// formatting fails.
pub uninterp spec fn zoned_format_result(micros: i64, offset: i32, fmt: Seq<char>) -> Option<Seq<char>>;

/// As [`zoned_format_result`], then `to_rfc3339_opts(SecondsFormat::Secs, false)`.
pub uninterp spec fn zoned_rfc3339_result(micros: i64, offset: i32) -> Option<Seq<char>>;

/// Formats an instant at a fixed offset with a strftime pattern. The contract only names
/// the result.
#[verifier::external_body]
pub(crate) fn zoned_format(micros: i64, offset: i32, fmt: &str) -> (r: Option<String>)
    ensures
        match r {
            Some(s) => zoned_format_result(micros, offset, fmt@) == Some(s@),
            None => zoned_format_result(micros, offset, fmt@) is None,
        },
{
    let dt = chrono::DateTime::from_timestamp_micros(micros)?;
    let tz = chrono::FixedOffset::east_opt(offset)?;
    let mut out = String::new();
    write!(out, "{}", dt.with_timezone(&tz).format(fmt)).ok()?;
    Some(out)
}

/// Formats an instant at a fixed offset as RFC 3339 with whole seconds and a numeric
/// offset. The contract only names the result.
#[verifier::external_body]
pub(crate) fn zoned_rfc3339(micros: i64, offset: i32) -> (r: Option<String>)
    ensures
        match r {
            Some(s) => zoned_rfc3339_result(micros, offset) == Some(s@),
            None => zoned_rfc3339_result(micros, offset) is None,
        },
{
    let dt = chrono::DateTime::from_timestamp_micros(micros)?;
    let tz = chrono::FixedOffset::east_opt(offset)?;
    Some(dt.with_timezone(&tz).to_rfc3339_opts(chrono::SecondsFormat::Secs, false))
}

} // verus!
