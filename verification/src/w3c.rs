//! IIS/W3C extended log parser. The `#Fields:` header decides the field mapping and may
//! change in the middle of a file.

use vstd::prelude::*;

use crate::ext::str_chars;
use crate::ip::{ip_text, validate_ip};
use crate::model::TimezonePolicy;
use crate::record::{is_error, opt_view, LineOutcome, LogRecord, ParseErrorCode, SkipReason};
use crate::semantic::{i64_value, naive_time, parse_i64, parse_status, resolve_w3c_datetime, status_value};
use crate::text::{
    all_space, ascii_tokens, chars_all_space, chars_slice, chars_start_with, push_str, split_ascii_whitespace,
    starts_with, str_eq, strings_view, chars_to_string,
};

verus! {

/// Most fields a `#Fields` header may name.
pub const MAX_FIELDS: usize = 256;

/// Header state kept across a resume.
#[derive(Debug, PartialEq, Eq)]
pub struct W3cHeaderState {
    /// The current `#Fields` names; empty before the first header.
    pub fields: Vec<String>,
}

/// The W3C line parser.
#[derive(Debug)]
pub struct W3cParser {
    state: W3cHeaderState,
    timezone: TimezonePolicy,
}

/// What a column is, by its `#Fields` name.
#[derive(Debug, Clone, Copy, PartialEq, Eq)]
pub enum ColumnKind {
    /// `date`.
    Date,
    /// `time`.
    Time,
    /// `c-ip`.
    ClientIp,
    /// `cs-method`.
    Method,
    /// `cs-uri-stem`.
    UriStem,
    /// `cs-uri-query`.
    UriQuery,
    /// `cs-version`.
    Version,
    /// `sc-status`.
    Status,
    /// `sc-bytes`.
    Bytes,
    /// `cs(Referer)`.
    Referer,
    /// `cs(User-Agent)`.
    UserAgent,
    /// Any other name: an extension field.
    Other,
}

/// The kind of the column named `n`.
pub open spec fn kind_of(n: Seq<char>) -> ColumnKind {
    if n == "date"@ {
        ColumnKind::Date
    } else if n == "time"@ {
        ColumnKind::Time
    } else if n == "c-ip"@ {
        ColumnKind::ClientIp
    } else if n == "cs-method"@ {
        ColumnKind::Method
    } else if n == "cs-uri-stem"@ {
        ColumnKind::UriStem
    } else if n == "cs-uri-query"@ {
        ColumnKind::UriQuery
    } else if n == "cs-version"@ {
        ColumnKind::Version
    } else if n == "sc-status"@ {
        ColumnKind::Status
    } else if n == "sc-bytes"@ {
        ColumnKind::Bytes
    } else if n == "cs(Referer)"@ {
        ColumnKind::Referer
    } else if n == "cs(User-Agent)"@ {
        ColumnKind::UserAgent
    } else {
        ColumnKind::Other
    }
}

/// The kind of a column name.
pub fn column_kind(n: &str) -> (r: ColumnKind)
    ensures
        r == kind_of(n@),
{
    if str_eq(n, "date") {
        ColumnKind::Date
    } else if str_eq(n, "time") {
        ColumnKind::Time
    } else if str_eq(n, "c-ip") {
        ColumnKind::ClientIp
    } else if str_eq(n, "cs-method") {
        ColumnKind::Method
    } else if str_eq(n, "cs-uri-stem") {
        ColumnKind::UriStem
    } else if str_eq(n, "cs-uri-query") {
        ColumnKind::UriQuery
    } else if str_eq(n, "cs-version") {
        ColumnKind::Version
    } else if str_eq(n, "sc-status") {
        ColumnKind::Status
    } else if str_eq(n, "sc-bytes") {
        ColumnKind::Bytes
    } else if str_eq(n, "cs(Referer)") {
        ColumnKind::Referer
    } else if str_eq(n, "cs(User-Agent)") {
        ColumnKind::UserAgent
    } else {
        ColumnKind::Other
    }
}

/// Why the value `raw` of column `name` is invalid, if it is. `-` is a missing value.
pub open spec fn column_failure(name: Seq<char>, raw: Seq<char>) -> Option<ParseErrorCode> {
    if raw == "-"@ {
        None
    } else {
        match kind_of(name) {
            ColumnKind::ClientIp => if ip_text(raw) { None } else { Some(ParseErrorCode::InvalidIp) },
            ColumnKind::Status => if status_value(raw) is Some { None } else { Some(ParseErrorCode::InvalidStatus) },
            ColumnKind::Bytes => if i64_value(raw) is Some { None } else { Some(ParseErrorCode::InvalidInteger) },
            _ => None,
        }
    }
}

/// The value of the last of the first `n` columns of kind `kind` that is not `-`.
pub open spec fn last_value(fs: Seq<Seq<char>>, ts: Seq<Seq<char>>, kind: ColumnKind, n: int) -> Option<Seq<char>>
    decreases n,
{
    if n <= 0 {
        None
    } else if kind_of(fs[n - 1]) == kind && ts[n - 1] != "-"@ {
        Some(ts[n - 1])
    } else {
        last_value(fs, ts, kind, n - 1)
    }
}

/// The extension fields of the first `n` columns: each non-standard column that is not
/// `-`, the later one winning.
pub open spec fn extra_map(fs: Seq<Seq<char>>, ts: Seq<Seq<char>>, n: int) -> Map<Seq<char>, Seq<char>>
    decreases n,
{
    if n <= 0 {
        Map::empty()
    } else if ts[n - 1] != "-"@ && kind_of(fs[n - 1]) == ColumnKind::Other {
        extra_map(fs, ts, n - 1).insert(fs[n - 1], ts[n - 1])
    } else {
        extra_map(fs, ts, n - 1)
    }
}

/// The request target from the URI stem and query.
pub open spec fn target_of(stem: Option<Seq<char>>, query: Option<Seq<char>>) -> Option<Seq<char>> {
    match (stem, query) {
        (Some(s), Some(q)) => Some(s + "?"@ + q),
        (Some(s), None) => Some(s),
        (None, Some(q)) => Some("?"@ + q),
        (None, None) => None,
    }
}

/// The text of the `date` and `time` columns as one date-time.
pub open spec fn w3c_time(fs: Seq<Seq<char>>, ts: Seq<Seq<char>>, tz: TimezonePolicy) -> Option<crate::semantic::ResolvedTime> {
    let d = last_value(fs, ts, ColumnKind::Date, fs.len() as int);
    let t = last_value(fs, ts, ColumnKind::Time, fs.len() as int);
    naive_time(d->Some_0 + " "@ + t->Some_0, "%Y-%m-%d %H:%M:%S%.f"@, tz)
}

/// The record a data line gives when every column is valid.
pub open spec fn w3c_record(r: LogRecord, fs: Seq<Seq<char>>, ts: Seq<Seq<char>>, line_number: u64, tz: TimezonePolicy) -> bool {
    let n = fs.len() as int;
    let d = last_value(fs, ts, ColumnKind::Date, n);
    let t = last_value(fs, ts, ColumnKind::Time, n);
    &&& r.line_number == line_number
    &&& opt_view(r.client_ip) == last_value(fs, ts, ColumnKind::ClientIp, n)
    &&& opt_view(r.method) == last_value(fs, ts, ColumnKind::Method, n)
    &&& opt_view(r.protocol) == last_value(fs, ts, ColumnKind::Version, n)
    &&& r.status == match last_value(fs, ts, ColumnKind::Status, n) {
        Some(v) => status_value(v),
        None => None,
    }
    &&& r.bytes_sent == match last_value(fs, ts, ColumnKind::Bytes, n) {
        Some(v) => i64_value(v),
        None => None,
    }
    &&& opt_view(r.referrer) == last_value(fs, ts, ColumnKind::Referer, n)
    &&& opt_view(r.user_agent) == last_value(fs, ts, ColumnKind::UserAgent, n)
    &&& opt_view(r.request_target) == target_of(last_value(fs, ts, ColumnKind::UriStem, n), last_value(fs, ts, ColumnKind::UriQuery, n))
    &&& r.extra.view() == match (d, t) {
        (Some(dv), None) => extra_map(fs, ts, n).insert("date"@, dv),
        (None, Some(tv)) => extra_map(fs, ts, n).insert("time"@, tv),
        _ => extra_map(fs, ts, n),
    }
    &&& if d is Some && t is Some {
        r.timestamp_utc == w3c_time(fs, ts, tz)->Some_0.utc_micros
            && r.tz_offset_seconds == w3c_time(fs, ts, tz)->Some_0.offset_seconds
    } else {
        r.timestamp_utc is None && r.tz_offset_seconds is None
    }
}

/// The `#Fields` names a directive line sets (`None` for other lines).
pub open spec fn fields_directive(line: Seq<char>) -> Option<Seq<Seq<char>>> {
    if line.len() > 0 && line[0] == '#' && starts_with(line.drop_first(), "Fields:"@) {
        Some(ascii_tokens(line.subrange(8, line.len() as int)))
    } else {
        None
    }
}

/// The header after a line: a valid `#Fields` directive (one to 256 names) replaces it.
pub open spec fn next_fields(fs: Seq<Seq<char>>, line: Seq<char>) -> Seq<Seq<char>> {
    if all_space(line) {
        fs
    } else {
        match fields_directive(line) {
            Some(t) => if 0 < t.len() <= MAX_FIELDS { t } else { fs },
            None => fs,
        }
    }
}

/// What a line gives under the header `fs`: blank and directive lines are skipped, a
/// malformed `#Fields` fails, and a data line fails without a header, with a column count
/// other than the header's, at its first invalid column, or on an unreadable date-time;
/// otherwise it is a record.
pub open spec fn w3c_outcome(fs: Seq<Seq<char>>, tz: TimezonePolicy, line_number: u64, line: Seq<char>, r: LineOutcome) -> bool {
    if all_space(line) {
        r == LineOutcome::Skipped { line_number, reason: SkipReason::Blank }
    } else if line.len() > 0 && line[0] == '#' {
        if fields_directive(line) is Some && !(0 < fields_directive(line)->Some_0.len() <= MAX_FIELDS) {
            is_error(r, line_number, ParseErrorCode::InvalidDirective, Some("Fields"@))
        } else {
            r == LineOutcome::Skipped { line_number, reason: SkipReason::Directive }
        }
    } else if fs.len() == 0 {
        is_error(r, line_number, ParseErrorCode::HeaderMissing, None)
    } else {
        let ts = ascii_tokens(line);
        if ts.len() != fs.len() {
            is_error(r, line_number, ParseErrorCode::FieldCountMismatch, None)
        } else if exists|k: int| 0 <= k < fs.len() && (#[trigger] column_failure(fs[k], ts[k])) is Some {
            exists|k: int| 0 <= k < fs.len() && (#[trigger] column_failure(fs[k], ts[k])) is Some
                && (forall|j: int| 0 <= j < k ==> (#[trigger] column_failure(fs[j], ts[j])) is None)
                && is_error(r, line_number, column_failure(fs[k], ts[k])->Some_0, Some(fs[k]))
        } else if last_value(fs, ts, ColumnKind::Date, fs.len() as int) is Some && last_value(fs, ts, ColumnKind::Time, fs.len() as int) is Some
            && w3c_time(fs, ts, tz) is None {
            is_error(r, line_number, ParseErrorCode::InvalidTimestamp, Some("date"@))
        } else {
            r matches LineOutcome::Record(rec) && w3c_record(rec, fs, ts, line_number, tz)
        }
    }
}

/// The partial record after the first `k` columns.
pub open spec fn partial_record(r: LogRecord, fs: Seq<Seq<char>>, ts: Seq<Seq<char>>, k: int, line_number: u64) -> bool {
    &&& r.line_number == line_number
    &&& r.timestamp_utc is None && r.tz_offset_seconds is None && r.request_target is None
    &&& opt_view(r.client_ip) == last_value(fs, ts, ColumnKind::ClientIp, k)
    &&& opt_view(r.method) == last_value(fs, ts, ColumnKind::Method, k)
    &&& opt_view(r.protocol) == last_value(fs, ts, ColumnKind::Version, k)
    &&& r.status == match last_value(fs, ts, ColumnKind::Status, k) {
        Some(v) => status_value(v),
        None => None,
    }
    &&& r.bytes_sent == match last_value(fs, ts, ColumnKind::Bytes, k) {
        Some(v) => i64_value(v),
        None => None,
    }
    &&& opt_view(r.referrer) == last_value(fs, ts, ColumnKind::Referer, k)
    &&& opt_view(r.user_agent) == last_value(fs, ts, ColumnKind::UserAgent, k)
    &&& r.extra.view() == extra_map(fs, ts, k)
}

impl W3cParser {
    /// The current `#Fields` names.
    pub closed spec fn fields_view(&self) -> Seq<Seq<char>> {
        strings_view(self.state.fields@)
    }

    /// The time zone policy.
    pub closed spec fn timezone_view(&self) -> TimezonePolicy {
        self.timezone
    }

    /// A parser with no header yet.
    pub fn new(timezone: TimezonePolicy) -> (r: Self)
        ensures
            r.fields_view() == Seq::<Seq<char>>::empty(),
            r.timezone_view() == timezone,
    {
        let r = W3cParser { state: W3cHeaderState { fields: Vec::new() }, timezone };
        assert(r.fields_view() =~= Seq::<Seq<char>>::empty());
        r
    }

    /// Forgets the header.
    pub fn reset(&mut self)
        ensures
            final(self).fields_view() == Seq::<Seq<char>>::empty(),
            final(self).timezone_view() == old(self).timezone_view(),
    {
        self.state = W3cHeaderState { fields: Vec::new() };
        assert(self.fields_view() =~= Seq::<Seq<char>>::empty());
    }

    /// The current `#Fields` names.
    pub fn fields(&self) -> (r: &Vec<String>)
        ensures
            strings_view(r@) == self.fields_view(),
    {
        &self.state.fields
    }

    /// A copy of the header state, to keep for a resume.
    pub fn header_state(&self) -> (r: W3cHeaderState)
        ensures
            strings_view(r.fields@) == self.fields_view(),
    {
        W3cHeaderState { fields: crate::model::clone_strings(&self.state.fields) }
    }

    /// Restores a header state kept for a resume.
    pub fn restore_header_state(&mut self, state: W3cHeaderState)
        ensures
            final(self).fields_view() == strings_view(state.fields@),
            final(self).timezone_view() == old(self).timezone_view(),
    {
        self.state = state;
    }

    /// Parses one line (without its line break).
    pub fn parse_line(&mut self, line_number: u64, line: &str) -> (r: LineOutcome)
        ensures
            w3c_outcome(old(self).fields_view(), old(self).timezone_view(), line_number, line@, r),
            final(self).fields_view() == next_fields(old(self).fields_view(), line@),
            final(self).timezone_view() == old(self).timezone_view(),
    {
        let c = str_chars(line);
        if chars_all_space(&c) {
            return LineOutcome::Skipped { line_number, reason: SkipReason::Blank };
        }
        if c.len() > 0 && c[0] == '#' {
            let d = chars_slice(&c, 1, c.len());
            assert(d@ =~= c@.drop_first());
            if chars_start_with(&d, "Fields:") {
                proof { reveal_strlit("Fields:"); }
                let rest = chars_slice(&c, 8, c.len());
                let fields = split_ascii_whitespace(&rest);
                if fields.len() == 0 || fields.len() > MAX_FIELDS {
                    return LineOutcome::error(line_number, ParseErrorCode::InvalidDirective, Some("Fields"));
                }
                self.state.fields = fields;
            }
            return LineOutcome::Skipped { line_number, reason: SkipReason::Directive };
        }
        assert(fields_directive(line@) is None);
        if self.state.fields.len() == 0 {
            return LineOutcome::error(line_number, ParseErrorCode::HeaderMissing, None);
        }
        let tokens = split_ascii_whitespace(&c);
        if tokens.len() != self.state.fields.len() {
            return LineOutcome::error(line_number, ParseErrorCode::FieldCountMismatch, None);
        }
        self.parse_columns(line_number, &tokens)
    }

    /// Builds the record of a data line from its tokens (as many as header fields).
    fn parse_columns(&self, line_number: u64, tokens: &Vec<String>) -> (r: LineOutcome)
        requires
            tokens@.len() == self.state.fields@.len(),
            self.state.fields@.len() > 0,
        ensures
            ({
                let fs = self.fields_view();
                let ts = strings_view(tokens@);
                if exists|k: int| 0 <= k < fs.len() && (#[trigger] column_failure(fs[k], ts[k])) is Some {
                    exists|k: int| 0 <= k < fs.len() && (#[trigger] column_failure(fs[k], ts[k])) is Some
                        && (forall|j: int| 0 <= j < k ==> (#[trigger] column_failure(fs[j], ts[j])) is None)
                        && is_error(r, line_number, column_failure(fs[k], ts[k])->Some_0, Some(fs[k]))
                } else if last_value(fs, ts, ColumnKind::Date, fs.len() as int) is Some && last_value(fs, ts, ColumnKind::Time, fs.len() as int) is Some
                    && w3c_time(fs, ts, self.timezone) is None {
                    is_error(r, line_number, ParseErrorCode::InvalidTimestamp, Some("date"@))
                } else {
                    r matches LineOutcome::Record(rec) && w3c_record(rec, fs, ts, line_number, self.timezone)
                }
            }),
    {
        let ghost fs = self.fields_view();
        let ghost ts = strings_view(tokens@);
        let mut record = LogRecord::empty(line_number);
        let mut date: Option<String> = None;
        let mut time: Option<String> = None;
        let mut stem: Option<String> = None;
        let mut query: Option<String> = None;
        assert(record.extra.view() =~= extra_map(fs, ts, 0));
        let n = self.state.fields.len();
        let mut k: usize = 0;
        while k < n
            invariant
                n == self.state.fields@.len(),
                n == tokens@.len(),
                fs == self.fields_view(),
                ts == strings_view(tokens@),
                k <= n,
                forall|j: int| 0 <= j < k ==> (#[trigger] column_failure(fs[j], ts[j])) is None,
                partial_record(record, fs, ts, k as int, line_number),
                opt_view(date) == last_value(fs, ts, ColumnKind::Date, k as int),
                opt_view(time) == last_value(fs, ts, ColumnKind::Time, k as int),
                opt_view(stem) == last_value(fs, ts, ColumnKind::UriStem, k as int),
                opt_view(query) == last_value(fs, ts, ColumnKind::UriQuery, k as int),
            decreases n - k,
        {
            let name = self.state.fields[k].as_str();
            let raw = tokens[k].as_str();
            assert(fs[k as int] == name@ && ts[k as int] == raw@);
            if !str_eq(raw, "-") {
                match column_kind(name) {
                    ColumnKind::Date => {
                        date = Some(raw.to_owned());
                    },
                    ColumnKind::Time => {
                        time = Some(raw.to_owned());
                    },
                    ColumnKind::ClientIp => {
                        match validate_ip(raw) {
                            Some(ip) => {
                                record.client_ip = Some(ip.to_owned());
                            },
                            None => {
                                assert(column_failure(fs[k as int], ts[k as int]) == Some(ParseErrorCode::InvalidIp));
                                return LineOutcome::error(line_number, ParseErrorCode::InvalidIp, Some(name));
                            },
                        }
                    },
                    ColumnKind::Method => {
                        record.method = Some(raw.to_owned());
                    },
                    ColumnKind::UriStem => {
                        stem = Some(raw.to_owned());
                    },
                    ColumnKind::UriQuery => {
                        query = Some(raw.to_owned());
                    },
                    ColumnKind::Version => {
                        record.protocol = Some(raw.to_owned());
                    },
                    ColumnKind::Status => {
                        match parse_status(raw) {
                            Some(st) => {
                                record.status = Some(st);
                            },
                            None => {
                                assert(column_failure(fs[k as int], ts[k as int]) == Some(ParseErrorCode::InvalidStatus));
                                return LineOutcome::error(line_number, ParseErrorCode::InvalidStatus, Some(name));
                            },
                        }
                    },
                    ColumnKind::Bytes => {
                        match parse_i64(raw) {
                            Some(b) => {
                                record.bytes_sent = Some(b);
                            },
                            None => {
                                assert(column_failure(fs[k as int], ts[k as int]) == Some(ParseErrorCode::InvalidInteger));
                                return LineOutcome::error(line_number, ParseErrorCode::InvalidInteger, Some(name));
                            },
                        }
                    },
                    ColumnKind::Referer => {
                        record.referrer = Some(raw.to_owned());
                    },
                    ColumnKind::UserAgent => {
                        record.user_agent = Some(raw.to_owned());
                    },
                    ColumnKind::Other => {
                        record.extra.insert(name.to_owned(), raw.to_owned());
                    },
                }
            }
            assert(column_failure(fs[k as int], ts[k as int]) is None);
            k = k + 1;
        }
        let ghost d = last_value(fs, ts, ColumnKind::Date, n as int);
        let ghost t = last_value(fs, ts, ColumnKind::Time, n as int);
        match (&date, &time) {
            (Some(dv), Some(tv)) => {
                match resolve_w3c_datetime(dv.as_str(), tv.as_str(), self.timezone) {
                    Some(rt) => {
                        record.timestamp_utc = rt.utc_micros;
                        record.tz_offset_seconds = rt.offset_seconds;
                    },
                    None => {
                        return LineOutcome::error(line_number, ParseErrorCode::InvalidTimestamp, Some("date"));
                    },
                }
            },
            (Some(dv), None) => {
                record.extra.insert("date".to_owned(), dv.clone());
            },
            (None, Some(tv)) => {
                record.extra.insert("time".to_owned(), tv.clone());
            },
            (None, None) => {},
        }
        record.request_target = match (&stem, &query) {
            (Some(s), Some(q)) => {
                let mut v: Vec<char> = Vec::new();
                push_str(&mut v, s.as_str());
                push_str(&mut v, "?");
                push_str(&mut v, q.as_str());
                Some(chars_to_string(&v))
            },
            (Some(s), None) => Some(s.clone()),
            (None, Some(q)) => {
                let mut v: Vec<char> = Vec::new();
                push_str(&mut v, "?");
                push_str(&mut v, q.as_str());
                Some(chars_to_string(&v))
            },
            (None, None) => None,
        };
        LineOutcome::Record(record)
    }
}

/// The standard column names and their kinds.
proof fn lemma_standard_kinds()
    ensures
        kind_of("date"@) == ColumnKind::Date,
        kind_of("time"@) == ColumnKind::Time,
        kind_of("c-ip"@) == ColumnKind::ClientIp,
        kind_of("cs-method"@) == ColumnKind::Method,
        kind_of("cs-uri-stem"@) == ColumnKind::UriStem,
        kind_of("cs-uri-query"@) == ColumnKind::UriQuery,
        kind_of("cs-version"@) == ColumnKind::Version,
        kind_of("sc-status"@) == ColumnKind::Status,
        kind_of("sc-bytes"@) == ColumnKind::Bytes,
        kind_of("cs(Referer)"@) == ColumnKind::Referer,
        kind_of("cs(User-Agent)"@) == ColumnKind::UserAgent,
{
    reveal_strlit("date");
    reveal_strlit("time");
    reveal_strlit("c-ip");
    reveal_strlit("cs-method");
    reveal_strlit("cs-uri-stem");
    reveal_strlit("cs-uri-query");
    reveal_strlit("cs-version");
    reveal_strlit("sc-status");
    reveal_strlit("sc-bytes");
    reveal_strlit("cs(Referer)");
    reveal_strlit("cs(User-Agent)");
    assert("time"@.len() != "date"@.len() || "time"@[0] != "date"@[0] || "time"@[1] != "date"@[1] || "time"@[3] != "date"@[3]);
    assert("c-ip"@.len() != "date"@.len() || "c-ip"@[0] != "date"@[0] || "c-ip"@[1] != "date"@[1] || "c-ip"@[3] != "date"@[3]);
    assert("c-ip"@.len() != "time"@.len() || "c-ip"@[0] != "time"@[0] || "c-ip"@[1] != "time"@[1] || "c-ip"@[3] != "time"@[3]);
    assert("cs-method"@.len() != "date"@.len() || "cs-method"@[0] != "date"@[0] || "cs-method"@[1] != "date"@[1] || "cs-method"@[3] != "date"@[3]);
    assert("cs-method"@.len() != "time"@.len() || "cs-method"@[0] != "time"@[0] || "cs-method"@[1] != "time"@[1] || "cs-method"@[3] != "time"@[3]);
    assert("cs-method"@.len() != "c-ip"@.len() || "cs-method"@[0] != "c-ip"@[0] || "cs-method"@[1] != "c-ip"@[1] || "cs-method"@[3] != "c-ip"@[3]);
    assert("cs-uri-stem"@.len() != "date"@.len() || "cs-uri-stem"@[0] != "date"@[0] || "cs-uri-stem"@[1] != "date"@[1] || "cs-uri-stem"@[3] != "date"@[3]);
    assert("cs-uri-stem"@.len() != "time"@.len() || "cs-uri-stem"@[0] != "time"@[0] || "cs-uri-stem"@[1] != "time"@[1] || "cs-uri-stem"@[3] != "time"@[3]);
    assert("cs-uri-stem"@.len() != "c-ip"@.len() || "cs-uri-stem"@[0] != "c-ip"@[0] || "cs-uri-stem"@[1] != "c-ip"@[1] || "cs-uri-stem"@[3] != "c-ip"@[3]);
    assert("cs-uri-stem"@.len() != "cs-method"@.len() || "cs-uri-stem"@[0] != "cs-method"@[0] || "cs-uri-stem"@[1] != "cs-method"@[1] || "cs-uri-stem"@[3] != "cs-method"@[3]);
    assert("cs-uri-query"@.len() != "date"@.len() || "cs-uri-query"@[0] != "date"@[0] || "cs-uri-query"@[1] != "date"@[1] || "cs-uri-query"@[3] != "date"@[3]);
    assert("cs-uri-query"@.len() != "time"@.len() || "cs-uri-query"@[0] != "time"@[0] || "cs-uri-query"@[1] != "time"@[1] || "cs-uri-query"@[3] != "time"@[3]);
    assert("cs-uri-query"@.len() != "c-ip"@.len() || "cs-uri-query"@[0] != "c-ip"@[0] || "cs-uri-query"@[1] != "c-ip"@[1] || "cs-uri-query"@[3] != "c-ip"@[3]);
    assert("cs-uri-query"@.len() != "cs-method"@.len() || "cs-uri-query"@[0] != "cs-method"@[0] || "cs-uri-query"@[1] != "cs-method"@[1] || "cs-uri-query"@[3] != "cs-method"@[3]);
    assert("cs-uri-query"@.len() != "cs-uri-stem"@.len() || "cs-uri-query"@[0] != "cs-uri-stem"@[0] || "cs-uri-query"@[1] != "cs-uri-stem"@[1] || "cs-uri-query"@[3] != "cs-uri-stem"@[3]);
    assert("cs-version"@.len() != "date"@.len() || "cs-version"@[0] != "date"@[0] || "cs-version"@[1] != "date"@[1] || "cs-version"@[3] != "date"@[3]);
    assert("cs-version"@.len() != "time"@.len() || "cs-version"@[0] != "time"@[0] || "cs-version"@[1] != "time"@[1] || "cs-version"@[3] != "time"@[3]);
    assert("cs-version"@.len() != "c-ip"@.len() || "cs-version"@[0] != "c-ip"@[0] || "cs-version"@[1] != "c-ip"@[1] || "cs-version"@[3] != "c-ip"@[3]);
    assert("cs-version"@.len() != "cs-method"@.len() || "cs-version"@[0] != "cs-method"@[0] || "cs-version"@[1] != "cs-method"@[1] || "cs-version"@[3] != "cs-method"@[3]);
    assert("cs-version"@.len() != "cs-uri-stem"@.len() || "cs-version"@[0] != "cs-uri-stem"@[0] || "cs-version"@[1] != "cs-uri-stem"@[1] || "cs-version"@[3] != "cs-uri-stem"@[3]);
    assert("cs-version"@.len() != "cs-uri-query"@.len() || "cs-version"@[0] != "cs-uri-query"@[0] || "cs-version"@[1] != "cs-uri-query"@[1] || "cs-version"@[3] != "cs-uri-query"@[3]);
    assert("sc-status"@.len() != "date"@.len() || "sc-status"@[0] != "date"@[0] || "sc-status"@[1] != "date"@[1] || "sc-status"@[3] != "date"@[3]);
    assert("sc-status"@.len() != "time"@.len() || "sc-status"@[0] != "time"@[0] || "sc-status"@[1] != "time"@[1] || "sc-status"@[3] != "time"@[3]);
    assert("sc-status"@.len() != "c-ip"@.len() || "sc-status"@[0] != "c-ip"@[0] || "sc-status"@[1] != "c-ip"@[1] || "sc-status"@[3] != "c-ip"@[3]);
    assert("sc-status"@.len() != "cs-method"@.len() || "sc-status"@[0] != "cs-method"@[0] || "sc-status"@[1] != "cs-method"@[1] || "sc-status"@[3] != "cs-method"@[3]);
    assert("sc-status"@.len() != "cs-uri-stem"@.len() || "sc-status"@[0] != "cs-uri-stem"@[0] || "sc-status"@[1] != "cs-uri-stem"@[1] || "sc-status"@[3] != "cs-uri-stem"@[3]);
    assert("sc-status"@.len() != "cs-uri-query"@.len() || "sc-status"@[0] != "cs-uri-query"@[0] || "sc-status"@[1] != "cs-uri-query"@[1] || "sc-status"@[3] != "cs-uri-query"@[3]);
    assert("sc-status"@.len() != "cs-version"@.len() || "sc-status"@[0] != "cs-version"@[0] || "sc-status"@[1] != "cs-version"@[1] || "sc-status"@[3] != "cs-version"@[3]);
    assert("sc-bytes"@.len() != "date"@.len() || "sc-bytes"@[0] != "date"@[0] || "sc-bytes"@[1] != "date"@[1] || "sc-bytes"@[3] != "date"@[3]);
    assert("sc-bytes"@.len() != "time"@.len() || "sc-bytes"@[0] != "time"@[0] || "sc-bytes"@[1] != "time"@[1] || "sc-bytes"@[3] != "time"@[3]);
    assert("sc-bytes"@.len() != "c-ip"@.len() || "sc-bytes"@[0] != "c-ip"@[0] || "sc-bytes"@[1] != "c-ip"@[1] || "sc-bytes"@[3] != "c-ip"@[3]);
    assert("sc-bytes"@.len() != "cs-method"@.len() || "sc-bytes"@[0] != "cs-method"@[0] || "sc-bytes"@[1] != "cs-method"@[1] || "sc-bytes"@[3] != "cs-method"@[3]);
    assert("sc-bytes"@.len() != "cs-uri-stem"@.len() || "sc-bytes"@[0] != "cs-uri-stem"@[0] || "sc-bytes"@[1] != "cs-uri-stem"@[1] || "sc-bytes"@[3] != "cs-uri-stem"@[3]);
    assert("sc-bytes"@.len() != "cs-uri-query"@.len() || "sc-bytes"@[0] != "cs-uri-query"@[0] || "sc-bytes"@[1] != "cs-uri-query"@[1] || "sc-bytes"@[3] != "cs-uri-query"@[3]);
    assert("sc-bytes"@.len() != "cs-version"@.len() || "sc-bytes"@[0] != "cs-version"@[0] || "sc-bytes"@[1] != "cs-version"@[1] || "sc-bytes"@[3] != "cs-version"@[3]);
    assert("sc-bytes"@.len() != "sc-status"@.len() || "sc-bytes"@[0] != "sc-status"@[0] || "sc-bytes"@[1] != "sc-status"@[1] || "sc-bytes"@[3] != "sc-status"@[3]);
    assert("cs(Referer)"@.len() != "date"@.len() || "cs(Referer)"@[0] != "date"@[0] || "cs(Referer)"@[1] != "date"@[1] || "cs(Referer)"@[3] != "date"@[3]);
    assert("cs(Referer)"@.len() != "time"@.len() || "cs(Referer)"@[0] != "time"@[0] || "cs(Referer)"@[1] != "time"@[1] || "cs(Referer)"@[3] != "time"@[3]);
    assert("cs(Referer)"@.len() != "c-ip"@.len() || "cs(Referer)"@[0] != "c-ip"@[0] || "cs(Referer)"@[1] != "c-ip"@[1] || "cs(Referer)"@[3] != "c-ip"@[3]);
    assert("cs(Referer)"@.len() != "cs-method"@.len() || "cs(Referer)"@[0] != "cs-method"@[0] || "cs(Referer)"@[1] != "cs-method"@[1] || "cs(Referer)"@[3] != "cs-method"@[3]);
    assert("cs(Referer)"@.len() != "cs-uri-stem"@.len() || "cs(Referer)"@[0] != "cs-uri-stem"@[0] || "cs(Referer)"@[1] != "cs-uri-stem"@[1] || "cs(Referer)"@[3] != "cs-uri-stem"@[3]);
    assert("cs(Referer)"@.len() != "cs-uri-query"@.len() || "cs(Referer)"@[0] != "cs-uri-query"@[0] || "cs(Referer)"@[1] != "cs-uri-query"@[1] || "cs(Referer)"@[3] != "cs-uri-query"@[3]);
    assert("cs(Referer)"@.len() != "cs-version"@.len() || "cs(Referer)"@[0] != "cs-version"@[0] || "cs(Referer)"@[1] != "cs-version"@[1] || "cs(Referer)"@[3] != "cs-version"@[3]);
    assert("cs(Referer)"@.len() != "sc-status"@.len() || "cs(Referer)"@[0] != "sc-status"@[0] || "cs(Referer)"@[1] != "sc-status"@[1] || "cs(Referer)"@[3] != "sc-status"@[3]);
    assert("cs(Referer)"@.len() != "sc-bytes"@.len() || "cs(Referer)"@[0] != "sc-bytes"@[0] || "cs(Referer)"@[1] != "sc-bytes"@[1] || "cs(Referer)"@[3] != "sc-bytes"@[3]);
    assert("cs(User-Agent)"@.len() != "date"@.len() || "cs(User-Agent)"@[0] != "date"@[0] || "cs(User-Agent)"@[1] != "date"@[1] || "cs(User-Agent)"@[3] != "date"@[3]);
    assert("cs(User-Agent)"@.len() != "time"@.len() || "cs(User-Agent)"@[0] != "time"@[0] || "cs(User-Agent)"@[1] != "time"@[1] || "cs(User-Agent)"@[3] != "time"@[3]);
    assert("cs(User-Agent)"@.len() != "c-ip"@.len() || "cs(User-Agent)"@[0] != "c-ip"@[0] || "cs(User-Agent)"@[1] != "c-ip"@[1] || "cs(User-Agent)"@[3] != "c-ip"@[3]);
    assert("cs(User-Agent)"@.len() != "cs-method"@.len() || "cs(User-Agent)"@[0] != "cs-method"@[0] || "cs(User-Agent)"@[1] != "cs-method"@[1] || "cs(User-Agent)"@[3] != "cs-method"@[3]);
    assert("cs(User-Agent)"@.len() != "cs-uri-stem"@.len() || "cs(User-Agent)"@[0] != "cs-uri-stem"@[0] || "cs(User-Agent)"@[1] != "cs-uri-stem"@[1] || "cs(User-Agent)"@[3] != "cs-uri-stem"@[3]);
    assert("cs(User-Agent)"@.len() != "cs-uri-query"@.len() || "cs(User-Agent)"@[0] != "cs-uri-query"@[0] || "cs(User-Agent)"@[1] != "cs-uri-query"@[1] || "cs(User-Agent)"@[3] != "cs-uri-query"@[3]);
    assert("cs(User-Agent)"@.len() != "cs-version"@.len() || "cs(User-Agent)"@[0] != "cs-version"@[0] || "cs(User-Agent)"@[1] != "cs-version"@[1] || "cs(User-Agent)"@[3] != "cs-version"@[3]);
    assert("cs(User-Agent)"@.len() != "sc-status"@.len() || "cs(User-Agent)"@[0] != "sc-status"@[0] || "cs(User-Agent)"@[1] != "sc-status"@[1] || "cs(User-Agent)"@[3] != "sc-status"@[3]);
    assert("cs(User-Agent)"@.len() != "sc-bytes"@.len() || "cs(User-Agent)"@[0] != "sc-bytes"@[0] || "cs(User-Agent)"@[1] != "sc-bytes"@[1] || "cs(User-Agent)"@[3] != "sc-bytes"@[3]);
    assert("cs(User-Agent)"@.len() != "cs(Referer)"@.len() || "cs(User-Agent)"@[0] != "cs(Referer)"@[0] || "cs(User-Agent)"@[1] != "cs(Referer)"@[1] || "cs(User-Agent)"@[3] != "cs(Referer)"@[3]);
}

/// Two names of one standard kind are the same name.
proof fn lemma_kind_names(x: Seq<char>, y: Seq<char>)
    requires
        kind_of(x) == kind_of(y),
        kind_of(x) != ColumnKind::Other,
    ensures
        x == y,
{
}

/// The last column of a kind with a value holds the value of that kind.
proof fn lemma_last_value_at(fs: Seq<Seq<char>>, ts: Seq<Seq<char>>, kind: ColumnKind, n: int, k: int)
    requires
        0 <= k < n <= fs.len(),
        n <= ts.len(),
        kind_of(fs[k]) == kind,
        ts[k] != "-"@,
        forall|j: int| k < j < n ==> kind_of(#[trigger] fs[j]) != kind || ts[j] == "-"@,
    ensures
        last_value(fs, ts, kind, n) == Some(ts[k]),
    decreases n,
{
    if n - 1 > k {
        assert(kind_of(fs[n - 1]) != kind || ts[n - 1] == "-"@);
        lemma_last_value_at(fs, ts, kind, n - 1, k);
    }
}

/// The standard columns of a data line land in its record. When a line under the header
/// `fs` gives a record and column `k` is the last column of its name with a value (not
/// `-`), the record holds that value in the field the name stands for: `c-ip` the client
/// address, `cs-method` the method, `cs-version` the protocol, `sc-status` the status
/// code, `sc-bytes` the byte count, `cs(Referer)` the referrer and `cs(User-Agent)` the
/// user agent.
pub proof fn lemma_w3c_columns_land(
    fs: Seq<Seq<char>>,
    tz: TimezonePolicy,
    line_number: u64,
    line: Seq<char>,
    r: LineOutcome,
    k: int,
)
    requires
        w3c_outcome(fs, tz, line_number, line, r),
        r is Record,
        0 <= k < fs.len(),
        ascii_tokens(line).len() == fs.len(),
        ascii_tokens(line)[k] != "-"@,
        forall|j: int| k < j < fs.len() && #[trigger] fs[j] == fs[k] ==> ascii_tokens(line)[j] == "-"@,
    ensures
        r matches LineOutcome::Record(rec) && ({
            let v = ascii_tokens(line)[k];
            &&& fs[k] == "c-ip"@ ==> opt_view(rec.client_ip) == Some(v)
            &&& fs[k] == "cs-method"@ ==> opt_view(rec.method) == Some(v)
            &&& fs[k] == "cs-version"@ ==> opt_view(rec.protocol) == Some(v)
            &&& fs[k] == "sc-status"@ ==> rec.status is Some && rec.status == status_value(v)
            &&& fs[k] == "sc-bytes"@ ==> rec.bytes_sent is Some && rec.bytes_sent == i64_value(v)
            &&& fs[k] == "cs(Referer)"@ ==> opt_view(rec.referrer) == Some(v)
            &&& fs[k] == "cs(User-Agent)"@ ==> opt_view(rec.user_agent) == Some(v)
        }),
{
    lemma_standard_kinds();
    let ts = ascii_tokens(line);
    let n = fs.len() as int;
    let kind = kind_of(fs[k]);
    if kind != ColumnKind::Other {
        assert forall|j: int| k < j < n implies kind_of(#[trigger] fs[j]) != kind || ts[j] == "-"@ by {
            if kind_of(fs[j]) == kind {
                lemma_kind_names(fs[j], fs[k]);
            }
        }
        lemma_last_value_at(fs, ts, kind, n, k);
    }
    assert(column_failure(fs[k], ts[k]) is None);
}

} // verus!
