//! The normalized record and the outcome of one line.

use vstd::prelude::*;

use crate::text::str_eq;

verus! {

/// Extension fields: a map from field name to value, each name held once.
#[derive(Debug)]
pub struct ExtraFields {
    entries: Vec<(String, String)>,
}

impl ExtraFields {
    /// The (name, value) pairs in the order they were first inserted.
    pub closed spec fn entries_view(&self) -> Seq<(Seq<char>, Seq<char>)> {
        self.entries@.map_values(|e: (String, String)| (e.0@, e.1@))
    }

    /// No name occurs twice.
    #[verifier::type_invariant]
    closed spec fn unique_names(&self) -> bool {
        forall|i: int, j: int| 0 <= i < j < self.entries@.len() ==> (#[trigger] self.entries@[i]).0@ != (#[trigger] self.entries@[j]).0@
    }

    /// Whether field `k` is present.
    pub open spec fn has(&self, k: Seq<char>) -> bool {
        exists|i: int| 0 <= i < self.entries_view().len() && (#[trigger] self.entries_view()[i]).0 == k
    }

    /// The map from name to value.
    pub open spec fn view(&self) -> Map<Seq<char>, Seq<char>> {
        Map::new(
            |k: Seq<char>| self.has(k),
            |k: Seq<char>| self.entries_view()[choose|i: int| 0 <= i < self.entries_view().len() && (#[trigger] self.entries_view()[i]).0 == k].1,
        )
    }

    /// No fields.
    pub fn new() -> (r: Self)
        ensures
            r.view() == Map::<Seq<char>, Seq<char>>::empty(),
            r.entries_view().len() == 0,
    {
        let r = ExtraFields { entries: Vec::new() };
        assert(r.view() =~= Map::<Seq<char>, Seq<char>>::empty());
        r
    }

    /// Number of fields.
    pub fn len(&self) -> (r: usize)
        ensures
            r == self.entries_view().len(),
    {
        self.entries.len()
    }

    /// Whether there are no fields.
    pub fn is_empty(&self) -> (r: bool)
        ensures
            r == (self.entries_view().len() == 0),
    {
        self.entries.len() == 0
    }

    /// Index of field `k`, if present.
    fn position(&self, k: &str) -> (r: Option<usize>)
        ensures
            match r {
                Some(i) => i < self.entries_view().len() && self.entries_view()[i as int].0 == k@,
                None => !self.has(k@),
            },
    {
        let mut i: usize = 0;
        while i < self.entries.len()
            invariant
                i <= self.entries.len(),
                forall|x: int| 0 <= x < i ==> (#[trigger] self.entries@[x]).0@ != k@,
            decreases self.entries.len() - i,
        {
            if str_eq(self.entries[i].0.as_str(), k) {
                return Some(i);
            }
            i = i + 1;
        }
        assert forall|x: int| 0 <= x < self.entries_view().len() implies (#[trigger] self.entries_view()[x]).0 != k@ by {
            assert(self.entries_view()[x].0 == self.entries@[x].0@);
        }
        None
    }

    /// The value of field `k`.
    pub fn get(&self, k: &str) -> (r: Option<String>)
        ensures
            match r {
                Some(v) => self.view().dom().contains(k@) && self.view()[k@] == v@,
                None => !self.view().dom().contains(k@),
            },
    {
        proof { use_type_invariant(self); }
        match self.position(k) {
            Some(i) => {
                proof { self.lemma_at(i as int); }
                Some(self.entries[i].1.clone())
            },
            None => None,
        }
    }

    /// Whether field `k` is present.
    pub fn contains_key(&self, k: &str) -> (r: bool)
        ensures
            r == self.view().dom().contains(k@),
    {
        self.position(k).is_some()
    }

    /// The entry at `i` is what the map gives for its name.
    proof fn lemma_at(&self, i: int)
        requires
            0 <= i < self.entries_view().len(),
            self.unique_names(),
        ensures
            self.view().dom().contains(self.entries_view()[i].0),
            self.view()[self.entries_view()[i].0] == self.entries_view()[i].1,
    {
        let k = self.entries_view()[i].0;
        assert(self.has(k));
        let c = choose|j: int| 0 <= j < self.entries_view().len() && (#[trigger] self.entries_view()[j]).0 == k;
        if c != i {
            assert(self.entries@[c].0@ == self.entries@[i].0@);
            if c < i {
                assert(self.entries@[c].0@ != self.entries@[i].0@);
            } else {
                assert(self.entries@[i].0@ != self.entries@[c].0@);
            }
        }
    }

    /// Sets field `k` to `v`, replacing an earlier value.
    pub fn insert(&mut self, k: String, v: String)
        ensures
            final(self).view() == old(self).view().insert(k@, v@),
    {
        proof { use_type_invariant(&*self); }
        let ghost old_self = *self;
        match self.position(k.as_str()) {
            Some(i) => {
                let ghost kv = k@;
                let mut entries = Vec::new();
                std::mem::swap(&mut entries, &mut self.entries);
                entries.set(i, (k, v));
                proof {
                    assert forall|a: int, b: int| 0 <= a < b < entries@.len() implies (#[trigger] entries@[a]).0@ != (#[trigger] entries@[b]).0@ by {
                        if a != i && b != i {
                            assert(old_self.entries@[a] == entries@[a]);
                            assert(old_self.entries@[b] == entries@[b]);
                        } else if a == i {
                            assert(old_self.entries@[a].0@ == entries@[a].0@);
                            assert(old_self.entries@[b] == entries@[b]);
                        } else {
                            assert(old_self.entries@[b].0@ == entries@[b].0@);
                            assert(old_self.entries@[a] == entries@[a]);
                        }
                    }
                }
                self.entries = entries;
                proof {
                    assert(self.entries_view() =~= old_self.entries_view().update(i as int, (kv, v@)));
                    self.lemma_update_view(old_self, i as int);
                }
            },
            None => {
                let ghost kv = k@;
                let mut entries = Vec::new();
                std::mem::swap(&mut entries, &mut self.entries);
                entries.push((k, v));
                proof {
                    assert forall|a: int, b: int| 0 <= a < b < entries@.len() implies (#[trigger] entries@[a]).0@ != (#[trigger] entries@[b]).0@ by {
                        if b == entries@.len() - 1 {
                            assert(old_self.entries_view()[a].0 == old_self.entries@[a].0@);
                        } else {
                            assert(old_self.entries@[b] == entries@[b]);
                        }
                    }
                }
                self.entries = entries;
                proof {
                    assert(self.entries_view() =~= old_self.entries_view().push((kv, v@)));
                    assert(self.entries_view().drop_last() =~= old_self.entries_view());
                    self.lemma_push_view(old_self);
                }
            },
        }
    }

    proof fn lemma_update_view(&self, old_self: ExtraFields, i: int)
        requires
            self.unique_names(),
            old_self.unique_names(),
            0 <= i < old_self.entries_view().len(),
            self.entries_view() == old_self.entries_view().update(i, (old_self.entries_view()[i].0, self.entries_view()[i].1)),
        ensures
            self.view() == old_self.view().insert(old_self.entries_view()[i].0, self.entries_view()[i].1),
    {
        let k = old_self.entries_view()[i].0;
        self.lemma_at(i);
        assert forall|x: Seq<char>| #[trigger] self.view().dom().contains(x) == old_self.view().insert(k, self.entries_view()[i].1).dom().contains(x) by {
            if self.has(x) {
                let j = choose|j: int| 0 <= j < self.entries_view().len() && (#[trigger] self.entries_view()[j]).0 == x;
                assert(old_self.entries_view()[j].0 == x);
            }
            if old_self.has(x) {
                let j = choose|j: int| 0 <= j < old_self.entries_view().len() && (#[trigger] old_self.entries_view()[j]).0 == x;
                assert(self.entries_view()[j].0 == x);
            }
        }
        assert forall|x: Seq<char>| self.view().dom().contains(x) && x != k implies #[trigger] self.view()[x] == old_self.view()[x] by {
            let j = choose|j: int| 0 <= j < self.entries_view().len() && (#[trigger] self.entries_view()[j]).0 == x;
            assert(j != i);
            self.lemma_at(j);
            old_self.lemma_at(j);
        }
        assert(self.view() =~= old_self.view().insert(k, self.entries_view()[i].1));
    }

    proof fn lemma_push_view(&self, old_self: ExtraFields)
        requires
            self.unique_names(),
            old_self.unique_names(),
            self.entries_view().len() == old_self.entries_view().len() + 1,
            self.entries_view().drop_last() == old_self.entries_view(),
        ensures
            self.view() == old_self.view().insert(self.entries_view().last().0, self.entries_view().last().1),
    {
        let n = old_self.entries_view().len() as int;
        let k = self.entries_view()[n].0;
        self.lemma_at(n);
        assert forall|j: int| 0 <= j < n implies #[trigger] self.entries_view()[j] == old_self.entries_view()[j] by {
            assert(self.entries_view().drop_last()[j] == self.entries_view()[j]);
        }
        assert forall|x: Seq<char>| #[trigger] self.view().dom().contains(x) == old_self.view().insert(k, self.entries_view()[n].1).dom().contains(x) by {
            if self.has(x) {
                let j = choose|j: int| 0 <= j < self.entries_view().len() && (#[trigger] self.entries_view()[j]).0 == x;
                if j < n {
                    assert(old_self.entries_view()[j].0 == x);
                }
            }
            if old_self.has(x) {
                let j = choose|j: int| 0 <= j < old_self.entries_view().len() && (#[trigger] old_self.entries_view()[j]).0 == x;
                assert(self.entries_view()[j].0 == x);
            }
        }
        assert forall|x: Seq<char>| self.view().dom().contains(x) && x != k implies #[trigger] self.view()[x] == old_self.view()[x] by {
            let j = choose|j: int| 0 <= j < self.entries_view().len() && (#[trigger] self.entries_view()[j]).0 == x;
            assert(j != n);
            self.lemma_at(j);
            old_self.lemma_at(j);
        }
        assert(self.view() =~= old_self.view().insert(k, self.entries_view()[n].1));
    }

    /// The fields as (name, value) pairs.
    pub fn entries(&self) -> (r: Vec<(String, String)>)
        ensures
            r@.map_values(|e: (String, String)| (e.0@, e.1@)) == self.entries_view(),
    {
        let mut out: Vec<(String, String)> = Vec::new();
        let mut i: usize = 0;
        while i < self.entries.len()
            invariant
                i <= self.entries.len(),
                out@.map_values(|e: (String, String)| (e.0@, e.1@)) == self.entries_view().subrange(0, i as int),
            decreases self.entries.len() - i,
        {
            let ghost before = out@;
            out.push((self.entries[i].0.clone(), self.entries[i].1.clone()));
            assert(out@.map_values(|e: (String, String)| (e.0@, e.1@))
                =~= before.map_values(|e: (String, String)| (e.0@, e.1@)).push((self.entries@[i as int].0@, self.entries@[i as int].1@)));
            assert(self.entries_view()[i as int] == (self.entries@[i as int].0@, self.entries@[i as int].1@));
            assert(out@.map_values(|e: (String, String)| (e.0@, e.1@)) =~= self.entries_view().subrange(0, i + 1));
            i = i + 1;
        }
        assert(self.entries_view().subrange(0, self.entries.len() as int) =~= self.entries_view());
        out
    }
}

impl Clone for ExtraFields {
    fn clone(&self) -> (r: Self)
        ensures
            r.entries_view() == self.entries_view(),
            r.view() == self.view(),
    {
        proof { use_type_invariant(self); }
        let mut out: Vec<(String, String)> = Vec::new();
        let mut i: usize = 0;
        while i < self.entries.len()
            invariant
                i <= self.entries.len(),
                out@.len() == i,
                forall|x: int| 0 <= x < i ==> (#[trigger] out@[x]).0@ == self.entries@[x].0@ && out@[x].1@ == self.entries@[x].1@,
            decreases self.entries.len() - i,
        {
            out.push((self.entries[i].0.clone(), self.entries[i].1.clone()));
            i = i + 1;
        }
        proof {
            assert forall|a: int, b: int| 0 <= a < b < out@.len() implies (#[trigger] out@[a]).0@ != (#[trigger] out@[b]).0@ by {
                assert(self.entries@[a].0@ != self.entries@[b].0@);
            }
        }
        let r = ExtraFields { entries: out };
        assert(r.entries_view() =~= self.entries_view());
        assert(r.view() =~= self.view());
        r
    }
}

impl ExtraFields {
    /// Whether every field of `self` is in `other` with the same value.
    fn contained_in(&self, other: &ExtraFields) -> (r: bool)
        ensures
            r == forall|k: Seq<char>| #[trigger] self.view().dom().contains(k) ==> other.view().dom().contains(k)
                && other.view()[k] == self.view()[k],
    {
        proof { use_type_invariant(self); }
        let mut i: usize = 0;
        while i < self.entries.len()
            invariant
                i <= self.entries.len(),
                self.unique_names(),
                forall|x: int| 0 <= x < i ==> other.view().dom().contains((#[trigger] self.entries_view()[x]).0)
                    && other.view()[self.entries_view()[x].0] == self.entries_view()[x].1,
            decreases self.entries.len() - i,
        {
            assert(self.entries_view()[i as int] == (self.entries@[i as int].0@, self.entries@[i as int].1@));
            match other.get(self.entries[i].0.as_str()) {
                Some(v) => {
                    if !str_eq(v.as_str(), self.entries[i].1.as_str()) {
                        proof { self.lemma_at(i as int); }
                        return false;
                    }
                },
                None => {
                    proof { self.lemma_at(i as int); }
                    return false;
                },
            }
            i = i + 1;
        }
        assert forall|k: Seq<char>| #[trigger] self.view().dom().contains(k) implies other.view().dom().contains(k)
            && other.view()[k] == self.view()[k] by {
            let j = choose|j: int| 0 <= j < self.entries_view().len() && (#[trigger] self.entries_view()[j]).0 == k;
            self.lemma_at(j);
        }
        true
    }
}

impl PartialEq for ExtraFields {
    fn eq(&self, other: &Self) -> (r: bool) {
        let r = self.contained_in(other) && other.contained_in(self);
        proof {
            if r {
                assert(self.view() =~= other.view());
            }
        }
        r
    }
}

impl vstd::std_specs::cmp::PartialEqSpecImpl for ExtraFields {
    open spec fn obeys_eq_spec() -> bool {
        true
    }

    open spec fn eq_spec(&self, other: &ExtraFields) -> bool {
        self.view() == other.view()
    }
}

/// A normalized log record. It holds no raw line text.
#[derive(Debug, Clone, PartialEq)]
pub struct LogRecord {
    /// Logical line number in the file (from 1).
    pub line_number: u64,
    /// UTC timestamp in microseconds; `None` when the time zone is not determined.
    pub timestamp_utc: Option<i64>,
    /// The UTC offset (seconds) used to read the time, whether from the policy or the input.
    pub tz_offset_seconds: Option<i32>,
    /// Client IP as written (validated).
    pub client_ip: Option<String>,
    /// HTTP method.
    pub method: Option<String>,
    /// Request target (path and query, not decoded).
    pub request_target: Option<String>,
    /// Protocol.
    pub protocol: Option<String>,
    /// Status code.
    pub status: Option<u16>,
    /// Bytes sent; missing is `None`, never 0.
    pub bytes_sent: Option<i64>,
    /// Referrer.
    pub referrer: Option<String>,
    /// User agent.
    pub user_agent: Option<String>,
    /// Extension fields (user defined, non-standard W3C fields).
    pub extra: ExtraFields,
}

/// The characters of a present value.
pub open spec fn opt_view(o: Option<String>) -> Option<Seq<char>> {
    match o {
        Some(s) => Some(s@),
        None => None,
    }
}

/// Byte length of an optional text (0 when absent).
pub open spec fn opt_bytes(o: Option<String>) -> nat {
    match o {
        Some(s) => crate::compile::byte_len(s@),
        None => 0,
    }
}

/// Bytes the extension fields account for: name, value and 8 per field.
pub open spec fn extra_bytes(e: Seq<(Seq<char>, Seq<char>)>, n: int) -> nat
    decreases n,
{
    if n <= 0 {
        0
    } else {
        extra_bytes(e, n - 1) + crate::compile::byte_len(e[n - 1].0) + crate::compile::byte_len(e[n - 1].1) + 8
    }
}

/// Approximate bytes a record takes: 64, the texts, and the extension fields.
pub open spec fn record_bytes(r: LogRecord) -> nat {
    64 + opt_bytes(r.client_ip) + opt_bytes(r.method) + opt_bytes(r.request_target) + opt_bytes(r.protocol)
        + opt_bytes(r.referrer) + opt_bytes(r.user_agent)
        + extra_bytes(r.extra.entries_view(), r.extra.entries_view().len() as int)
}

fn opt_len(o: &Option<String>) -> (r: usize)
    ensures
        r == opt_bytes(*o),
{
    match o {
        Some(s) => s.as_str().len(),
        None => 0,
    }
}

impl LogRecord {
    /// An empty record for line `line_number`.
    pub fn empty(line_number: u64) -> (r: Self)
        ensures
            r.line_number == line_number,
            r.timestamp_utc is None,
            r.tz_offset_seconds is None,
            r.client_ip is None,
            r.method is None,
            r.request_target is None,
            r.protocol is None,
            r.status is None,
            r.bytes_sent is None,
            r.referrer is None,
            r.user_agent is None,
            r.extra.view() == Map::<Seq<char>, Seq<char>>::empty(),
            r.extra.entries_view().len() == 0,
    {
        LogRecord {
            line_number,
            timestamp_utc: None,
            tz_offset_seconds: None,
            client_ip: None,
            method: None,
            request_target: None,
            protocol: None,
            status: None,
            bytes_sent: None,
            referrer: None,
            user_agent: None,
            extra: ExtraFields::new(),
        }
    }

    /// Approximate bytes the record takes, used for the batch byte limit. The sum
    /// saturates at `usize::MAX`.
    pub fn approx_bytes(&self) -> (r: usize)
        ensures
            r == if record_bytes(*self) > usize::MAX { usize::MAX as nat } else { record_bytes(*self) },
    {
        let mut total: usize = 64;
        total = total.saturating_add(opt_len(&self.client_ip));
        total = total.saturating_add(opt_len(&self.method));
        total = total.saturating_add(opt_len(&self.request_target));
        total = total.saturating_add(opt_len(&self.protocol));
        total = total.saturating_add(opt_len(&self.referrer));
        total = total.saturating_add(opt_len(&self.user_agent));
        let ghost base: nat = 64 + opt_bytes(self.client_ip) + opt_bytes(self.method) + opt_bytes(self.request_target)
            + opt_bytes(self.protocol) + opt_bytes(self.referrer) + opt_bytes(self.user_agent);
        assert(total == if base > usize::MAX { usize::MAX as nat } else { base });
        let entries = self.extra.entries();
        let ghost ev = self.extra.entries_view();
        let mut i: usize = 0;
        while i < entries.len()
            invariant
                i <= entries.len(),
                entries@.map_values(|e: (String, String)| (e.0@, e.1@)) == ev,
                total == if base + extra_bytes(ev, i as int) > usize::MAX { usize::MAX as nat } else { base + extra_bytes(ev, i as int) },
            decreases entries.len() - i,
        {
            assert(ev[i as int] == (entries@[i as int].0@, entries@[i as int].1@));
            let k = entries[i].0.as_str().len();
            let v = entries[i].1.as_str().len();
            total = total.saturating_add(k).saturating_add(v).saturating_add(8);
            i = i + 1;
        }
        total
    }
}

/// Why a line failed. Holds no input text.
#[derive(Debug, Clone, Copy, PartialEq, Eq)]
pub enum ParseErrorCode {
    /// The format's regular expression did not match.
    NoMatch,
    /// Bytes that are not UTF-8; recorded as a failure, never converted lossily.
    InvalidUtf8,
    /// The line is longer than the limit.
    LineTooLong,
    /// Not an IP address.
    InvalidIp,
    /// Not a timestamp.
    InvalidTimestamp,
    /// Not an integer.
    InvalidInteger,
    /// Status code outside 100 to 599.
    InvalidStatus,
    /// W3C: a data line came before the `#Fields` header.
    HeaderMissing,
    /// W3C: the number of fields differs from the header.
    FieldCountMismatch,
    /// W3C: a malformed header directive.
    InvalidDirective,
}

/// The stored code of each failure kind.
pub open spec fn error_code_text(c: ParseErrorCode) -> Seq<char> {
    match c {
        ParseErrorCode::NoMatch => "no_match"@,
        ParseErrorCode::InvalidUtf8 => "invalid_utf8"@,
        ParseErrorCode::LineTooLong => "line_too_long"@,
        ParseErrorCode::InvalidIp => "invalid_ip"@,
        ParseErrorCode::InvalidTimestamp => "invalid_timestamp"@,
        ParseErrorCode::InvalidInteger => "invalid_integer"@,
        ParseErrorCode::InvalidStatus => "invalid_status"@,
        ParseErrorCode::HeaderMissing => "header_missing"@,
        ParseErrorCode::FieldCountMismatch => "field_count_mismatch"@,
        ParseErrorCode::InvalidDirective => "invalid_directive"@,
    }
}

impl ParseErrorCode {
    /// The string code stored for this failure.
    pub fn as_str(self) -> (r: &'static str)
        ensures
            r@ == error_code_text(self),
    {
        match self {
            ParseErrorCode::NoMatch => "no_match",
            ParseErrorCode::InvalidUtf8 => "invalid_utf8",
            ParseErrorCode::LineTooLong => "line_too_long",
            ParseErrorCode::InvalidIp => "invalid_ip",
            ParseErrorCode::InvalidTimestamp => "invalid_timestamp",
            ParseErrorCode::InvalidInteger => "invalid_integer",
            ParseErrorCode::InvalidStatus => "invalid_status",
            ParseErrorCode::HeaderMissing => "header_missing",
            ParseErrorCode::FieldCountMismatch => "field_count_mismatch",
            ParseErrorCode::InvalidDirective => "invalid_directive",
        }
    }
}

/// Why a line was left out. Not counted as a failure.
#[derive(Debug, Clone, Copy, PartialEq, Eq)]
pub enum SkipReason {
    /// Blank line.
    Blank,
    /// Comment or header directive.
    Directive,
    /// A line continuing the record before it (a stack trace and the like); multi-line
    /// records are not supported, so it is skipped.
    Continuation,
}

/// What one line gave.
#[derive(Debug, Clone, PartialEq)]
pub enum LineOutcome {
    /// A record.
    Record(LogRecord),
    /// A failure: only its place and code are kept.
    Error {
        /// Line number.
        line_number: u64,
        /// Failure code.
        code: ParseErrorCode,
        /// A note that is no input text, such as the field the failure is about.
        field: Option<String>,
    },
    /// Left out.
    Skipped {
        /// Line number.
        line_number: u64,
        /// Why.
        reason: SkipReason,
    },
}

impl LineOutcome {
    /// A failure outcome.
    pub fn error(line_number: u64, code: ParseErrorCode, field: Option<&str>) -> (r: Self)
        ensures
            r matches LineOutcome::Error { line_number: n, code: c, field: f }
                && n == line_number && c == code
                && opt_view(f) == match field {
                    Some(s) => Some(s@),
                    None => None::<Seq<char>>,
                },
    {
        let f = match field {
            Some(s) => Some(s.to_owned()),
            None => None,
        };
        LineOutcome::Error { line_number, code, field: f }
    }
}


/// `r` is the failure `code` on line `line_number`, with note `field`.
pub open spec fn is_error(r: LineOutcome, line_number: u64, code: ParseErrorCode, field: Option<Seq<char>>) -> bool {
    r matches LineOutcome::Error { line_number: n, code: c, field: f } && n == line_number && c == code
        && opt_view(f) == field
}

/// A record as values: its texts as characters and its extension fields as a map.
pub ghost struct RecordView {
    pub line_number: u64,
    pub timestamp_utc: Option<i64>,
    pub tz_offset_seconds: Option<i32>,
    pub client_ip: Option<Seq<char>>,
    pub method: Option<Seq<char>>,
    pub request_target: Option<Seq<char>>,
    pub protocol: Option<Seq<char>>,
    pub status: Option<u16>,
    pub bytes_sent: Option<i64>,
    pub referrer: Option<Seq<char>>,
    pub user_agent: Option<Seq<char>>,
    pub extra: Map<Seq<char>, Seq<char>>,
}

/// The values of a record.
pub open spec fn record_view(r: LogRecord) -> RecordView {
    RecordView {
        line_number: r.line_number,
        timestamp_utc: r.timestamp_utc,
        tz_offset_seconds: r.tz_offset_seconds,
        client_ip: opt_view(r.client_ip),
        method: opt_view(r.method),
        request_target: opt_view(r.request_target),
        protocol: opt_view(r.protocol),
        status: r.status,
        bytes_sent: r.bytes_sent,
        referrer: opt_view(r.referrer),
        user_agent: opt_view(r.user_agent),
        extra: r.extra.view(),
    }
}

/// The values of an empty record for line `line_number`.
pub open spec fn empty_view(line_number: u64) -> RecordView {
    RecordView {
        line_number,
        timestamp_utc: None,
        tz_offset_seconds: None,
        client_ip: None,
        method: None,
        request_target: None,
        protocol: None,
        status: None,
        bytes_sent: None,
        referrer: None,
        user_agent: None,
        extra: Map::empty(),
    }
}

} // verus!
