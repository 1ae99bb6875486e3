//! Line parser for block definitions: the line is matched against the compiled
//! pattern, then each field is checked by its kind.

use vstd::prelude::*;

use crate::compile::{extras_view, CompiledBlocks};
use crate::error::EngineError;
use crate::ext::{regex_captures_result, str_chars};
use crate::ip::{ip_text, validate_ip};
use crate::model::{Block, FieldDef, FieldKind, TimezonePolicy};
use crate::record::{empty_view, is_error, record_view, LineOutcome, LogRecord, ParseErrorCode, RecordView, SkipReason};
use crate::semantic::{
    i64_value, parse_i64, parse_status, request_parts, resolve_timestamp, resolved_time, split_request_line, status_value,
};
use crate::text::{trimmed_end, all_space, char_is_unicode_space, chars_all_space, chars_slice, chars_start_with, is_unicode_space, starts_with, str_eq, strings_view};

verus! {

/// A block line parser.
#[derive(Debug)]
pub struct BlocksParser {
    compiled: CompiledBlocks,
    timezone: TimezonePolicy,
}

/// A line that does not match but continues the record before it (stack traces and
/// indented lines): after trimming its end it starts with a space, a tab, `#`, `at `,
/// `Stack trace`, `thrown`, `Caused by`, `Traceback` or `...`.
pub open spec fn continuation(line: Seq<char>) -> bool {
    let t = trimmed_end(line);
    starts_with(t, " "@) || starts_with(t, "\t"@) || starts_with(t, "#"@) || starts_with(t, "at "@)
        || starts_with(t, "Stack trace"@) || starts_with(t, "thrown"@) || starts_with(t, "Caused by"@)
        || starts_with(t, "Traceback"@) || starts_with(t, "..."@)
}

/// The record after field `def` with raw value `raw` is applied, or why the value is invalid.
pub open spec fn applied(rv: RecordView, def: FieldDef, raw: Seq<char>, tz: TimezonePolicy) -> Result<RecordView, ParseErrorCode> {
    match def.kind {
        FieldKind::ClientIp => if ip_text(raw) {
            Ok(RecordView { client_ip: Some(raw), ..rv })
        } else {
            Err(ParseErrorCode::InvalidIp)
        },
        FieldKind::Timestamp { format } => match resolved_time(raw, format, tz) {
            Some(t) => Ok(RecordView { timestamp_utc: t.utc_micros, tz_offset_seconds: t.offset_seconds, ..rv }),
            None => Err(ParseErrorCode::InvalidTimestamp),
        },
        FieldKind::RequestLine => {
            let p = request_parts(raw);
            Ok(RecordView { method: p.0, request_target: p.1, protocol: p.2, ..rv })
        },
        FieldKind::Method => Ok(RecordView { method: Some(raw), ..rv }),
        FieldKind::RequestTarget => Ok(RecordView { request_target: Some(raw), ..rv }),
        FieldKind::Protocol => Ok(RecordView { protocol: Some(raw), ..rv }),
        FieldKind::Status => match status_value(raw) {
            Some(s) => Ok(RecordView { status: Some(s), ..rv }),
            None => Err(ParseErrorCode::InvalidStatus),
        },
        FieldKind::BytesSent => match i64_value(raw) {
            Some(b) => Ok(RecordView { bytes_sent: Some(b), ..rv }),
            None => Err(ParseErrorCode::InvalidInteger),
        },
        FieldKind::Referrer => Ok(RecordView { referrer: Some(raw), ..rv }),
        FieldKind::UserAgent => Ok(RecordView { user_agent: Some(raw), ..rv }),
        FieldKind::Integer => if i64_value(raw) is Some {
            Ok(RecordView { extra: rv.extra.insert(def.name@, raw), ..rv })
        } else {
            Err(ParseErrorCode::InvalidInteger)
        },
        FieldKind::Text => Ok(RecordView { extra: rv.extra.insert(def.name@, raw), ..rv }),
    }
}

/// The record after the first `n` fields with values `vals` (a value that is absent or one
/// of the field's missing markers is skipped), or the first failure and its field's name.
pub open spec fn fold_fields(defs: Seq<FieldDef>, vals: Seq<Option<Seq<char>>>, n: int, init: RecordView, tz: TimezonePolicy)
    -> Result<RecordView, (ParseErrorCode, Seq<char>)>
    decreases n,
{
    if n <= 0 {
        Ok(init)
    } else {
        match fold_fields(defs, vals, n - 1, init, tz) {
            Err(e) => Err(e),
            Ok(rv) => match vals[n - 1] {
                None => Ok(rv),
                Some(raw) => if strings_view(defs[n - 1].missing@).contains(raw) {
                    Ok(rv)
                } else {
                    match applied(rv, defs[n - 1], raw, tz) {
                        Ok(r2) => Ok(r2),
                        Err(c) => Err((c, defs[n - 1].name@)),
                    }
                },
            },
        }
    }
}

/// `m` with the pairs of `ps` inserted in order.
pub open spec fn insert_all(m: Map<Seq<char>, Seq<char>>, ps: Seq<(Seq<char>, Seq<char>)>) -> Map<Seq<char>, Seq<char>>
    decreases ps.len(),
{
    if ps.len() == 0 {
        m
    } else {
        insert_all(m, ps.drop_last()).insert(ps.last().0, ps.last().1)
    }
}

/// The value of each field in the captured groups.
pub open spec fn field_values(c: CompiledBlocks, groups: Seq<Option<Seq<char>>>) -> Seq<Option<Seq<char>>> {
    Seq::new(c.fields_view().len(), |i: int| if c.field_groups_view()[i] < groups.len() {
        groups[c.field_groups_view()[i] as int]
    } else {
        None
    })
}

/// What a line gives: blank lines and continuation lines are skipped, a line that does
/// not match fails, a field with an invalid value fails with its name; otherwise the
/// record of its fields, with the named captures of regex blocks as extension fields.
pub open spec fn blocks_outcome(c: CompiledBlocks, tz: TimezonePolicy, line_number: u64, line: Seq<char>, r: LineOutcome) -> bool {
    if all_space(line) {
        r == LineOutcome::Skipped { line_number, reason: SkipReason::Blank }
    } else {
        match regex_captures_result(c.pattern_view(), line) {
            None => if continuation(line) {
                r == LineOutcome::Skipped { line_number, reason: SkipReason::Continuation }
            } else {
                is_error(r, line_number, ParseErrorCode::NoMatch, None)
            },
            Some(groups) => match fold_fields(c.fields_view(), field_values(c, groups), c.fields_view().len() as int, empty_view(line_number), tz) {
                Err((code, name)) => is_error(r, line_number, code, Some(name)),
                Ok(rv) => r matches LineOutcome::Record(rec) && record_view(rec)
                    == (RecordView { extra: insert_all(rv.extra, extras_view(c.extra_groups_view(), groups, c.extra_groups_view().len() as int)), ..rv }),
            },
        }
    }
}

/// Whether `line` is a continuation line.
pub fn is_continuation(line: &str) -> (r: bool)
    ensures
        r == continuation(line@),
{
    let c = str_chars(line);
    let t = crate::text::trim_end_chars(&c);
    chars_start_with(&t, " ") || chars_start_with(&t, "\t") || chars_start_with(&t, "#")
        || chars_start_with(&t, "at ") || chars_start_with(&t, "Stack trace") || chars_start_with(&t, "thrown")
        || chars_start_with(&t, "Caused by") || chars_start_with(&t, "Traceback") || chars_start_with(&t, "...")
}

/// Applies field `def` with raw value `raw` to `record`.
fn apply_field(record: &mut LogRecord, def: &FieldDef, raw: &str, timezone: TimezonePolicy) -> (r: Result<(), ParseErrorCode>)
    ensures
        match applied(record_view(*old(record)), *def, raw@, timezone) {
            Ok(rv) => r is Ok && record_view(*final(record)) == rv,
            Err(c) => r == Err::<(), ParseErrorCode>(c),
        },
{
    match &def.kind {
        FieldKind::ClientIp => {
            match validate_ip(raw) {
                Some(ip) => {
                    record.client_ip = Some(ip.to_owned());
                },
                None => {
                    return Err(ParseErrorCode::InvalidIp);
                },
            }
        },
        FieldKind::Timestamp { format } => {
            match resolve_timestamp(raw, format, timezone) {
                Some(t) => {
                    record.timestamp_utc = t.utc_micros;
                    record.tz_offset_seconds = t.offset_seconds;
                },
                None => {
                    return Err(ParseErrorCode::InvalidTimestamp);
                },
            }
        },
        FieldKind::RequestLine => {
            let (m, t, p) = split_request_line(raw);
            record.method = m;
            record.request_target = t;
            record.protocol = p;
        },
        FieldKind::Method => {
            record.method = Some(raw.to_owned());
        },
        FieldKind::RequestTarget => {
            record.request_target = Some(raw.to_owned());
        },
        FieldKind::Protocol => {
            record.protocol = Some(raw.to_owned());
        },
        FieldKind::Status => {
            match parse_status(raw) {
                Some(s) => {
                    record.status = Some(s);
                },
                None => {
                    return Err(ParseErrorCode::InvalidStatus);
                },
            }
        },
        FieldKind::BytesSent => {
            match parse_i64(raw) {
                Some(b) => {
                    record.bytes_sent = Some(b);
                },
                None => {
                    return Err(ParseErrorCode::InvalidInteger);
                },
            }
        },
        FieldKind::Referrer => {
            record.referrer = Some(raw.to_owned());
        },
        FieldKind::UserAgent => {
            record.user_agent = Some(raw.to_owned());
        },
        FieldKind::Integer => {
            if parse_i64(raw).is_none() {
                return Err(ParseErrorCode::InvalidInteger);
            }
            record.extra.insert(def.name.clone(), raw.to_owned());
        },
        FieldKind::Text => {
            record.extra.insert(def.name.clone(), raw.to_owned());
        },
    }
    Ok(())
}

/// Whether `v` is one of the missing markers.
fn is_missing(missing: &Vec<String>, v: &str) -> (r: bool)
    ensures
        r == strings_view(missing@).contains(v@),
{
    let mut i: usize = 0;
    while i < missing.len()
        invariant
            i <= missing.len(),
            forall|k: int| 0 <= k < i ==> (#[trigger] missing@[k])@ != v@,
        decreases missing.len() - i,
    {
        if str_eq(missing[i].as_str(), v) {
            assert(strings_view(missing@)[i as int] == v@);
            return true;
        }
        i = i + 1;
    }
    assert forall|k: int| 0 <= k < strings_view(missing@).len() implies strings_view(missing@)[k] != v@ by {
        assert(strings_view(missing@)[k] == missing@[k]@);
    }
    false
}

impl BlocksParser {
    /// The compiled pattern is well formed.
    #[verifier::type_invariant]
    closed spec fn inv(&self) -> bool {
        self.compiled.wf()
    }

    /// The compiled blocks.
    pub closed spec fn compiled_view(&self) -> CompiledBlocks {
        self.compiled
    }

    /// The time zone policy.
    pub closed spec fn timezone_view(&self) -> TimezonePolicy {
        self.timezone
    }

    /// Compiles the blocks.
    pub fn new(blocks: &[Block], timezone: TimezonePolicy) -> (r: Result<BlocksParser, EngineError>)
        ensures
            match crate::compile::compile_outcome(blocks@) {
                Ok((p, fs)) => r matches Ok(b) && b.compiled_view().pattern_view() == p
                    && crate::compile::same_fields(b.compiled_view().fields_view(), fs)
                    && b.timezone_view() == timezone,
                Err(f) => r matches Err(e) && crate::compile::fail_is(e, f),
            },
    {
        match CompiledBlocks::compile(blocks) {
            Ok(compiled) => Ok(BlocksParser { compiled, timezone }),
            Err(e) => Err(e),
        }
    }

    /// The compiled pattern (for diagnostics).
    pub fn pattern(&self) -> (r: &str)
        ensures
            r@ == self.compiled_view().pattern_view(),
    {
        self.compiled.pattern()
    }

    /// Parses one line (without its line break).
    pub fn parse_line(&self, line_number: u64, line: &str) -> (r: LineOutcome)
        ensures
            blocks_outcome(self.compiled_view(), self.timezone_view(), line_number, line@, r),
    {
        proof { use_type_invariant(self); }
        let c = str_chars(line);
        if chars_all_space(&c) {
            return LineOutcome::Skipped { line_number, reason: SkipReason::Blank };
        }
        let mut buf = self.compiled.match_buf();
        if !self.compiled.match_line(line, &mut buf) {
            if is_continuation(line) {
                return LineOutcome::Skipped { line_number, reason: SkipReason::Continuation };
            }
            return LineOutcome::error(line_number, ParseErrorCode::NoMatch, None);
        }
        let ghost groups = buf.groups_view();
        let ghost vals = field_values(self.compiled, groups);
        let fields = self.compiled.fields();
        proof { self.compiled.lemma_wf_lengths(); }
        let mut record = LogRecord::empty(line_number);
        assert(record_view(record) == empty_view(line_number)) by {
            assert(record.extra.view() =~= Map::<Seq<char>, Seq<char>>::empty());
        }
        let mut i: usize = 0;
        while i < fields.len()
            invariant
                i <= fields.len(),
                fields@ == self.compiled.fields_view(),
                self.compiled.wf(),
                groups == buf.groups_view(),
                vals == field_values(self.compiled, groups),
                self.compiled.field_groups_view().len() == fields@.len(),
                regex_captures_result(self.compiled.pattern_view(), line@) == Some(groups),
                !all_space(line@),
                fold_fields(fields@, vals, i as int, empty_view(line_number), self.timezone) == Ok::<RecordView, (ParseErrorCode, Seq<char>)>(record_view(record)),
            decreases fields.len() - i,
        {
            let v = self.compiled.field_value(i, &buf);
            assert(opt_view_eq(v, vals[i as int]));
            match v {
                None => {},
                Some(raw) => {
                    if !is_missing(&fields[i].missing, raw.as_str()) {
                        let ar = apply_field(&mut record, &fields[i], raw.as_str(), self.timezone);
                        if let Err(code) = ar {
                            proof {
                                lemma_fold_err_stays(fields@, vals, i as int + 1, fields@.len() as int, empty_view(line_number), self.timezone);
                            }
                            return LineOutcome::error(line_number, code, Some(fields[i].name.as_str()));
                        }
                    }
                },
            }
            i = i + 1;
        }
        let extras = self.compiled.extras(&buf);
        let ghost base = record_view(record);
        let ghost ev = extras@.map_values(|e: (String, String)| (e.0@, e.1@));
        let mut k: usize = 0;
        while k < extras.len()
            invariant
                k <= extras.len(),
                ev == extras@.map_values(|e: (String, String)| (e.0@, e.1@)),
                record_view(record) == (RecordView { extra: insert_all(base.extra, ev.subrange(0, k as int)), ..base }),
            decreases extras.len() - k,
        {
            assert(ev.subrange(0, k + 1).drop_last() =~= ev.subrange(0, k as int));
            assert(ev[k as int] == (extras@[k as int].0@, extras@[k as int].1@));
            record.extra.insert(extras[k].0.clone(), extras[k].1.clone());
            k = k + 1;
        }
        assert(ev.subrange(0, extras.len() as int) =~= ev);
        LineOutcome::Record(record)
    }
}

/// A value read from the buffer is the field's value.
pub open spec fn opt_view_eq(v: Option<String>, w: Option<Seq<char>>) -> bool {
    crate::record::opt_view(v) == w
}

/// Once the fold fails it keeps the same failure.
proof fn lemma_fold_err_stays(defs: Seq<FieldDef>, vals: Seq<Option<Seq<char>>>, k: int, n: int, init: RecordView, tz: TimezonePolicy)
    requires
        0 <= k <= n,
        fold_fields(defs, vals, k, init, tz) is Err,
    ensures
        fold_fields(defs, vals, n, init, tz) == fold_fields(defs, vals, k, init, tz),
    decreases n - k,
{
    if n > k {
        lemma_fold_err_stays(defs, vals, k, n - 1, init, tz);
    }
}

} // verus!
