//! CSV export lines. The export streams cursor pages straight to disk; this module
//! writes each line.

use vstd::prelude::*;

use crate::error::{error_text, EngineError};
use crate::ext::{rfc3339_micros, rfc3339_micros_result, str_chars};
use crate::query::{ExportRow, LogFilter, SortOrder};
use crate::record::opt_view;
use crate::text::{chars_to_string, decimal, push_decimal, push_signed_decimal, push_str, signed_decimal};

verus! {

/// Export format.
#[derive(Debug, Clone, Copy, PartialEq, Eq)]
pub enum ExportFormat {
    /// CSV (UTF-8, with a header).
    Csv,
    /// JSON Lines (one object per line).
    JsonLines,
}

/// An export request.
#[derive(Debug, Clone, PartialEq, Eq)]
pub struct ExportRequest {
    /// Conditions.
    pub filter: LogFilter,
    /// Order.
    pub sort: SortOrder,
    /// Format.
    pub format: ExportFormat,
    /// Output file.
    pub out_path: std::path::PathBuf,
    /// Most rows; `None` for all.
    pub max_rows: Option<u64>,
    /// Add the extension fields' JSON column.
    pub include_extra: bool,
}

/// Rows per export page.
pub const EXPORT_PAGE: u32 = 10_000;

/// An instant as RFC 3339 in UTC with microseconds, or empty without one.
pub open spec fn iso_text(micros: Option<i64>) -> Seq<char> {
    match micros {
        Some(m) => match rfc3339_micros_result(m) {
            Some(s) => s,
            None => seq![],
        },
        None => seq![],
    }
}

/// Formats an optional instant for export.
pub fn iso_utc(micros: Option<i64>) -> (r: String)
    ensures
        r@ == iso_text(micros),
{
    match micros {
        Some(m) => match rfc3339_micros(m) {
            Some(s) => s,
            None => String::new(),
        },
        None => String::new(),
    }
}

/// A character that makes a CSV field need quotes.
pub open spec fn csv_special(c: char) -> bool {
    c == ',' || c == '"' || c == '\n' || c == '\r'
}

/// `v` with each `"` doubled.
pub open spec fn double_quotes(v: Seq<char>) -> Seq<char>
    decreases v.len(),
{
    if v.len() == 0 {
        seq![]
    } else {
        double_quotes(v.drop_last()) + if v.last() == '"' { seq!['"', '"'] } else { seq![v.last()] }
    }
}

/// A CSV field: quoted, with quotes doubled, when it holds a comma, a quote or a line
/// break; as it is otherwise.
pub open spec fn csv_text(v: Seq<char>) -> Seq<char> {
    if exists|i: int| 0 <= i < v.len() && csv_special(#[trigger] v[i]) {
        seq!['"'] + double_quotes(v) + seq!['"']
    } else {
        v
    }
}

/// Appends a CSV field.
pub fn csv_field(out: &mut Vec<char>, v: &str)
    ensures
        final(out)@ == old(out)@ + csv_text(v@),
{
    let c = str_chars(v);
    let mut special = false;
    let mut i: usize = 0;
    while i < c.len()
        invariant
            c@ == v@,
            i <= c.len(),
            special == exists|k: int| 0 <= k < i && csv_special(#[trigger] c@[k]),
        decreases c.len() - i,
    {
        let ch = c[i];
        if ch == ',' || ch == '"' || ch == '\n' || ch == '\r' {
            special = true;
        }
        i = i + 1;
    }
    if !special {
        let ghost before = out@;
        let mut k: usize = 0;
        while k < c.len()
            invariant
                k <= c.len(),
                out@ == before + c@.subrange(0, k as int),
            decreases c.len() - k,
        {
            out.push(c[k]);
            k = k + 1;
            assert(out@ =~= before + c@.subrange(0, k as int));
        }
        assert(c@.subrange(0, c.len() as int) =~= c@);
        return;
    }
    let ghost before = out@;
    out.push('"');
    let mut k: usize = 0;
    while k < c.len()
        invariant
            k <= c.len(),
            out@ == before + seq!['"'] + double_quotes(c@.subrange(0, k as int)),
        decreases c.len() - k,
    {
        let ch = c[k];
        out.push(ch);
        if ch == '"' {
            out.push('"');
        }
        proof {
            let s = c@.subrange(0, k + 1);
            assert(s.drop_last() =~= c@.subrange(0, k as int));
        }
        k = k + 1;
        assert(out@ =~= before + seq!['"'] + double_quotes(c@.subrange(0, k as int)));
    }
    out.push('"');
    assert(c@.subrange(0, c.len() as int) =~= c@);
}

/// Quoting a field and reading it back gives the field: the text between the outer
/// quotes, with each doubled quote read as one, is the original.
pub open spec fn undouble(v: Seq<char>) -> Seq<char>
    decreases v.len(),
{
    if v.len() == 0 {
        seq![]
    } else if v.len() >= 2 && v[0] == '"' && v[1] == '"' {
        seq!['"'] + undouble(v.subrange(2, v.len() as int))
    } else {
        seq![v[0]] + undouble(v.drop_first())
    }
}

/// Doubling the quotes of a text and reading the doubled quotes back gives the text.
pub proof fn lemma_double_quotes_round_trip(v: Seq<char>)
    ensures
        undouble(double_quotes(v)) == v,
    decreases v.len(),
{
    if v.len() > 0 {
        lemma_double_quotes_front(v);
        lemma_double_quotes_round_trip(v.drop_first());
        let head = if v[0] == '"' { seq!['"', '"'] } else { seq![v[0]] };
        let rest = double_quotes(v.drop_first());
        let d = head + rest;
        if v[0] == '"' {
            assert(d[0] == '"' && d[1] == '"');
            assert(d.subrange(2, d.len() as int) =~= rest);
            assert(undouble(d) == seq!['"'] + undouble(rest));
        } else {
            assert(d[0] == v[0]);
            assert(d.drop_first() =~= rest);
            assert(!(d.len() >= 2 && d[0] == '"' && d[1] == '"'));
            assert(undouble(d) == seq![v[0]] + undouble(rest));
        }
        assert(v =~= seq![v[0]] + v.drop_first());
    }
}

/// `double_quotes` read from the front.
proof fn lemma_double_quotes_front(v: Seq<char>)
    requires
        v.len() > 0,
    ensures
        double_quotes(v) == (if v[0] == '"' { seq!['"', '"'] } else { seq![v[0]] }) + double_quotes(v.drop_first()),
    decreases v.len(),
{
    let head = if v[0] == '"' { seq!['"', '"'] } else { seq![v[0]] };
    if v.len() == 1 {
        assert(v.drop_last() =~= Seq::<char>::empty());
        assert(v.drop_first() =~= Seq::<char>::empty());
        assert(double_quotes(v) =~= head + double_quotes(v.drop_first()));
    } else {
        let w = v.drop_last();
        lemma_double_quotes_front(w);
        assert(w[0] == v[0]);
        assert(w.drop_first() =~= v.drop_first().drop_last());
        assert(v.drop_first().last() == v.last());
        let tail_piece = if v.last() == '"' { seq!['"', '"'] } else { seq![v.last()] };
        assert(double_quotes(v) == double_quotes(w) + tail_piece);
        assert(double_quotes(v.drop_first()) == double_quotes(v.drop_first().drop_last()) + tail_piece);
        assert(double_quotes(v) =~= head + double_quotes(v.drop_first()));
    }
}

/// The CSV header: the columns, then `extra_json` when asked for.
pub open spec fn csv_header_text(include_extra: bool) -> Seq<char> {
    "timestamp_utc,tz_offset_seconds,client_ip,method,request_target,protocol,status,bytes_sent,referrer,user_agent,job_id,source_id,line_number"@
        + (if include_extra { ",extra_json"@ } else { seq![] }) + "\n"@
}

/// The CSV header line.
pub fn csv_header(include_extra: bool) -> (r: String)
    ensures
        r@ == csv_header_text(include_extra),
{
    let mut v: Vec<char> = Vec::new();
    push_str(&mut v, "timestamp_utc,tz_offset_seconds,client_ip,method,request_target,protocol,status,bytes_sent,referrer,user_agent,job_id,source_id,line_number");
    if include_extra {
        push_str(&mut v, ",extra_json");
    } else {
        assert(v@ + seq![] =~= v@);
    }
    push_str(&mut v, "\n");
    chars_to_string(&v)
}

/// An optional text, empty when absent.
pub open spec fn or_empty(o: Option<String>) -> Seq<char> {
    match o {
        Some(s) => s@,
        None => seq![],
    }
}

/// An optional integer in decimal, empty when absent.
pub open spec fn opt_int_text(o: Option<int>) -> Seq<char> {
    match o {
        Some(n) => signed_decimal(n),
        None => seq![],
    }
}

/// The fields of a CSV line, before quoting.
pub open spec fn csv_fields(row: ExportRow) -> Seq<Seq<char>> {
    seq![
        iso_text(row.timestamp_utc),
        opt_int_text(match row.tz_offset_seconds { Some(v) => Some(v as int), None => None }),
        or_empty(row.client_ip),
        or_empty(row.method),
        or_empty(row.request_target),
        or_empty(row.protocol),
        opt_int_text(match row.status { Some(v) => Some(v as int), None => None }),
        opt_int_text(match row.bytes_sent { Some(v) => Some(v as int), None => None }),
        or_empty(row.referrer),
        or_empty(row.user_agent),
        signed_decimal(row.job_id as int),
        signed_decimal(row.source_id as int),
        signed_decimal(row.line_number as int)
    ]
}

/// The first `n` fields quoted and joined by commas.
pub open spec fn joined_fields(fs: Seq<Seq<char>>, n: int) -> Seq<char>
    decreases n,
{
    if n <= 0 {
        seq![]
    } else {
        joined_fields(fs, n - 1) + (if n > 1 { seq![','] } else { seq![] }) + csv_text(fs[n - 1])
    }
}

/// A CSV line of a row: its fields, then the extension JSON when asked for, and a line break.
pub open spec fn csv_line_text(row: ExportRow, include_extra: bool) -> Seq<char> {
    joined_fields(csv_fields(row), 13)
        + (if include_extra { seq![','] + csv_text(or_empty(row.extra_json)) } else { seq![] })
        + seq!['\n']
}

fn opt_text(o: &Option<String>) -> (r: String)
    ensures
        r@ == or_empty(*o),
{
    match o {
        Some(s) => s.clone(),
        None => String::new(),
    }
}

fn opt_int(o: Option<i64>) -> (r: String)
    ensures
        r@ == opt_int_text(match o { Some(v) => Some(v as int), None => None }),
{
    match o {
        Some(n) => crate::text::i64_to_string(n),
        None => String::new(),
    }
}

/// The CSV line of an export row.
pub fn csv_line(row: &ExportRow, include_extra: bool) -> (r: String)
    ensures
        r@ == csv_line_text(*row, include_extra),
{
    let mut fields: Vec<String> = Vec::new();
    fields.push(iso_utc(row.timestamp_utc));
    fields.push(opt_int(match row.tz_offset_seconds { Some(v) => Some(v as i64), None => None }));
    fields.push(opt_text(&row.client_ip));
    fields.push(opt_text(&row.method));
    fields.push(opt_text(&row.request_target));
    fields.push(opt_text(&row.protocol));
    fields.push(opt_int(match row.status { Some(v) => Some(v as i64), None => None }));
    fields.push(opt_int(row.bytes_sent));
    fields.push(opt_text(&row.referrer));
    fields.push(opt_text(&row.user_agent));
    fields.push(crate::text::i64_to_string(row.job_id));
    fields.push(crate::text::i64_to_string(row.source_id));
    fields.push(crate::text::i64_to_string(row.line_number));
    let ghost fs = csv_fields(*row);
    assert(fields@.len() == 13);
    assert forall|k: int| 0 <= k < 13 implies (#[trigger] fields@[k])@ == fs[k] by {}
    let mut v: Vec<char> = Vec::new();
    let mut i: usize = 0;
    while i < fields.len()
        invariant
            i <= fields.len(),
            fields@.len() == 13,
            forall|k: int| 0 <= k < 13 ==> (#[trigger] fields@[k])@ == fs[k],
            v@ == joined_fields(fs, i as int),
        decreases fields.len() - i,
    {
        let ghost before = v@;
        if i > 0 {
            v.push(',');
        }
        csv_field(&mut v, fields[i].as_str());
        assert(v@ =~= joined_fields(fs, i + 1));
        i = i + 1;
    }
    if include_extra {
        v.push(',');
        let e = opt_text(&row.extra_json);
        let ghost b = v@;
        csv_field(&mut v, e.as_str());
        assert(v@ =~= joined_fields(fs, 13) + (seq![','] + csv_text(or_empty(row.extra_json))));
    } else {
        assert(v@ =~= joined_fields(fs, 13) + seq![]);
    }
    v.push('\n');
    chars_to_string(&v)
}

/// An export needs an output path whose folder exists (an empty folder part means the
/// current one).
pub fn check_export_target(path_is_empty: bool, folder_missing: bool) -> (r: Result<(), EngineError>)
    ensures
        path_is_empty ==> (r matches Err(EngineError::Query(m)) && m@ == "출력 경로가 비었음"@),
        !path_is_empty && folder_missing ==> (r matches Err(EngineError::Query(m)) && m@ == "출력 폴더가 없음"@),
        !path_is_empty && !folder_missing ==> r is Ok,
{
    if path_is_empty {
        Err(EngineError::Query("출력 경로가 비었음".to_owned()))
    } else if folder_missing {
        Err(EngineError::Query("출력 폴더가 없음".to_owned()))
    } else {
        Ok(())
    }
}

/// Whether an export has written all the rows it may.
pub fn row_limit_reached(max_rows: Option<u64>, rows: u64) -> (r: bool)
    ensures
        r == (match max_rows {
            Some(m) => rows >= m,
            None => false,
        }),
{
    match max_rows {
        Some(m) => rows >= m,
        None => false,
    }
}

/// What an export wrote. The time it took is kept in whole microseconds.
#[derive(Debug, Clone)]
pub struct ExportSummary {
    /// Output file.
    pub out_path: String,
    /// Rows written.
    pub rows: u64,
    /// Bytes written.
    pub bytes: u64,
    /// Time taken, in microseconds.
    pub elapsed_micros: u64,
    /// The committed batch bound that the first page pinned.
    pub max_batch_id: i64,
    /// Whether a cancel cut the output short.
    pub cancelled: bool,
    /// Whether the row limit cut the output short.
    pub truncated: bool,
}

/// How an export ended: its summary when it wrote (also when cancelled), its error otherwise.
#[derive(Debug, Clone)]
pub struct ExportFinishedView {
    /// Output file.
    pub out_path: String,
    /// Summary, on success or cancel.
    pub summary: Option<ExportSummary>,
    /// Error text, on failure.
    pub error: Option<String>,
}

/// The ending of an export run with this outcome.
pub fn export_finished(out_path: String, outcome: Result<ExportSummary, EngineError>) -> (r: ExportFinishedView)
    ensures
        r.out_path@ == out_path@,
        match outcome {
            Ok(s) => r.summary == Some(s) && r.error is None,
            Err(e) => r.summary is None && (r.error matches Some(t) && t@ == error_text(e)),
        },
{
    match outcome {
        Ok(summary) => ExportFinishedView { out_path, summary: Some(summary), error: None },
        Err(e) => {
            let text = e.message();
            ExportFinishedView { out_path, summary: None, error: Some(text) }
        },
    }
}

/// The CSV columns, in the order of the header.
pub open spec fn csv_columns() -> Seq<Seq<char>> {
    seq![
        "timestamp_utc"@, "tz_offset_seconds"@, "client_ip"@, "method"@, "request_target"@, "protocol"@, "status"@,
        "bytes_sent"@, "referrer"@, "user_agent"@, "job_id"@, "source_id"@, "line_number"@
    ]
}

/// The first `n` names joined by commas.
pub open spec fn comma_joined(names: Seq<Seq<char>>, n: int) -> Seq<char>
    decreases n,
{
    if n <= 0 {
        seq![]
    } else if n == 1 {
        names[0]
    } else {
        comma_joined(names, n - 1) + ","@ + names[n - 1]
    }
}

/// What a row holds under a column name, as exported (absent values empty, instants in
/// RFC 3339 UTC).
pub open spec fn column_value(row: ExportRow, name: Seq<char>) -> Seq<char> {
    if name == "bytes_sent"@ {
        opt_int_text(match row.bytes_sent { Some(v) => Some(v as int), None => None })
    } else if name == "client_ip"@ {
        or_empty(row.client_ip)
    } else if name == "job_id"@ {
        signed_decimal(row.job_id as int)
    } else if name == "line_number"@ {
        signed_decimal(row.line_number as int)
    } else if name == "method"@ {
        or_empty(row.method)
    } else if name == "protocol"@ {
        or_empty(row.protocol)
    } else if name == "referrer"@ {
        or_empty(row.referrer)
    } else if name == "request_target"@ {
        or_empty(row.request_target)
    } else if name == "source_id"@ {
        signed_decimal(row.source_id as int)
    } else if name == "status"@ {
        opt_int_text(match row.status { Some(v) => Some(v as int), None => None })
    } else if name == "timestamp_utc"@ {
        iso_text(row.timestamp_utc)
    } else if name == "tz_offset_seconds"@ {
        opt_int_text(match row.tz_offset_seconds { Some(v) => Some(v as int), None => None })
    } else if name == "user_agent"@ {
        or_empty(row.user_agent)
    } else {
        seq![]
    }
}

/// A CSV line matches its header: the header names the columns, and each line's `k`-th
/// field, before quoting, is what the row holds under the `k`-th column's name (the
/// referrer under `referrer`, the user agent under `user_agent`, and so on).
pub proof fn lemma_csv_fields_follow_header(row: ExportRow)
    ensures
        csv_header_text(false) == comma_joined(csv_columns(), 13) + "\n"@,
        csv_header_text(true) == comma_joined(csv_columns(), 13) + ",extra_json\n"@,
        csv_fields(row).len() == 13,
        forall|k: int| 0 <= k < 13 ==> #[trigger] csv_fields(row)[k] == column_value(row, csv_columns()[k]),
{
    reveal_strlit("timestamp_utc");
    reveal_strlit("tz_offset_seconds");
    reveal_strlit("client_ip");
    reveal_strlit("method");
    reveal_strlit("request_target");
    reveal_strlit("protocol");
    reveal_strlit("status");
    reveal_strlit("bytes_sent");
    reveal_strlit("referrer");
    reveal_strlit("user_agent");
    reveal_strlit("job_id");
    reveal_strlit("source_id");
    reveal_strlit("line_number");
    reveal_strlit(",");
    reveal_strlit("\n");
    reveal_strlit(",extra_json\n");
    reveal_strlit(",extra_json");
    reveal_strlit("timestamp_utc,tz_offset_seconds,client_ip,method,request_target,protocol,status,bytes_sent,referrer,user_agent,job_id,source_id,line_number");
    reveal_with_fuel(comma_joined, 14);
    let c = csv_columns();
    assert(comma_joined(c, 13) =~= "timestamp_utc,tz_offset_seconds,client_ip,method,request_target,protocol,status,bytes_sent,referrer,user_agent,job_id,source_id,line_number"@);
    assert(csv_header_text(false) =~= comma_joined(c, 13) + "\n"@);
    assert(csv_header_text(true) =~= comma_joined(c, 13) + ",extra_json\n"@);
    assert forall|k: int| 0 <= k < 13 implies #[trigger] csv_fields(row)[k] == column_value(row, c[k]) by {
        if k == 0 {
            assert(c[0] == "timestamp_utc"@);
            assert(c[0].len() != "bytes_sent"@.len() || c[0][0] != "bytes_sent"@[0]);
            assert(c[0] != "bytes_sent"@);
            assert(c[0].len() != "client_ip"@.len() || c[0][0] != "client_ip"@[0]);
            assert(c[0] != "client_ip"@);
            assert(c[0].len() != "job_id"@.len() || c[0][0] != "job_id"@[0]);
            assert(c[0] != "job_id"@);
            assert(c[0].len() != "line_number"@.len() || c[0][0] != "line_number"@[0]);
            assert(c[0] != "line_number"@);
            assert(c[0].len() != "method"@.len() || c[0][0] != "method"@[0]);
            assert(c[0] != "method"@);
            assert(c[0].len() != "protocol"@.len() || c[0][0] != "protocol"@[0]);
            assert(c[0] != "protocol"@);
            assert(c[0].len() != "referrer"@.len() || c[0][0] != "referrer"@[0]);
            assert(c[0] != "referrer"@);
            assert(c[0].len() != "request_target"@.len() || c[0][0] != "request_target"@[0]);
            assert(c[0] != "request_target"@);
            assert(c[0].len() != "source_id"@.len() || c[0][0] != "source_id"@[0]);
            assert(c[0] != "source_id"@);
            assert(c[0].len() != "status"@.len() || c[0][0] != "status"@[0]);
            assert(c[0] != "status"@);
        } else if k == 1 {
            assert(c[1] == "tz_offset_seconds"@);
            assert(c[1].len() != "bytes_sent"@.len() || c[1][0] != "bytes_sent"@[0]);
            assert(c[1] != "bytes_sent"@);
            assert(c[1].len() != "client_ip"@.len() || c[1][0] != "client_ip"@[0]);
            assert(c[1] != "client_ip"@);
            assert(c[1].len() != "job_id"@.len() || c[1][0] != "job_id"@[0]);
            assert(c[1] != "job_id"@);
            assert(c[1].len() != "line_number"@.len() || c[1][0] != "line_number"@[0]);
            assert(c[1] != "line_number"@);
            assert(c[1].len() != "method"@.len() || c[1][0] != "method"@[0]);
            assert(c[1] != "method"@);
            assert(c[1].len() != "protocol"@.len() || c[1][0] != "protocol"@[0]);
            assert(c[1] != "protocol"@);
            assert(c[1].len() != "referrer"@.len() || c[1][0] != "referrer"@[0]);
            assert(c[1] != "referrer"@);
            assert(c[1].len() != "request_target"@.len() || c[1][0] != "request_target"@[0]);
            assert(c[1] != "request_target"@);
            assert(c[1].len() != "source_id"@.len() || c[1][0] != "source_id"@[0]);
            assert(c[1] != "source_id"@);
            assert(c[1].len() != "status"@.len() || c[1][0] != "status"@[0]);
            assert(c[1] != "status"@);
            assert(c[1].len() != "timestamp_utc"@.len() || c[1][0] != "timestamp_utc"@[0]);
            assert(c[1] != "timestamp_utc"@);
        } else if k == 2 {
            assert(c[2] == "client_ip"@);
            assert(c[2].len() != "bytes_sent"@.len() || c[2][0] != "bytes_sent"@[0]);
            assert(c[2] != "bytes_sent"@);
        } else if k == 3 {
            assert(c[3] == "method"@);
            assert(c[3].len() != "bytes_sent"@.len() || c[3][0] != "bytes_sent"@[0]);
            assert(c[3] != "bytes_sent"@);
            assert(c[3].len() != "client_ip"@.len() || c[3][0] != "client_ip"@[0]);
            assert(c[3] != "client_ip"@);
            assert(c[3].len() != "job_id"@.len() || c[3][0] != "job_id"@[0]);
            assert(c[3] != "job_id"@);
            assert(c[3].len() != "line_number"@.len() || c[3][0] != "line_number"@[0]);
            assert(c[3] != "line_number"@);
        } else if k == 4 {
            assert(c[4] == "request_target"@);
            assert(c[4].len() != "bytes_sent"@.len() || c[4][0] != "bytes_sent"@[0]);
            assert(c[4] != "bytes_sent"@);
            assert(c[4].len() != "client_ip"@.len() || c[4][0] != "client_ip"@[0]);
            assert(c[4] != "client_ip"@);
            assert(c[4].len() != "job_id"@.len() || c[4][0] != "job_id"@[0]);
            assert(c[4] != "job_id"@);
            assert(c[4].len() != "line_number"@.len() || c[4][0] != "line_number"@[0]);
            assert(c[4] != "line_number"@);
            assert(c[4].len() != "method"@.len() || c[4][0] != "method"@[0]);
            assert(c[4] != "method"@);
            assert(c[4].len() != "protocol"@.len() || c[4][0] != "protocol"@[0]);
            assert(c[4] != "protocol"@);
            assert(c[4].len() != "referrer"@.len() || c[4][0] != "referrer"@[0]);
            assert(c[4] != "referrer"@);
        } else if k == 5 {
            assert(c[5] == "protocol"@);
            assert(c[5].len() != "bytes_sent"@.len() || c[5][0] != "bytes_sent"@[0]);
            assert(c[5] != "bytes_sent"@);
            assert(c[5].len() != "client_ip"@.len() || c[5][0] != "client_ip"@[0]);
            assert(c[5] != "client_ip"@);
            assert(c[5].len() != "job_id"@.len() || c[5][0] != "job_id"@[0]);
            assert(c[5] != "job_id"@);
            assert(c[5].len() != "line_number"@.len() || c[5][0] != "line_number"@[0]);
            assert(c[5] != "line_number"@);
            assert(c[5].len() != "method"@.len() || c[5][0] != "method"@[0]);
            assert(c[5] != "method"@);
        } else if k == 6 {
            assert(c[6] == "status"@);
            assert(c[6].len() != "bytes_sent"@.len() || c[6][0] != "bytes_sent"@[0]);
            assert(c[6] != "bytes_sent"@);
            assert(c[6].len() != "client_ip"@.len() || c[6][0] != "client_ip"@[0]);
            assert(c[6] != "client_ip"@);
            assert(c[6].len() != "job_id"@.len() || c[6][0] != "job_id"@[0]);
            assert(c[6] != "job_id"@);
            assert(c[6].len() != "line_number"@.len() || c[6][0] != "line_number"@[0]);
            assert(c[6] != "line_number"@);
            assert(c[6].len() != "method"@.len() || c[6][0] != "method"@[0]);
            assert(c[6] != "method"@);
            assert(c[6].len() != "protocol"@.len() || c[6][0] != "protocol"@[0]);
            assert(c[6] != "protocol"@);
            assert(c[6].len() != "referrer"@.len() || c[6][0] != "referrer"@[0]);
            assert(c[6] != "referrer"@);
            assert(c[6].len() != "request_target"@.len() || c[6][0] != "request_target"@[0]);
            assert(c[6] != "request_target"@);
            assert(c[6].len() != "source_id"@.len() || c[6][0] != "source_id"@[0]);
            assert(c[6] != "source_id"@);
        } else if k == 7 {
            assert(c[7] == "bytes_sent"@);
        } else if k == 8 {
            assert(c[8] == "referrer"@);
            assert(c[8].len() != "bytes_sent"@.len() || c[8][0] != "bytes_sent"@[0]);
            assert(c[8] != "bytes_sent"@);
            assert(c[8].len() != "client_ip"@.len() || c[8][0] != "client_ip"@[0]);
            assert(c[8] != "client_ip"@);
            assert(c[8].len() != "job_id"@.len() || c[8][0] != "job_id"@[0]);
            assert(c[8] != "job_id"@);
            assert(c[8].len() != "line_number"@.len() || c[8][0] != "line_number"@[0]);
            assert(c[8] != "line_number"@);
            assert(c[8].len() != "method"@.len() || c[8][0] != "method"@[0]);
            assert(c[8] != "method"@);
            assert(c[8].len() != "protocol"@.len() || c[8][0] != "protocol"@[0]);
            assert(c[8] != "protocol"@);
        } else if k == 9 {
            assert(c[9] == "user_agent"@);
            assert(c[9].len() != "bytes_sent"@.len() || c[9][0] != "bytes_sent"@[0]);
            assert(c[9] != "bytes_sent"@);
            assert(c[9].len() != "client_ip"@.len() || c[9][0] != "client_ip"@[0]);
            assert(c[9] != "client_ip"@);
            assert(c[9].len() != "job_id"@.len() || c[9][0] != "job_id"@[0]);
            assert(c[9] != "job_id"@);
            assert(c[9].len() != "line_number"@.len() || c[9][0] != "line_number"@[0]);
            assert(c[9] != "line_number"@);
            assert(c[9].len() != "method"@.len() || c[9][0] != "method"@[0]);
            assert(c[9] != "method"@);
            assert(c[9].len() != "protocol"@.len() || c[9][0] != "protocol"@[0]);
            assert(c[9] != "protocol"@);
            assert(c[9].len() != "referrer"@.len() || c[9][0] != "referrer"@[0]);
            assert(c[9] != "referrer"@);
            assert(c[9].len() != "request_target"@.len() || c[9][0] != "request_target"@[0]);
            assert(c[9] != "request_target"@);
            assert(c[9].len() != "source_id"@.len() || c[9][0] != "source_id"@[0]);
            assert(c[9] != "source_id"@);
            assert(c[9].len() != "status"@.len() || c[9][0] != "status"@[0]);
            assert(c[9] != "status"@);
            assert(c[9].len() != "timestamp_utc"@.len() || c[9][0] != "timestamp_utc"@[0]);
            assert(c[9] != "timestamp_utc"@);
            assert(c[9].len() != "tz_offset_seconds"@.len() || c[9][0] != "tz_offset_seconds"@[0]);
            assert(c[9] != "tz_offset_seconds"@);
        } else if k == 10 {
            assert(c[10] == "job_id"@);
            assert(c[10].len() != "bytes_sent"@.len() || c[10][0] != "bytes_sent"@[0]);
            assert(c[10] != "bytes_sent"@);
            assert(c[10].len() != "client_ip"@.len() || c[10][0] != "client_ip"@[0]);
            assert(c[10] != "client_ip"@);
        } else if k == 11 {
            assert(c[11] == "source_id"@);
            assert(c[11].len() != "bytes_sent"@.len() || c[11][0] != "bytes_sent"@[0]);
            assert(c[11] != "bytes_sent"@);
            assert(c[11].len() != "client_ip"@.len() || c[11][0] != "client_ip"@[0]);
            assert(c[11] != "client_ip"@);
            assert(c[11].len() != "job_id"@.len() || c[11][0] != "job_id"@[0]);
            assert(c[11] != "job_id"@);
            assert(c[11].len() != "line_number"@.len() || c[11][0] != "line_number"@[0]);
            assert(c[11] != "line_number"@);
            assert(c[11].len() != "method"@.len() || c[11][0] != "method"@[0]);
            assert(c[11] != "method"@);
            assert(c[11].len() != "protocol"@.len() || c[11][0] != "protocol"@[0]);
            assert(c[11] != "protocol"@);
            assert(c[11].len() != "referrer"@.len() || c[11][0] != "referrer"@[0]);
            assert(c[11] != "referrer"@);
            assert(c[11].len() != "request_target"@.len() || c[11][0] != "request_target"@[0]);
            assert(c[11] != "request_target"@);
        } else if k == 12 {
            assert(c[12] == "line_number"@);
            assert(c[12].len() != "bytes_sent"@.len() || c[12][0] != "bytes_sent"@[0]);
            assert(c[12] != "bytes_sent"@);
            assert(c[12].len() != "client_ip"@.len() || c[12][0] != "client_ip"@[0]);
            assert(c[12] != "client_ip"@);
            assert(c[12].len() != "job_id"@.len() || c[12][0] != "job_id"@[0]);
            assert(c[12] != "job_id"@);
        }
    }
}

/// A field holds nothing that needs quoting.
pub open spec fn plain_field(v: Seq<char>) -> bool {
    forall|i: int| 0 <= i < v.len() ==> !csv_special(#[trigger] v[i])
}

proof fn lemma_plain_joined(fs: Seq<Seq<char>>, n: int)
    requires
        0 <= n <= fs.len(),
        forall|k: int| 0 <= k < n ==> plain_field(#[trigger] fs[k]),
    ensures
        joined_fields(fs, n) == comma_joined(fs, n),
    decreases n,
{
    if n > 0 {
        lemma_plain_joined(fs, n - 1);
        assert(plain_field(fs[n - 1]));
        assert(csv_text(fs[n - 1]) == fs[n - 1]);
        if n == 1 {
            assert(joined_fields(fs, 1) =~= fs[0]);
        } else {
            reveal_strlit(",");
            assert(joined_fields(fs, n) =~= comma_joined(fs, n));
        }
    }
}

/// A CSV line whose values need no quoting is the row's values under the header's
/// columns, in the header's order, joined by commas, and a line break.
pub proof fn lemma_plain_csv_line(row: ExportRow)
    requires
        forall|k: int| 0 <= k < 13 ==> plain_field(#[trigger] column_value(row, csv_columns()[k])),
    ensures
        csv_line_text(row, false) == comma_joined(
            Seq::new(13, |k: int| column_value(row, csv_columns()[k])),
            13,
        ) + "\n"@,
{
    lemma_csv_fields_follow_header(row);
    let vals = Seq::new(13, |k: int| column_value(row, csv_columns()[k]));
    let fs = csv_fields(row);
    assert(fs =~= vals);
    assert forall|k: int| 0 <= k < 13 implies plain_field(#[trigger] fs[k]) by {
        assert(fs[k] == column_value(row, csv_columns()[k]));
    }
    lemma_plain_joined(fs, 13);
    reveal_strlit("\n");
    assert(csv_line_text(row, false) =~= joined_fields(fs, 13) + "\n"@);
}

} // verus!
