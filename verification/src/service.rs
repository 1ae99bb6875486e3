//! The decisions of the application service: its settings, its errors, case files and
//! their order, profile resolution, when running work blocks a request, and the limits
//! of samples, previews and batches.

use vstd::prelude::*;

use crate::ext::{duration_from_millis, millis_duration, str_chars};
use crate::dto::{CaseInfo, ProfileSpec, SampleLine};
use crate::error::{error_text, EngineError};
use crate::importer::ImportConfig;
use crate::model::{same_profile, FormatProfile};
use crate::presets::{by_name, is_named_preset, is_preset_name};
use crate::reader::{LineContent, RawLine};
use crate::store::StoreConfig;
use crate::text::{
    chars_contain, chars_less, chars_slice, chars_to_string, contains, decimal, is_ascii_alnum, lemma_text_less_asymmetric,
    lemma_text_less_total, lemma_text_less_transitive, push_decimal, push_signed_decimal, push_str, signed_decimal, text_less,
    trim_chars, trimmed,
};
use crate::validate::{first_issue_text, profile_issues};

verus! {

/// Service settings.
#[derive(Debug, Clone)]
pub struct ServiceConfig {
    /// Store settings.
    pub store: StoreConfig,
    /// Default import settings.
    pub import: ImportConfig,
    /// Number of read connections.
    pub readers: usize,
    /// Least time between progress events.
    pub progress_interval: std::time::Duration,
    /// User preset directory; without one saving is off.
    pub profiles_dir: Option<std::path::PathBuf>,
    /// Directory where cases (project stores) are made; without one `create_case` is refused.
    pub cases_dir: Option<std::path::PathBuf>,
}

/// DuckDB threads by default: half the cores, at least two (two again where that does not
/// fit a `u32`).
pub open spec fn default_thread_count(cores: nat) -> int {
    let half = if cores / 2 < 2 { 2 } else { cores / 2 };
    if half <= u32::MAX { half as int } else { 2 }
}

/// The default DuckDB threads for a machine with `cores` cores.
pub fn default_threads(cores: usize) -> (r: u32)
    ensures
        r == default_thread_count(cores as nat),
{
    let half: usize = if cores / 2 < 2 { 2 } else { cores / 2 };
    if half as u128 <= u32::MAX as u128 {
        half as u32
    } else {
        2
    }
}

/// Milliseconds between progress events by default.
pub const PROGRESS_INTERVAL_MS: u64 = 250;

/// The default service settings on a machine with `cores` cores: a 1GB store memory limit,
/// the default threads, the default import settings, two readers, progress at most every
/// [`PROGRESS_INTERVAL_MS`] milliseconds, and no preset or case folder.
pub fn default_service_config(cores: usize) -> (r: ServiceConfig)
    ensures
        r.store.memory_limit matches Some(m) && m@ == "1GB"@,
        r.store.threads == Some(default_thread_count(cores as nat) as u32),
        r.store.temp_directory is None,
        r.store.max_temp_directory_size is None,
        r.import.batch_max_rows == 100_000,
        r.import.batch_max_bytes == 48 * 1024 * 1024,
        r.import.max_line_bytes == 64 * 1024,
        r.import.max_errors_per_batch == 100_000,
        !r.import.full_verify_on_resume,
        r.readers == 2,
        r.progress_interval == millis_duration(PROGRESS_INTERVAL_MS),
        r.profiles_dir is None,
        r.cases_dir is None,
{
    ServiceConfig {
        store: StoreConfig {
            memory_limit: Some("1GB".to_owned()),
            threads: Some(default_threads(cores)),
            temp_directory: None,
            max_temp_directory_size: None,
        },
        import: ImportConfig::default(),
        readers: 2,
        progress_interval: duration_from_millis(PROGRESS_INTERVAL_MS),
        profiles_dir: None,
        cases_dir: None,
    }
}

/// A character kept in a case name.
pub open spec fn kept(c: char) -> bool {
    is_ascii_alnum(c) || c == '-' || c == '.'
}

/// The characters of `s` with every run of other characters made one `_`.
pub open spec fn squashed(s: Seq<char>) -> Seq<char>
    decreases s.len(),
{
    if s.len() == 0 {
        seq![]
    } else {
        let p = squashed(s.drop_last());
        if kept(s.last()) {
            p.push(s.last())
        } else if p.len() > 0 && p.last() == '_' {
            p
        } else {
            p.push('_')
        }
    }
}

/// `.` or `_`, trimmed from both ends of a case name.
pub open spec fn edge(c: char) -> bool {
    c == '.' || c == '_'
}

/// `s` without leading `.` and `_`.
pub open spec fn strip_front(s: Seq<char>) -> Seq<char>
    decreases s.len(),
{
    if s.len() > 0 && edge(s[0]) { strip_front(s.drop_first()) } else { s }
}

/// `s` without trailing `.` and `_`.
pub open spec fn strip_back(s: Seq<char>) -> Seq<char>
    decreases s.len(),
{
    if s.len() > 0 && edge(s.last()) { strip_back(s.drop_last()) } else { s }
}

/// The case name made from a hint: trimmed, ASCII letters, digits, `-` and `.` kept,
/// other runs made one `_`, `.` and `_` trimmed from the ends, at most 40 characters;
/// `case` when nothing is left.
pub open spec fn case_name(hint: Seq<char>) -> Seq<char> {
    let t = strip_front(strip_back(squashed(trimmed(hint))));
    if t.len() == 0 {
        "case"@
    } else if t.len() <= 40 {
        t
    } else {
        t.subrange(0, 40)
    }
}

/// Makes a name usable as a file name from a folder name or the like.
pub fn sanitize_case_name(hint: &str) -> (r: String)
    ensures
        r@ == case_name(hint@),
{
    let c = str_chars(hint);
    let t = trim_chars(&c);
    let mut out: Vec<char> = Vec::new();
    let mut i: usize = 0;
    while i < t.len()
        invariant
            i <= t.len(),
            out@ == squashed(t@.subrange(0, i as int)),
        decreases t.len() - i,
    {
        let ch = t[i];
        proof {
            let s = t@.subrange(0, i + 1);
            assert(s.drop_last() =~= t@.subrange(0, i as int));
            assert(s.last() == ch);
        }
        let keep = ('a' <= ch && ch <= 'z') || ('A' <= ch && ch <= 'Z') || ('0' <= ch && ch <= '9') || ch == '-' || ch == '.';
        if keep {
            out.push(ch);
        } else if !(out.len() > 0 && out[out.len() - 1] == '_') {
            out.push('_');
        }
        i = i + 1;
    }
    assert(t@.subrange(0, t.len() as int) =~= t@);
    let mut end: usize = out.len();
    assert(out@.subrange(0, end as int) =~= out@);
    while end > 0 && (out[end - 1] == '.' || out[end - 1] == '_')
        invariant
            end <= out.len(),
            strip_back(out@) == strip_back(out@.subrange(0, end as int)),
        decreases end,
    {
        proof {
            let s = out@.subrange(0, end as int);
            assert(s.drop_last() =~= out@.subrange(0, end - 1));
        }
        end = end - 1;
    }
    proof {
        let s = out@.subrange(0, end as int);
        if end > 0 {
            assert(s.last() == out@[end - 1]);
        }
        assert(strip_back(s) == s);
    }
    let b = chars_slice(&out, 0, end);
    let mut start: usize = 0;
    assert(b@.subrange(0, b.len() as int) =~= b@);
    while start < b.len() && (b[start] == '.' || b[start] == '_')
        invariant
            start <= b.len(),
            strip_front(b@) == strip_front(b@.subrange(start as int, b.len() as int)),
        decreases b.len() - start,
    {
        proof {
            let s = b@.subrange(start as int, b.len() as int);
            assert(s.drop_first() =~= b@.subrange(start + 1, b.len() as int));
        }
        start = start + 1;
    }
    proof {
        let s = b@.subrange(start as int, b.len() as int);
        if start < b.len() {
            assert(s[0] == b@[start as int]);
        }
        assert(strip_front(s) == s);
    }
    let f = chars_slice(&b, start, b.len());
    if f.len() == 0 {
        return "case".to_owned();
    }
    if f.len() <= 40 {
        chars_to_string(&f)
    } else {
        let cut = chars_slice(&f, 0, 40);
        chars_to_string(&cut)
    }
}

/// A case name is never empty and never longer than 40 characters.
pub proof fn lemma_case_name_shape(hint: Seq<char>)
    ensures
        0 < case_name(hint).len() <= 40,
{
    reveal_strlit("case");
}

/// The most lines a raw sample shows.
pub const SAMPLE_MAX_LINES: u64 = 20;

/// The most bytes a raw sample reads.
pub const SAMPLE_MAX_BYTES: u64 = 256 * 1024;

/// The number of sample lines asked for, kept between one and the maximum.
pub fn sample_line_cap(requested: u64) -> (r: u64)
    ensures
        r == (if requested < 1 { 1 } else if requested > SAMPLE_MAX_LINES { SAMPLE_MAX_LINES } else { requested }),
{
    if requested < 1 {
        1
    } else if requested > SAMPLE_MAX_LINES {
        SAMPLE_MAX_LINES
    } else {
        requested
    }
}

/// Whether a raw sample stops before another line: enough lines, or enough bytes.
pub fn sample_limit_reached(lines_read: u64, offset: u64, cap: u64) -> (r: bool)
    ensures
        r == (lines_read >= cap || offset >= SAMPLE_MAX_BYTES),
{
    lines_read >= cap || offset >= SAMPLE_MAX_BYTES
}

/// A sample line: its text when it is UTF-8 within the length limit, nothing otherwise.
pub fn sample_line(line: RawLine) -> (r: SampleLine)
    ensures
        r.line_number == line.line_number,
        match line.content {
            LineContent::Text(t) => r.text == Some(t),
            _ => r.text is None,
        },
{
    let RawLine { line_number, start_offset: _, next_offset: _, content } = line;
    let text = match content {
        LineContent::Text(t) => Some(t),
        _ => None,
    };
    SampleLine { line_number, text }
}

/// Errors of the service layer.
#[derive(Debug)]
pub enum ServiceError {
    /// An engine error.
    Engine(EngineError),
    /// No project is open.
    NoProject,
    /// An import is running, so writing is refused.
    ImportRunning {
        /// The running job.
        job_id: i64,
    },
    /// No import is running.
    NoImport,
    /// The request is invalid.
    Invalid(String),
}

/// The display text of a service error.
pub open spec fn service_error_text(e: ServiceError) -> Seq<char> {
    match e {
        ServiceError::Engine(x) => error_text(x),
        ServiceError::NoProject => "열린 프로젝트가 없음"@,
        ServiceError::ImportRunning { job_id } => "가져오기가 진행 중(작업 "@ + signed_decimal(job_id as int)
            + ")이라 지금은 할 수 없음"@,
        ServiceError::NoImport => "진행 중인 가져오기가 없음"@,
        ServiceError::Invalid(m) => "잘못된 요청: "@ + m@,
    }
}

impl ServiceError {
    /// The display text of this error.
    pub fn message(&self) -> (r: String)
        ensures
            r@ == service_error_text(*self),
    {
        match self {
            ServiceError::Engine(e) => e.message(),
            ServiceError::NoProject => "열린 프로젝트가 없음".to_owned(),
            ServiceError::ImportRunning { job_id } => {
                let mut v: Vec<char> = Vec::new();
                push_str(&mut v, "가져오기가 진행 중(작업 ");
                push_signed_decimal(&mut v, *job_id);
                push_str(&mut v, ")이라 지금은 할 수 없음");
                chars_to_string(&v)
            },
            ServiceError::NoImport => "진행 중인 가져오기가 없음".to_owned(),
            ServiceError::Invalid(m) => {
                let mut v: Vec<char> = Vec::new();
                push_str(&mut v, "잘못된 요청: ");
                push_str(&mut v, m.as_str());
                chars_to_string(&v)
            },
        }
    }
}

/// Whether a running import may be cleared: no import gives `Ok(false)`, a finished one
/// `Ok(true)` (its record is to be dropped), a running one the `ImportRunning` error.
pub fn import_gate(run: Option<(bool, i64)>) -> (r: Result<bool, ServiceError>)
    ensures
        match run {
            None => r matches Ok(false),
            Some((true, _)) => r matches Ok(true),
            Some((false, id)) => r matches Err(ServiceError::ImportRunning { job_id }) && job_id == id,
        },
{
    match run {
        None => Ok(false),
        Some((true, _)) => Ok(true),
        Some((false, id)) => Err(ServiceError::ImportRunning { job_id: id }),
    }
}

/// Whether a running export may be cleared: no export gives `Ok(false)`, a finished one
/// `Ok(true)`, a running one an `Invalid` error.
pub fn export_gate(run: Option<bool>) -> (r: Result<bool, ServiceError>)
    ensures
        match run {
            None => r matches Ok(false),
            Some(true) => r matches Ok(true),
            Some(false) => r matches Err(ServiceError::Invalid(m)) && m@ == "내보내기가 이미 진행 중"@,
        },
{
    match run {
        None => Ok(false),
        Some(true) => Ok(true),
        Some(false) => Err(ServiceError::Invalid("내보내기가 이미 진행 중".to_owned())),
    }
}

/// The error when the writing store is held: the running import's job, or 0 when none
/// is recorded.
pub fn store_busy_error(running_job: Option<i64>) -> (r: ServiceError)
    ensures
        r matches ServiceError::ImportRunning { job_id } && job_id == (match running_job {
            Some(id) => id,
            None => 0,
        }),
{
    match running_job {
        Some(id) => ServiceError::ImportRunning { job_id: id },
        None => ServiceError::ImportRunning { job_id: 0 },
    }
}

/// An import needs at least one file.
pub fn require_paths(count: usize) -> (r: Result<(), ServiceError>)
    ensures
        count > 0 ==> r is Ok,
        count == 0 ==> (r matches Err(ServiceError::Invalid(m)) && m@ == "파일이 선택되지 않음"@),
{
    if count == 0 {
        Err(ServiceError::Invalid("파일이 선택되지 않음".to_owned()))
    } else {
        Ok(())
    }
}

/// `v` kept between `lo` and `hi`.
pub open spec fn clamped(v: int, lo: int, hi: int) -> int {
    if v < lo {
        lo
    } else if v > hi {
        hi
    } else {
        v
    }
}

/// Least and most batch lines a request may ask for.
pub const BATCH_ROWS_MIN: usize = 1_000;
/// See [`BATCH_ROWS_MIN`].
pub const BATCH_ROWS_MAX: usize = 1_000_000;
/// Least and most batch bytes a request may ask for (1 MiB to 1 GiB).
pub const BATCH_BYTES_MIN: usize = 1_048_576;
/// See [`BATCH_BYTES_MIN`].
pub const BATCH_BYTES_MAX: usize = 1_073_741_824;

/// The import settings for a request: the service's defaults, with the batch limits the
/// request names kept within their ranges.
pub fn import_overrides(base: ImportConfig, batch_max_rows: Option<usize>, batch_max_bytes: Option<usize>) -> (r: ImportConfig)
    ensures
        r.batch_max_rows == (match batch_max_rows {
            Some(n) => clamped(n as int, BATCH_ROWS_MIN as int, BATCH_ROWS_MAX as int),
            None => base.batch_max_rows as int,
        }),
        r.batch_max_bytes == (match batch_max_bytes {
            Some(n) => clamped(n as int, BATCH_BYTES_MIN as int, BATCH_BYTES_MAX as int),
            None => base.batch_max_bytes as int,
        }),
        r.max_line_bytes == base.max_line_bytes,
        r.max_errors_per_batch == base.max_errors_per_batch,
        r.full_verify_on_resume == base.full_verify_on_resume,
{
    let mut cfg = base;
    if let Some(n) = batch_max_rows {
        cfg.batch_max_rows = if n < BATCH_ROWS_MIN {
            BATCH_ROWS_MIN
        } else if n > BATCH_ROWS_MAX {
            BATCH_ROWS_MAX
        } else {
            n
        };
    }
    if let Some(n) = batch_max_bytes {
        cfg.batch_max_bytes = if n < BATCH_BYTES_MIN {
            BATCH_BYTES_MIN
        } else if n > BATCH_BYTES_MAX {
            BATCH_BYTES_MAX
        } else {
            n
        };
    }
    cfg
}

/// Most lines a preview or a detection reads.
pub const PREVIEW_MAX_LINES: u64 = 2000;

/// The lines a preview asks for, kept between one and [`PREVIEW_MAX_LINES`].
pub fn preview_line_cap(requested: u64) -> (r: u64)
    ensures
        r == clamped(requested as int, 1, PREVIEW_MAX_LINES as int),
{
    if requested < 1 {
        1
    } else if requested > PREVIEW_MAX_LINES {
        PREVIEW_MAX_LINES
    } else {
        requested
    }
}

/// The text of a case file's name: `<stem>-<stamp>.duckdb`, and from the second attempt on
/// `<stem>-<stamp>-<attempt>.duckdb`.
pub open spec fn case_file_text(stem: Seq<char>, stamp: Seq<char>, attempt: nat) -> Seq<char> {
    if attempt < 2 {
        stem + "-"@ + stamp + ".duckdb"@
    } else {
        stem + "-"@ + stamp + "-"@ + decimal(attempt) + ".duckdb"@
    }
}

/// The file name of a new case; `attempt` counts the names tried so far, from 1.
pub fn case_file_name(stem: &str, stamp: &str, attempt: u64) -> (r: String)
    ensures
        r@ == case_file_text(stem@, stamp@, attempt as nat),
{
    let mut v: Vec<char> = Vec::new();
    push_str(&mut v, stem);
    push_str(&mut v, "-");
    push_str(&mut v, stamp);
    if attempt >= 2 {
        push_str(&mut v, "-");
        push_decimal(&mut v, attempt);
    }
    push_str(&mut v, ".duckdb");
    chars_to_string(&v)
}

/// A file extension is that of a case store.
pub open spec fn case_extension(ext: Option<&str>) -> bool {
    ext matches Some(e) && e@ == "duckdb"@
}

/// Whether a file extension is that of a case store.
pub fn is_case_extension(ext: Option<&str>) -> (r: bool)
    ensures
        r == case_extension(ext),
{
    match ext {
        Some(e) => {
            let c = str_chars(e);
            let d = str_chars("duckdb");
            crate::text::chars_eq(&c, &d)
        },
        None => false,
    }
}

/// Only a `.duckdb` file directly in the case folder may be deleted.
pub fn check_case_deletion(in_case_folder: bool, ext: Option<&str>) -> (r: Result<(), ServiceError>)
    ensures
        (in_case_folder && case_extension(ext)) ==> r is Ok,
        !(in_case_folder && case_extension(ext)) ==> (r matches Err(ServiceError::Invalid(m))
            && m@ == "케이스 디렉터리 안의 .duckdb 파일만 지울 수 있음"@),
{
    if in_case_folder && is_case_extension(ext) {
        Ok(())
    } else {
        Err(ServiceError::Invalid("케이스 디렉터리 안의 .duckdb 파일만 지울 수 있음".to_owned()))
    }
}

/// `a` was modified later than `b`; a known time is later than an unknown one.
pub open spec fn newer(a: Option<i64>, b: Option<i64>) -> bool {
    match (a, b) {
        (Some(x), Some(y)) => x > y,
        (Some(_), None) => true,
        _ => false,
    }
}

/// The order of the case list: latest modification first, then by name.
pub open spec fn case_before(a: CaseInfo, b: CaseInfo) -> bool {
    newer(a.modified_unix, b.modified_unix) || (a.modified_unix == b.modified_unix && text_less(a.name@, b.name@))
}

/// A case list in order: no case comes before one listed earlier.
pub open spec fn cases_in_order(s: Seq<CaseInfo>) -> bool {
    forall|i: int, j: int| 0 <= i < j < s.len() ==> !case_before(#[trigger] s[j], #[trigger] s[i])
}

/// The case order is asymmetric, and a case before `y` is before every case not before `y`.
pub proof fn lemma_case_order(x: CaseInfo, y: CaseInfo, z: CaseInfo)
    ensures
        case_before(x, y) ==> !case_before(y, x),
        case_before(x, y) && !case_before(z, y) ==> case_before(x, z),
{
    lemma_text_less_asymmetric(x.name@, y.name@);
    if case_before(x, y) && !case_before(z, y) {
        if !newer(x.modified_unix, z.modified_unix) {
            assert(x.modified_unix == y.modified_unix && y.modified_unix == z.modified_unix);
            if y.name@ != z.name@ {
                lemma_text_less_total(y.name@, z.name@);
                lemma_text_less_transitive(x.name@, y.name@, z.name@);
            }
        }
    }
}

/// Whether case `a` comes before case `b` in the list.
pub fn case_precedes(a: &CaseInfo, b: &CaseInfo) -> (r: bool)
    ensures
        r == case_before(*a, *b),
{
    match (a.modified_unix, b.modified_unix) {
        (Some(x), Some(y)) => {
            if x != y {
                return x > y;
            }
        },
        (Some(_), None) => {
            return true;
        },
        (None, Some(_)) => {
            return false;
        },
        (None, None) => {},
    }
    let an = str_chars(a.name.as_str());
    let bn = str_chars(b.name.as_str());
    chars_less(&an, &bn)
}

/// The case list in order: latest modification first (unknown times last), then by name.
pub fn sort_cases(cases: Vec<CaseInfo>) -> (r: Vec<CaseInfo>)
    ensures
        r@.to_multiset() == cases@.to_multiset(),
        cases_in_order(r@),
{
    broadcast use vstd::seq_lib::group_to_multiset_ensures, vstd::multiset::group_multiset_axioms;
    let mut rest = cases;
    let mut out: Vec<CaseInfo> = Vec::new();
    assert(out@.to_multiset().len() == 0);
    assert(out@.to_multiset().add(rest@.to_multiset()) =~= cases@.to_multiset());
    while rest.len() > 0
        invariant
            out@.to_multiset().add(rest@.to_multiset()) == cases@.to_multiset(),
            cases_in_order(out@),
        decreases rest.len(),
    {
        let ghost before_rest = rest@;
        let x = rest.remove(0);
        assert(before_rest.contains(x)) by {
            assert(before_rest[0] == x);
        }
        let mut p: usize = 0;
        while p < out.len() && !case_precedes(&x, &out[p])
            invariant
                p <= out.len(),
                forall|k: int| 0 <= k < p ==> !case_before(x, #[trigger] out@[k]),
            decreases out.len() - p,
        {
            p = p + 1;
        }
        let ghost old_out = out@;
        assert(p < old_out.len() ==> case_before(x, old_out[p as int]));
        out.insert(p, x);
        proof {
            assert forall|i: int, j: int| 0 <= i < j < out@.len() implies !case_before(#[trigger] out@[j], #[trigger] out@[i]) by {
                if j < p {
                    assert(out@[i] == old_out[i] && out@[j] == old_out[j]);
                    assert(!case_before(old_out[j], old_out[i]));
                } else if j == p {
                    assert(out@[j] == x && out@[i] == old_out[i]);
                } else if i == p {
                    let y = old_out[p as int];
                    let z = old_out[j - 1];
                    assert(out@[j] == z);
                    if j - 1 > p {
                        assert(!case_before(old_out[j - 1], old_out[p as int]));
                    } else {
                        lemma_case_order(z, z, z);
                    }
                    lemma_case_order(x, y, z);
                    lemma_case_order(x, z, z);
                } else if i < p {
                    assert(out@[i] == old_out[i] && out@[j] == old_out[j - 1]);
                    assert(!case_before(old_out[j - 1], old_out[i]));
                } else {
                    assert(out@[i] == old_out[i - 1] && out@[j] == old_out[j - 1]);
                    assert(!case_before(old_out[j - 1], old_out[i - 1]));
                }
            }
            vstd::seq_lib::to_multiset_insert(old_out, p as int, x);
            vstd::seq_lib::to_multiset_remove(before_rest, 0);
            assert(out@ == old_out.insert(p as int, x));
            assert(rest@ == before_rest.remove(0));
            before_rest.to_multiset_ensures();
            assert(before_rest.contains(x));
            assert(before_rest.to_multiset().count(x) > 0);
            assert(old_out.to_multiset().add(before_rest.to_multiset()) == cases@.to_multiset());
            assert forall|v: CaseInfo| #[trigger] out@.to_multiset().add(rest@.to_multiset()).count(v)
                == cases@.to_multiset().count(v) by {
                if v == x {
                } else {
                }
            }
            assert(out@.to_multiset().add(rest@.to_multiset()) =~= cases@.to_multiset());
        }
    }
    assert(rest@.to_multiset().len() == 0);
    assert(out@.to_multiset() =~= cases@.to_multiset());
    out
}

/// What a profile request asks for next: a profile is ready, a user preset is to be
/// loaded, or the request fails.
pub enum ProfileStep {
    /// The profile.
    Ready(FormatProfile),
    /// Load the user preset of this name.
    LoadUser(String),
    /// The request fails.
    Failed(ServiceError),
}

/// The message for a profile name found nowhere.
pub open spec fn unknown_profile_text(name: Seq<char>) -> Seq<char> {
    "알 수 없는 프로필 "@ + name
}

/// An `Invalid` error naming an unknown profile.
fn unknown_profile(name: &str) -> (r: ServiceError)
    ensures
        r matches ServiceError::Invalid(m) && m@ == unknown_profile_text(name@),
{
    let mut v: Vec<char> = Vec::new();
    push_str(&mut v, "알 수 없는 프로필 ");
    push_str(&mut v, name);
    ServiceError::Invalid(chars_to_string(&v))
}

/// The first step of resolving a profile request. A name is looked up among the built-in
/// presets first, then (where there is a user preset folder) among the user presets; a
/// full definition is validated.
pub fn resolve_profile_step(spec: &ProfileSpec, has_library: bool) -> (r: ProfileStep)
    ensures
        match spec {
            ProfileSpec::Preset { name } => if is_preset_name(name@) {
                r matches ProfileStep::Ready(p) && is_named_preset(name@, p)
            } else if has_library {
                r matches ProfileStep::LoadUser(n) && n@ == name@
            } else {
                r matches ProfileStep::Failed(ServiceError::Invalid(m)) && m@ == unknown_profile_text(name@)
            },
            ProfileSpec::Definition { profile } => if profile_issues(*profile).len() == 0 {
                r matches ProfileStep::Ready(p) && same_profile(*profile, p)
            } else {
                r matches ProfileStep::Failed(ServiceError::Engine(EngineError::Format(m)))
                    && m@ == first_issue_text(profile_issues(*profile))
            },
        },
{
    match spec {
        ProfileSpec::Preset { name } => {
            match by_name(name.as_str()) {
                Some(p) => ProfileStep::Ready(p),
                None => {
                    if has_library {
                        ProfileStep::LoadUser(name.as_str().to_owned())
                    } else {
                        ProfileStep::Failed(unknown_profile(name.as_str()))
                    }
                },
            }
        },
        ProfileSpec::Definition { profile } => {
            match profile.ensure_valid() {
                Ok(()) => ProfileStep::Ready(profile.clone()),
                Err(e) => ProfileStep::Failed(ServiceError::Engine(e)),
            }
        },
    }
}

/// The end of resolving a profile name after the user presets were searched.
pub fn resolve_loaded_profile(name: &str, loaded: Result<Option<FormatProfile>, EngineError>) -> (r: Result<FormatProfile, ServiceError>)
    ensures
        match loaded {
            Ok(Some(p)) => r == Ok::<FormatProfile, ServiceError>(p),
            Ok(None) => r matches Err(ServiceError::Invalid(m)) && m@ == unknown_profile_text(name@),
            Err(e) => r matches Err(ServiceError::Engine(x)) && x == e,
        },
{
    match loaded {
        Ok(Some(p)) => Ok(p),
        Ok(None) => Err(unknown_profile(name)),
        Err(e) => Err(ServiceError::Engine(e)),
    }
}

/// A heavy query stopped on request reports that it was stopped; other errors pass as
/// they are.
pub fn heavy_query_error(e: ServiceError) -> (r: ServiceError)
    ensures
        match e {
            ServiceError::Engine(EngineError::Store(m)) => if contains(m@, "INTERRUPT"@) {
                r matches ServiceError::Invalid(t) && t@ == "조회를 중단했습니다"@
            } else {
                r == e
            },
            _ => r == e,
        },
{
    let stopped = match &e {
        ServiceError::Engine(EngineError::Store(m)) => {
            let c = str_chars(m.as_str());
            chars_contain(&c, "INTERRUPT")
        },
        _ => false,
    };
    if stopped {
        ServiceError::Invalid("조회를 중단했습니다".to_owned())
    } else {
        e
    }
}

/// The job to report when a new import ends with `failure` before any progress report:
/// the job this run created, known as a newest job in the store (`after`) that was not
/// there before the run (`before`); when the run created none, the failure as an
/// `Invalid` error.
pub fn job_after_early_failure(failure: &EngineError, before: Option<i64>, after: Result<Option<i64>, EngineError>) -> (r: Result<i64, ServiceError>)
    ensures
        match after {
            Ok(Some(id)) => if before != Some(id) {
                r == Ok::<i64, ServiceError>(id)
            } else {
                r matches Err(ServiceError::Invalid(m)) && m@ == error_text(*failure)
            },
            _ => r matches Err(ServiceError::Invalid(m)) && m@ == error_text(*failure),
        },
{
    match after {
        Ok(Some(id)) => {
            let existed = match before {
                Some(b) => b == id,
                None => false,
            };
            if existed {
                Err(ServiceError::Invalid(failure.message()))
            } else {
                Ok(id)
            }
        },
        _ => Err(ServiceError::Invalid(failure.message())),
    }
}

/// Whether a progress event is due: none was sent yet, or at least `interval` has passed
/// since the last (both in nanoseconds).
pub fn progress_due(since_last: Option<u128>, interval: u128) -> (r: bool)
    ensures
        r == (match since_last {
            None => true,
            Some(t) => t >= interval,
        }),
{
    match since_last {
        None => true,
        Some(t) => t >= interval,
    }
}

} // verus!
