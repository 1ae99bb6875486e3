//! Store records and the rules the store applies before it touches the database: job
//! states and their stored texts, which jobs may be activated or deleted, and which
//! setting values may reach a `SET` statement.

use vstd::prelude::*;

use crate::error::EngineError;
use crate::ext::str_chars;
use crate::reader::{mismatch_text, SourceIdentity};
use crate::record::opt_view;
use crate::text::{chars_to_string, is_ascii_alnum, push_signed_decimal, push_str, signed_decimal, str_eq};

verus! {

/// Store settings. DuckDB's memory limit is not a limit on the whole process.
#[derive(Debug, Clone, Default)]
pub struct StoreConfig {
    /// DuckDB `memory_limit` (for example `4GB`).
    pub memory_limit: Option<String>,
    /// DuckDB threads.
    pub threads: Option<u32>,
    /// Temporary directory for queries.
    pub temp_directory: Option<std::path::PathBuf>,
    /// Largest size of the temporary directory (for example `20GB`).
    pub max_temp_directory_size: Option<String>,
}

/// Job state.
#[derive(Debug, Clone, Copy, PartialEq, Eq)]
pub enum JobStatus {
    /// Waiting.
    Queued,
    /// Running.
    Running,
    /// Finished without errors.
    Completed,
    /// Finished with parse errors.
    CompletedWithErrors,
    /// Asked to cancel; stops after the current batch.
    Cancelling,
    /// Cancelled (committed batches kept).
    Cancelled,
    /// Failed (committed batches kept).
    Failed,
    /// Stopped abnormally, waiting for recovery.
    Interrupted,
}

/// The stored text of each job state.
pub open spec fn job_status_text(s: JobStatus) -> Seq<char> {
    match s {
        JobStatus::Queued => "queued"@,
        JobStatus::Running => "running"@,
        JobStatus::Completed => "completed"@,
        JobStatus::CompletedWithErrors => "completed_with_errors"@,
        JobStatus::Cancelling => "cancelling"@,
        JobStatus::Cancelled => "cancelled"@,
        JobStatus::Failed => "failed"@,
        JobStatus::Interrupted => "interrupted"@,
    }
}

/// The job state a stored text names, if any.
pub open spec fn job_status_of(t: Seq<char>) -> Option<JobStatus> {
    if t == "queued"@ {
        Some(JobStatus::Queued)
    } else if t == "running"@ {
        Some(JobStatus::Running)
    } else if t == "completed"@ {
        Some(JobStatus::Completed)
    } else if t == "completed_with_errors"@ {
        Some(JobStatus::CompletedWithErrors)
    } else if t == "cancelling"@ {
        Some(JobStatus::Cancelling)
    } else if t == "cancelled"@ {
        Some(JobStatus::Cancelled)
    } else if t == "failed"@ {
        Some(JobStatus::Failed)
    } else if t == "interrupted"@ {
        Some(JobStatus::Interrupted)
    } else {
        None
    }
}

impl JobStatus {
    /// The stored text.
    pub fn as_str(self) -> (r: &'static str)
        ensures
            r@ == job_status_text(self),
    {
        match self {
            JobStatus::Queued => "queued",
            JobStatus::Running => "running",
            JobStatus::Completed => "completed",
            JobStatus::CompletedWithErrors => "completed_with_errors",
            JobStatus::Cancelling => "cancelling",
            JobStatus::Cancelled => "cancelled",
            JobStatus::Failed => "failed",
            JobStatus::Interrupted => "interrupted",
        }
    }

    /// The state a stored text names.
    pub fn parse(s: &str) -> (r: Option<JobStatus>)
        ensures
            r == job_status_of(s@),
    {
        if str_eq(s, "queued") {
            Some(JobStatus::Queued)
        } else if str_eq(s, "running") {
            Some(JobStatus::Running)
        } else if str_eq(s, "completed") {
            Some(JobStatus::Completed)
        } else if str_eq(s, "completed_with_errors") {
            Some(JobStatus::CompletedWithErrors)
        } else if str_eq(s, "cancelling") {
            Some(JobStatus::Cancelling)
        } else if str_eq(s, "cancelled") {
            Some(JobStatus::Cancelled)
        } else if str_eq(s, "failed") {
            Some(JobStatus::Failed)
        } else if str_eq(s, "interrupted") {
            Some(JobStatus::Interrupted)
        } else {
            None
        }
    }

    /// Whether a job in this state may be resumed: only the stopped states that keep
    /// their committed batches.
    pub fn is_resumable(self) -> (r: bool)
        ensures
            r == (self == JobStatus::Interrupted || self == JobStatus::Cancelled || self == JobStatus::Failed),
    {
        match self {
            JobStatus::Interrupted | JobStatus::Cancelled | JobStatus::Failed => true,
            _ => false,
        }
    }
}

/// Two texts that differ at one position differ.
proof fn lemma_differ_at(a: Seq<char>, b: Seq<char>, i: int)
    requires
        0 <= i < a.len(),
        0 <= i < b.len(),
        a[i] != b[i],
    ensures
        a != b,
{
}

/// Reading the stored text of a state gives the state back.
pub proof fn lemma_job_status_round_trip(s: JobStatus)
    ensures
        job_status_of(job_status_text(s)) == Some(s),
{
    reveal_strlit("queued");
    reveal_strlit("running");
    reveal_strlit("completed");
    reveal_strlit("completed_with_errors");
    reveal_strlit("cancelling");
    reveal_strlit("cancelled");
    reveal_strlit("failed");
    reveal_strlit("interrupted");
    let q = "queued"@;
    let r = "running"@;
    let c = "completed"@;
    let w = "completed_with_errors"@;
    let g = "cancelling"@;
    let d = "cancelled"@;
    let f = "failed"@;
    let n = "interrupted"@;
    let all = seq![q, r, c, w, g, d, f, n];
    assert forall|x: int, y: int| 0 <= x < y < 8 implies (#[trigger] all[x]) != (#[trigger] all[y]) by {
        if all[x][0] != all[y][0] {
            lemma_differ_at(all[x], all[y], 0);
        } else if all[x][1] != all[y][1] {
            lemma_differ_at(all[x], all[y], 1);
        } else if all[x].len() != all[y].len() {
        } else {
            lemma_differ_at(all[x], all[y], 7);
        }
    }
    assert(all[0] == q && all[1] == r && all[2] == c && all[3] == w);
    assert(all[4] == g && all[5] == d && all[6] == f && all[7] == n);
}

/// Each accepted text is the stored text of the state it names.
pub proof fn lemma_job_status_text_unique(t: Seq<char>)
    requires
        job_status_of(t) is Some,
    ensures
        job_status_text(job_status_of(t)->Some_0) == t,
{
}

/// Log kind. Access and error logs have different columns and are viewed apart.
#[derive(Debug, Clone, Copy, PartialEq, Eq, Default)]
pub enum LogKind {
    /// Access log.
    #[default]
    Access,
    /// Error log.
    Error,
}

/// The stored text of each log kind.
pub open spec fn log_kind_text(k: LogKind) -> Seq<char> {
    match k {
        LogKind::Access => "access"@,
        LogKind::Error => "error"@,
    }
}

/// The log kind a stored text names; a missing or unknown text is an access log.
pub open spec fn log_kind_of(t: Seq<char>) -> LogKind {
    if t == "error"@ { LogKind::Error } else { LogKind::Access }
}

impl LogKind {
    /// The stored text.
    pub fn as_str(self) -> (r: &'static str)
        ensures
            r@ == log_kind_text(self),
    {
        match self {
            LogKind::Access => "access",
            LogKind::Error => "error",
        }
    }

    /// The kind a stored text names; anything but `error` is an access log.
    pub fn parse(s: &str) -> (r: LogKind)
        ensures
            r == log_kind_of(s@),
    {
        if str_eq(s, "error") {
            LogKind::Error
        } else {
            LogKind::Access
        }
    }
}

/// Reading the stored text of a kind gives the kind back.
pub proof fn lemma_log_kind_round_trip(k: LogKind)
    ensures
        log_kind_of(log_kind_text(k)) == k,
{
    reveal_strlit("access");
    reveal_strlit("error");
    lemma_differ_at("access"@, "error"@, 0);
}

/// A created job.
#[derive(Debug, Clone, Copy, PartialEq, Eq)]
pub struct JobHandle {
    /// Job ID.
    pub job_id: i64,
    /// Result version.
    pub result_version: i64,
}

/// Summary of a job (the counts are committed values).
#[derive(Debug, Clone, PartialEq, Eq)]
pub struct JobInfo {
    /// Job ID.
    pub job_id: i64,
    /// Result version.
    pub result_version: i64,
    /// State.
    pub status: JobStatus,
    /// Profile ID.
    pub profile_id: i64,
    /// Log kind.
    pub log_kind: LogKind,
    /// Committed records.
    pub committed_records: i64,
    /// Committed errors.
    pub committed_errors: i64,
    /// Committed skipped lines.
    pub committed_skipped: i64,
    /// Whether this is the active result that queries see.
    pub active: bool,
    /// An earlier job this re-parse is to replace.
    pub replaces_job_id: Option<i64>,
    /// Why it failed (no input content).
    pub failure_reason: Option<String>,
}

/// A file of a job.
#[derive(Debug, Clone, PartialEq, Eq)]
pub struct JobSource {
    /// Source ID.
    pub source_id: i64,
    /// Processing order.
    pub ordinal: i64,
    /// pending / running / done / cancelled / failed.
    pub status: String,
    /// Current linked path.
    pub path: String,
}

/// The outcome of checking a file against its stored identity.
#[derive(Debug, Clone, PartialEq, Eq)]
pub struct SourceVerification {
    /// Source ID.
    pub source_id: i64,
    /// Path.
    pub path: String,
    /// Whether it matches the stored identity.
    pub matches: bool,
    /// Why it does not.
    pub reason: Option<String>,
    /// Whether the whole-file hash was compared too.
    pub full_checked: bool,
}

/// Only a finished job can become the active result.
pub open spec fn activation_error(info: JobInfo) -> Option<Seq<char>> {
    if info.status == JobStatus::Completed || info.status == JobStatus::CompletedWithErrors {
        None
    } else {
        Some("완료되지 않은 작업 "@ + signed_decimal(info.job_id as int) + "("@ + job_status_text(info.status)
            + ")은 활성화할 수 없음"@)
    }
}

/// Checks that a job may be activated.
pub fn check_activation(info: &JobInfo) -> (r: Result<(), EngineError>)
    ensures
        match activation_error(*info) {
            None => r is Ok,
            Some(m) => r matches Err(EngineError::Job(x)) && x@ == m,
        },
{
    match info.status {
        JobStatus::Completed | JobStatus::CompletedWithErrors => Ok(()),
        _ => {
            let mut v: Vec<char> = Vec::new();
            push_str(&mut v, "완료되지 않은 작업 ");
            push_signed_decimal(&mut v, info.job_id);
            push_str(&mut v, "(");
            push_str(&mut v, info.status.as_str());
            push_str(&mut v, ")은 활성화할 수 없음");
            Err(EngineError::Job(chars_to_string(&v)))
        },
    }
}

/// A running job cannot be deleted, nor the active finished result.
pub open spec fn deletion_error(info: JobInfo) -> Option<Seq<char>> {
    if info.status == JobStatus::Running || info.status == JobStatus::Cancelling {
        Some("실행 중인 작업 "@ + signed_decimal(info.job_id as int) + "은 삭제할 수 없음"@)
    } else if info.active && (info.status == JobStatus::Completed || info.status == JobStatus::CompletedWithErrors) {
        Some("활성 결과 "@ + signed_decimal(info.job_id as int) + "은 삭제할 수 없음. 다른 결과를 활성화한 뒤 삭제한다"@)
    } else {
        None
    }
}

/// Checks that a job's results may be deleted.
pub fn check_deletion(info: &JobInfo) -> (r: Result<(), EngineError>)
    ensures
        match deletion_error(*info) {
            None => r is Ok,
            Some(m) => r matches Err(EngineError::Job(x)) && x@ == m,
        },
{
    let mut v: Vec<char> = Vec::new();
    match info.status {
        JobStatus::Running | JobStatus::Cancelling => {
            push_str(&mut v, "실행 중인 작업 ");
            push_signed_decimal(&mut v, info.job_id);
            push_str(&mut v, "은 삭제할 수 없음");
            return Err(EngineError::Job(chars_to_string(&v)));
        },
        _ => {},
    }
    let finished = match info.status {
        JobStatus::Completed | JobStatus::CompletedWithErrors => true,
        _ => false,
    };
    if info.active && finished {
        push_str(&mut v, "활성 결과 ");
        push_signed_decimal(&mut v, info.job_id);
        push_str(&mut v, "은 삭제할 수 없음. 다른 결과를 활성화한 뒤 삭제한다");
        return Err(EngineError::Job(chars_to_string(&v)));
    }
    Ok(())
}

/// A setting value that may go into a `SET` statement: not empty, only ASCII letters,
/// digits, `.` and `%` (no quote or semicolon can reach the SQL).
pub open spec fn setting_ok(v: Seq<char>) -> bool {
    v.len() > 0 && forall|i: int| 0 <= i < v.len() ==> (is_ascii_alnum(#[trigger] v[i]) || v[i] == '.' || v[i] == '%')
}

/// Checks a setting value.
pub fn validate_setting(value: &str) -> (r: Result<(), EngineError>)
    ensures
        setting_ok(value@) ==> r is Ok,
        !setting_ok(value@) ==> (r matches Err(EngineError::Query(x)) && x@ == "허용되지 않는 설정 값 형식: "@ + value@),
{
    let c = str_chars(value);
    let mut ok = c.len() > 0;
    let mut i: usize = 0;
    while i < c.len()
        invariant
            c@ == value@,
            i <= c.len(),
            ok == (c.len() > 0 && forall|k: int| 0 <= k < i ==> (is_ascii_alnum(#[trigger] c@[k]) || c@[k] == '.' || c@[k] == '%')),
        decreases c.len() - i,
    {
        let ch = c[i];
        let good = ('a' <= ch && ch <= 'z') || ('A' <= ch && ch <= 'Z') || ('0' <= ch && ch <= '9') || ch == '.' || ch == '%';
        if !good {
            ok = false;
        }
        i = i + 1;
    }
    if ok {
        Ok(())
    } else {
        let mut v: Vec<char> = Vec::new();
        push_str(&mut v, "허용되지 않는 설정 값 형식: ");
        push_str(&mut v, value);
        Err(EngineError::Query(chars_to_string(&v)))
    }
}

/// The verdict on a registered file read again: it matches when nothing differs; the
/// whole-file hash was compared only when it was asked for and one was stored. The flag
/// says whether the hash just read should now be stored (asked for, matching, none yet).
pub fn verify_identity(source_id: i64, path: String, stored: &SourceIdentity, current: &SourceIdentity, full: bool)
    -> (r: (SourceVerification, bool))
    ensures
        r.0.source_id == source_id,
        r.0.path == path,
        opt_view(r.0.reason) == mismatch_text(*stored, *current),
        r.0.matches == (mismatch_text(*stored, *current) is None),
        r.0.full_checked == (full && stored.full_hash is Some),
        r.1 == (r.0.matches && full && stored.full_hash is None),
{
    let reason = stored.mismatch_reason(current);
    let matches = reason.is_none();
    let record = matches && full && stored.full_hash.is_none();
    (SourceVerification { source_id, path, matches, reason, full_checked: full && stored.full_hash.is_some() }, record)
}

/// Whether a new reading of a file can reuse the latest registration at its path (its
/// identity matches), and whether the registration should then take the whole-file hash
/// the reading has and it lacks.
pub fn reuse_registration(stored: &SourceIdentity, identity: &SourceIdentity) -> (r: (bool, bool))
    ensures
        r.0 == (stored.file_size == identity.file_size && stored.head_hash@ == identity.head_hash@
            && stored.head_bytes == identity.head_bytes),
        r.1 == (r.0 && identity.full_hash is Some && stored.full_hash is None),
{
    let reuse = stored.matches(identity);
    (reuse, reuse && identity.full_hash.is_some() && stored.full_hash.is_none())
}

} // verus!
