//! Import settings and progress. The pipeline reads a stream, parses it, fills bounded
//! batches and commits them; it never holds a whole file, and an interrupted job resumes
//! after its last committed batch.

use vstd::prelude::*;

use crate::batch::PendingBatch;
use crate::error::EngineError;
use crate::model::FormatProfile;
use crate::store::{job_status_text, JobStatus, SourceVerification};
use crate::text::{chars_to_string, push_signed_decimal, push_str, signed_decimal};

verus! {

/// Import settings. The defaults are a starting point, no performance target.
#[derive(Debug, Clone)]
pub struct ImportConfig {
    /// Most lines in a batch (records, failures and skipped).
    pub batch_max_rows: usize,
    /// Most approximate bytes in a batch.
    pub batch_max_bytes: usize,
    /// Longest line; a longer one is a `line_too_long` failure and its content is dropped.
    pub max_line_bytes: usize,
    /// Most failures kept per batch; past it the job fails.
    pub max_errors_per_batch: usize,
    /// Whether a resume checks the whole file's hash first (reading the file once more).
    pub full_verify_on_resume: bool,
}

impl Default for ImportConfig {
    fn default() -> (r: Self)
        ensures
            r.batch_max_rows == 100_000,
            r.batch_max_bytes == 48 * 1024 * 1024,
            r.max_line_bytes == 64 * 1024,
            r.max_errors_per_batch == 100_000,
            !r.full_verify_on_resume,
    {
        ImportConfig {
            batch_max_rows: 100_000,
            batch_max_bytes: 48 * 1024 * 1024,
            max_line_bytes: 64 * 1024,
            max_errors_per_batch: 100_000,
            full_verify_on_resume: false,
        }
    }
}

/// An import request.
#[derive(Debug, Clone)]
pub struct ImportRequest {
    /// Format profile.
    pub profile: FormatProfile,
    /// Input files, processed in order.
    pub paths: Vec<std::path::PathBuf>,
    /// For a re-parse, the job it is to replace. The new result starts inactive and is
    /// switched to explicitly once finished.
    pub replaces_job_id: Option<i64>,
}

/// A progress report. A new job reports once right after it is created (zero counts),
/// then once per committed batch, so callers learn the job ID before a large batch.
#[derive(Debug, Clone, Copy)]
pub struct Progress {
    /// Job ID.
    pub job_id: i64,
    /// Source ID.
    pub source_id: i64,
    /// Lines read from the file (the line number, earlier runs included).
    pub lines_read: u64,
    /// Records this run committed for the job.
    pub committed_records: u64,
    /// Batches this run committed.
    pub committed_batches: u64,
}

/// What the writer reports of one batch it committed.
#[derive(Debug, Clone, Copy, PartialEq, Eq)]
pub struct CommitReport {
    /// Source ID.
    pub source_id: i64,
    /// Last line of the batch.
    pub end_line: u64,
    /// Records in the batch.
    pub records: u64,
    /// Failures in the batch.
    pub errors: u64,
    /// Skipped lines in the batch.
    pub skipped: u64,
    /// False when the same batch had been committed before (a retry).
    pub fresh: bool,
}

/// The report of a committed batch; `fresh` tells whether the commit was new.
pub fn commit_report(batch: &PendingBatch, fresh: bool) -> (r: CommitReport)
    ensures
        r.source_id == batch.source_id,
        r.end_line == batch.end_line,
        r.records == batch.records@.len(),
        r.errors == batch.errors@.len(),
        r.skipped == batch.skipped_count,
        r.fresh == fresh,
{
    CommitReport {
        source_id: batch.source_id,
        end_line: batch.end_line,
        records: batch.records.len() as u64,
        errors: batch.errors.len() as u64,
        skipped: batch.skipped_count,
        fresh,
    }
}

/// What one file's run committed: records, failures, skipped lines and batches.
#[derive(Debug, Clone, Copy, PartialEq, Eq, Default)]
pub struct CommitTally {
    /// Records.
    pub records: u64,
    /// Failures.
    pub errors: u64,
    /// Skipped lines.
    pub skipped: u64,
    /// Batches.
    pub batches: u64,
}

/// `a + b` held at `u64::MAX`.
pub open spec fn sat_u64(a: u64, b: u64) -> u64 {
    if a + b > u64::MAX { u64::MAX } else { (a + b) as u64 }
}

/// A commit report applied: a fresh batch adds to the file's tally and to the job's
/// committed records and batches (each held at `u64::MAX`); every report, a retried batch's
/// too, moves the progress to its file and last line.
pub fn apply_report(p: Progress, tally: CommitTally, report: CommitReport) -> (r: (Progress, CommitTally))
    ensures
        r.0.job_id == p.job_id,
        r.0.source_id == report.source_id,
        r.0.lines_read == report.end_line,
        report.fresh ==> r.0.committed_records == sat_u64(p.committed_records, report.records)
            && r.0.committed_batches == sat_u64(p.committed_batches, 1)
            && r.1 == (CommitTally {
                records: sat_u64(tally.records, report.records),
                errors: sat_u64(tally.errors, report.errors),
                skipped: sat_u64(tally.skipped, report.skipped),
                batches: sat_u64(tally.batches, 1),
            }),
        !report.fresh ==> r.0.committed_records == p.committed_records && r.0.committed_batches == p.committed_batches
            && r.1 == tally,
{
    let mut progress = Progress {
        job_id: p.job_id,
        source_id: report.source_id,
        lines_read: report.end_line,
        committed_records: p.committed_records,
        committed_batches: p.committed_batches,
    };
    let mut t = tally;
    if report.fresh {
        t = CommitTally {
            records: tally.records.saturating_add(report.records),
            errors: tally.errors.saturating_add(report.errors),
            skipped: tally.skipped.saturating_add(report.skipped),
            batches: tally.batches.saturating_add(1),
        };
        progress.committed_records = p.committed_records.saturating_add(report.records);
        progress.committed_batches = p.committed_batches.saturating_add(1);
    }
    (progress, t)
}

/// How the files of a job were gone through: all of them, or stopped by a cancel or a
/// failure.
#[derive(Debug, Clone, Copy, PartialEq, Eq)]
pub enum RunEnd {
    /// Every file was read to its end.
    Finished,
    /// A cancel stopped the job.
    Cancelled,
    /// A file failed.
    Failed,
}

/// The state a job finishes in: a finished job with committed parse errors is
/// `CompletedWithErrors`.
pub fn job_status_after(end: RunEnd, committed_errors: i64) -> (r: JobStatus)
    ensures
        r == (match end {
            RunEnd::Finished => if committed_errors > 0 {
                JobStatus::CompletedWithErrors
            } else {
                JobStatus::Completed
            },
            RunEnd::Cancelled => JobStatus::Cancelled,
            RunEnd::Failed => JobStatus::Failed,
        }),
{
    match end {
        RunEnd::Finished => if committed_errors > 0 {
            JobStatus::CompletedWithErrors
        } else {
            JobStatus::Completed
        },
        RunEnd::Cancelled => JobStatus::Cancelled,
        RunEnd::Failed => JobStatus::Failed,
    }
}

/// The state recorded for a file after it was read: `cancelled` or `done`.
pub fn source_status_after(cancelled: bool) -> (r: &'static str)
    ensures
        r@ == (if cancelled { "cancelled"@ } else { "done"@ }),
{
    if cancelled {
        "cancelled"
    } else {
        "done"
    }
}

/// A resumed file must still match its registration; otherwise the job stops with the
/// reason (`불일치` when none is given).
pub fn check_resumed_source(v: &SourceVerification) -> (r: Result<(), EngineError>)
    ensures
        v.matches ==> r is Ok,
        !v.matches ==> (r matches Err(EngineError::SourceChanged { source_id, reason }) && source_id == v.source_id
            && reason@ == (match v.reason {
                Some(m) => m@,
                None => "불일치"@,
            })),
{
    if v.matches {
        return Ok(());
    }
    let reason = match &v.reason {
        Some(m) => m.as_str().to_owned(),
        None => "불일치".to_owned(),
    };
    Err(EngineError::SourceChanged { source_id: v.source_id, reason })
}

/// An import needs at least one input file.
pub fn require_sources(count: usize) -> (r: Result<(), EngineError>)
    ensures
        count > 0 ==> r is Ok,
        count == 0 ==> (r matches Err(EngineError::Job(m)) && m@ == "입력 파일이 없음"@),
{
    if count == 0 {
        Err(EngineError::Job("입력 파일이 없음".to_owned()))
    } else {
        Ok(())
    }
}

/// A job in this state can be resumed: it was interrupted, cancelled or failed.
pub open spec fn resumable(status: JobStatus) -> bool {
    status == JobStatus::Interrupted || status == JobStatus::Cancelled || status == JobStatus::Failed
}

/// Only an interrupted, cancelled or failed job can be resumed.
pub fn check_resumable(job_id: i64, status: JobStatus) -> (r: Result<(), EngineError>)
    ensures
        resumable(status) ==> r is Ok,
        !resumable(status) ==> (r matches Err(EngineError::Job(m))
            && m@ == "작업 "@ + signed_decimal(job_id as int) + "은 "@ + job_status_text(status) + " 상태라 재개할 수 없음"@),
{
    if status.is_resumable() {
        return Ok(());
    }
    let mut v: Vec<char> = Vec::new();
    push_str(&mut v, "작업 ");
    push_signed_decimal(&mut v, job_id);
    push_str(&mut v, "은 ");
    push_str(&mut v, status.as_str());
    push_str(&mut v, " 상태라 재개할 수 없음");
    Err(EngineError::Job(chars_to_string(&v)))
}

} // verus!
