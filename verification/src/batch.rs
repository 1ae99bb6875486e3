//! Batches. Records, failure positions, the batch row and the checkpoint are committed
//! as one transaction by the store; this module builds the batch line by line and says
//! when it is full.

use vstd::prelude::*;

use crate::error::EngineError;
use crate::line_parser::{parse_step, LineParser};
use crate::reader::{line_finished, moved_to, LineContent, LineCursor, RawLine, StatSnapshot};
use crate::record::{opt_view, record_bytes, LineOutcome, LogRecord, ParseErrorCode};
use crate::text::{chars_to_string, decimal, push_decimal, push_signed_decimal, push_str, signed_decimal};

verus! {

/// A batch waiting to be committed.
#[derive(Debug)]
pub struct PendingBatch {
    /// Job ID.
    pub job_id: i64,
    /// Source ID.
    pub source_id: i64,
    /// Batch sequence number within the file (from 0); identifies a retry.
    pub batch_seq: i64,
    /// Offset where the batch starts.
    pub start_offset: u64,
    /// Offset of the next read (the checkpoint).
    pub next_offset: u64,
    /// First line of the batch.
    pub start_line: u64,
    /// Last line of the batch (inclusive).
    pub end_line: u64,
    /// Header state when the batch ends (JSON).
    pub header_state_json: Option<String>,
    /// Records.
    pub records: Vec<LogRecord>,
    /// Failure positions.
    pub errors: Vec<BatchError>,
    /// Skipped lines (blank, directives).
    pub skipped_count: u64,
    /// Approximate bytes so far (for the batch byte limit).
    pub approx_bytes: usize,
}

impl Default for PendingBatch {
    /// An empty batch: no line, no record, no failure, nothing skipped, no byte, all
    /// numbers zero.
    fn default() -> (r: Self)
        ensures
            r.job_id == 0 && r.source_id == 0 && r.batch_seq == 0,
            r.start_offset == 0 && r.next_offset == 0 && r.start_line == 0 && r.end_line == 0,
            r.header_state_json is None,
            r.records@.len() == 0 && r.errors@.len() == 0,
            r.skipped_count == 0 && r.approx_bytes == 0,
            processed(r) == 0,
    {
        PendingBatch {
            job_id: 0,
            source_id: 0,
            batch_seq: 0,
            start_offset: 0,
            next_offset: 0,
            start_line: 0,
            end_line: 0,
            header_state_json: None,
            records: Vec::new(),
            errors: Vec::new(),
            skipped_count: 0,
            approx_bytes: 0,
        }
    }
}

/// A failure position in a batch.
#[derive(Debug, Clone, PartialEq, Eq)]
pub struct BatchError {
    /// Line number.
    pub line_number: u64,
    /// Failure code.
    pub code: ParseErrorCode,
    /// The field it is about.
    pub field: Option<String>,
}

/// Lines a batch has processed: records, failures and skipped lines.
pub open spec fn processed(b: PendingBatch) -> int {
    b.records@.len() + b.errors@.len() + b.skipped_count
}

impl PendingBatch {
    /// Lines processed (records, failures, skipped).
    pub fn processed_lines(&self) -> (r: u64)
        requires
            processed(*self) <= u64::MAX,
        ensures
            r == processed(*self),
    {
        self.records.len() as u64 + self.errors.len() as u64 + self.skipped_count
    }

    /// Whether no line has been processed.
    pub fn is_empty(&self) -> (r: bool)
        requires
            processed(*self) <= u64::MAX,
        ensures
            r == (processed(*self) == 0),
    {
        self.processed_lines() == 0
    }
}

/// A new, empty batch starting at `start_offset` and line `start_line`.
pub fn new_batch(job_id: i64, source_id: i64, batch_seq: i64, start_offset: u64, start_line: u64) -> (r: PendingBatch)
    ensures
        r.job_id == job_id && r.source_id == source_id && r.batch_seq == batch_seq,
        r.start_offset == start_offset && r.next_offset == start_offset,
        r.start_line == start_line,
        r.end_line == if start_line == 0 { 0 } else { (start_line - 1) as u64 },
        r.header_state_json is None,
        r.records@.len() == 0 && r.errors@.len() == 0,
        r.skipped_count == 0 && r.approx_bytes == 0,
{
    PendingBatch {
        job_id,
        source_id,
        batch_seq,
        start_offset,
        next_offset: start_offset,
        start_line,
        end_line: start_line.saturating_sub(1),
        header_state_json: None,
        records: Vec::new(),
        errors: Vec::new(),
        skipped_count: 0,
        approx_bytes: 0,
    }
}

/// Batch `b` continues batch `a` of the same job and file: the next sequence number,
/// from the line after `a`'s last and the offset where `a` stopped.
pub open spec fn continues(a: PendingBatch, b: PendingBatch) -> bool {
    &&& b.job_id == a.job_id && b.source_id == a.source_id
    &&& b.batch_seq == a.batch_seq + 1
    &&& b.start_line == a.end_line + 1
    &&& b.start_offset == a.next_offset
}

/// A new batch of no line yet.
pub open spec fn fresh_batch(b: PendingBatch) -> bool {
    &&& b.next_offset == b.start_offset
    &&& b.end_line + 1 == b.start_line
    &&& b.header_state_json is None
    &&& b.records@.len() == 0 && b.errors@.len() == 0
    &&& b.skipped_count == 0 && b.approx_bytes == 0
}

/// The checkpoint committed with batch `b`: its sequence number, where reading stopped
/// and its last line.
pub open spec fn checkpoint_of(cp: BatchCheckpoint, b: PendingBatch) -> bool {
    cp.batch_seq == b.batch_seq && cp.next_offset == b.next_offset && cp.end_line == b.end_line
}

/// Where the first batch of a run over a file starts: with no checkpoint, batch 0 at line
/// 1 and offset 0; after a checkpoint, the next batch, from where reading stopped (a
/// checkpoint at offset zero is the start of the file).
pub open spec fn opens_after(cp: Option<BatchCheckpoint>, r: PendingBatch) -> bool {
    match cp {
        None => r.batch_seq == 0 && r.start_offset == 0 && r.start_line == 1,
        Some(c) => r.batch_seq == c.batch_seq + 1 && if c.next_offset == 0 {
            r.start_offset == 0 && r.start_line == 1
        } else {
            r.start_offset == c.next_offset && r.start_line == c.end_line + 1
        },
    }
}

/// The first batch of a run over a file: on a fresh start (no checkpoint) the first
/// batch, from the start of the file; on a resume, the batch after the checkpoint's, from
/// where reading stopped. A checkpoint at offset zero is the start of the file.
pub fn opening_batch(job_id: i64, source_id: i64, cp: &Option<BatchCheckpoint>) -> (r: PendingBatch)
    requires
        cp matches Some(c) ==> c.batch_seq < i64::MAX && c.end_line < u64::MAX,
    ensures
        r.job_id == job_id && r.source_id == source_id,
        fresh_batch(r),
        opens_after(*cp, r),
{
    match cp {
        None => new_batch(job_id, source_id, 0, 0, 1),
        Some(c) => if c.next_offset == 0 {
            new_batch(job_id, source_id, c.batch_seq + 1, 0, 1)
        } else {
            new_batch(job_id, source_id, c.batch_seq + 1, c.next_offset, c.end_line + 1)
        },
    }
}

/// The batch that follows a full one: same job and file, the next sequence number, from
/// the line after its last and the offset where it stopped.
pub fn following_batch(full: &PendingBatch) -> (r: PendingBatch)
    requires
        full.batch_seq < i64::MAX,
        full.end_line < u64::MAX,
    ensures
        continues(*full, r),
        fresh_batch(r),
{
    new_batch(full.job_id, full.source_id, full.batch_seq + 1, full.next_offset, full.end_line + 1)
}

/// The outcome of a commit.
#[derive(Debug, Clone, Copy, PartialEq, Eq)]
pub enum CommitOutcome {
    /// Newly committed.
    Committed {
        /// Batch ID.
        batch_id: i64,
    },
    /// The same (job, source, sequence) was already committed; skipped.
    AlreadyCommitted {
        /// The existing batch ID.
        batch_id: i64,
    },
}

/// A checkpoint to resume from.
#[derive(Debug, Clone, PartialEq, Eq)]
pub struct BatchCheckpoint {
    /// Last committed batch ID.
    pub batch_id: i64,
    /// Last committed batch sequence number.
    pub batch_seq: i64,
    /// Offset of the next read.
    pub next_offset: u64,
    /// Last processed line.
    pub end_line: u64,
    /// Header state.
    pub header_state_json: Option<String>,
}

/// `a + b`, or `usize::MAX` when it is larger.
pub open spec fn sat_add(a: nat, b: nat) -> nat {
    if a + b > usize::MAX { usize::MAX as nat } else { a + b }
}

/// How the batch changed for one line with outcome `r` (its text parsed) or a content
/// failure.
pub open spec fn absorbed(b0: PendingBatch, b1: PendingBatch, line: RawLine, r: Option<LineOutcome>) -> bool {
    let base = sat_add(b0.approx_bytes as nat, (line.next_offset - line.start_offset) as nat);
    &&& b1.job_id == b0.job_id && b1.source_id == b0.source_id && b1.batch_seq == b0.batch_seq
    &&& b1.start_offset == b0.start_offset && b1.start_line == b0.start_line
    &&& b1.header_state_json == b0.header_state_json
    &&& b1.next_offset == line.next_offset && b1.end_line == line.line_number
    &&& match r {
        Some(LineOutcome::Record(rec)) => b1.records@ == b0.records@.push(rec) && b1.errors@ == b0.errors@
            && b1.skipped_count == b0.skipped_count
            && b1.approx_bytes == sat_add(base, if record_bytes(rec) > usize::MAX { usize::MAX as nat } else { record_bytes(rec) }),
        Some(LineOutcome::Error { line_number, code, field }) => b1.records@ == b0.records@
            && b1.errors@ == b0.errors@.push(BatchError { line_number, code, field })
            && b1.skipped_count == b0.skipped_count && b1.approx_bytes == base,
        Some(LineOutcome::Skipped { .. }) => b1.records@ == b0.records@ && b1.errors@ == b0.errors@
            && b1.skipped_count == b0.skipped_count + 1 && b1.approx_bytes == base,
        None => b1.records@ == b0.records@ && b1.skipped_count == b0.skipped_count && b1.approx_bytes == base
            && b1.errors@.len() == b0.errors@.len() + 1
            && b1.errors@.drop_last() == b0.errors@
            && b1.errors@.last().line_number == line.line_number && b1.errors@.last().field is None
            && b1.errors@.last().code == match line.content {
                LineContent::InvalidUtf8 => ParseErrorCode::InvalidUtf8,
                _ => ParseErrorCode::LineTooLong,
            },
    }
}

impl PendingBatch {
    /// Adds one line: text is parsed and its outcome kept (record, failure or skip); a
    /// line that was not UTF-8 or too long is kept as a failure without content. The
    /// offsets and the byte count follow the line.
    pub fn absorb(&mut self, line: RawLine, parser: &mut LineParser)
        requires
            line.start_offset <= line.next_offset,
            old(self).skipped_count < u64::MAX,
        ensures
            match line.content {
                LineContent::Text(t) => exists|r: LineOutcome| parse_step(*old(parser), *final(parser), line.line_number, t@, r)
                    && absorbed(*old(self), *final(self), line, Some(r)),
                _ => *final(parser) == *old(parser) && absorbed(*old(self), *final(self), line, None),
            },
    {
        let span: u64 = line.next_offset - line.start_offset;
        let line_bytes: usize = if span <= usize::MAX as u64 { span as usize } else { usize::MAX };
        self.next_offset = line.next_offset;
        self.end_line = line.line_number;
        self.approx_bytes = self.approx_bytes.saturating_add(line_bytes);
        let ghost line_copy = line;
        let RawLine { line_number, start_offset: _, next_offset: _, content } = line;
        match content {
            LineContent::Text(text) => {
                let r = parser.parse_line(line_number, text.as_str());
                let ghost rr = r;
                match r {
                    LineOutcome::Record(rec) => {
                        let b = rec.approx_bytes();
                        self.approx_bytes = self.approx_bytes.saturating_add(b);
                        self.records.push(rec);
                    },
                    LineOutcome::Error { line_number: n, code, field } => {
                        self.errors.push(BatchError { line_number: n, code, field });
                    },
                    LineOutcome::Skipped { .. } => {
                        self.skipped_count = self.skipped_count + 1;
                    },
                }
                assert(absorbed(*old(self), *self, line_copy, Some(rr)));
                assert(parse_step(*old(parser), *parser, line_copy.line_number, text@, rr));
            },
            LineContent::InvalidUtf8 => {
                self.errors.push(BatchError { line_number, code: ParseErrorCode::InvalidUtf8, field: None });
                assert(self.errors@.drop_last() =~= old(self).errors@);
            },
            LineContent::TooLong => {
                self.errors.push(BatchError { line_number, code: ParseErrorCode::LineTooLong, field: None });
                assert(self.errors@.drop_last() =~= old(self).errors@);
            },
        }
    }
}

/// What the import does after a line.
#[derive(Debug, Clone, Copy, PartialEq, Eq)]
pub enum BatchStep {
    /// Keep reading into this batch.
    Continue,
    /// The batch is full: hand it to the writer and start the next one.
    Flush,
}

/// After a line: too many failures stop the job (the failures are not dropped); a batch
/// with enough lines or bytes is flushed.
pub fn batch_step(batch: &PendingBatch, max_errors: usize, max_rows: usize, max_bytes: usize) -> (r: Result<BatchStep, EngineError>)
    requires
        processed(*batch) <= u64::MAX,
    ensures
        batch.errors@.len() > max_errors ==> r == Err::<BatchStep, EngineError>(EngineError::ErrorLimit { count: batch.errors@.len() as usize, limit: max_errors }),
        batch.errors@.len() <= max_errors ==> r == Ok::<BatchStep, EngineError>(
            if processed(*batch) >= max_rows || batch.approx_bytes >= max_bytes { BatchStep::Flush } else { BatchStep::Continue }),
{
    if batch.errors.len() > max_errors {
        return Err(EngineError::ErrorLimit { count: batch.errors.len(), limit: max_errors });
    }
    let n = batch.processed_lines();
    if n as u128 >= max_rows as u128 || batch.approx_bytes >= max_bytes {
        Ok(BatchStep::Flush)
    } else {
        Ok(BatchStep::Continue)
    }
}

/// `Some(n)` or `None` as Rust's debug form writes it.
pub open spec fn debug_opt_i64(o: Option<i64>) -> Seq<char> {
    match o {
        Some(n) => "Some("@ + signed_decimal(n as int) + ")"@,
        None => "None"@,
    }
}

fn push_debug_opt(v: &mut Vec<char>, o: Option<i64>)
    ensures
        final(v)@ == old(v)@ + debug_opt_i64(o),
{
    match o {
        Some(n) => {
            push_str(v, "Some(");
            push_signed_decimal(v, n);
            push_str(v, ")");
        },
        None => push_str(v, "None"),
    }
}

/// A file that changed during its import stops the import before the batch is committed.
pub fn ensure_unchanged(source_id: i64, at_start: StatSnapshot, now: StatSnapshot) -> (r: Result<(), EngineError>)
    ensures
        at_start == now ==> r is Ok,
        at_start != now ==> (r matches Err(EngineError::SourceChanged { source_id: s, reason }) && s == source_id
            && reason@ == "가져오는 중 변경됨: 크기 "@ + decimal(at_start.file_size as nat) + " → "@ + decimal(now.file_size as nat)
                + ", 수정 시각 "@ + debug_opt_i64(at_start.modified_unix) + " → "@ + debug_opt_i64(now.modified_unix)),
{
    if at_start.file_size == now.file_size && at_start.modified_unix == now.modified_unix {
        return Ok(());
    }
    let mut v: Vec<char> = Vec::new();
    push_str(&mut v, "가져오는 중 변경됨: 크기 ");
    push_decimal(&mut v, at_start.file_size);
    push_str(&mut v, " → ");
    push_decimal(&mut v, now.file_size);
    push_str(&mut v, ", 수정 시각 ");
    push_debug_opt(&mut v, at_start.modified_unix);
    push_str(&mut v, " → ");
    push_debug_opt(&mut v, now.modified_unix);
    Err(EngineError::SourceChanged { source_id, reason: chars_to_string(&v) })
}

/// Resuming at a batch's checkpoint continues exactly where reading stopped: a fresh
/// cursor moved to the offset and line number that a batch recorded for its last line
/// stands where the reading cursor stood after that line (same offset, same line count,
/// past the first line, nothing pending), so no line is read twice and none is skipped.
pub proof fn lemma_checkpoint_resumes_reading(
    c0: LineCursor,
    c1: LineCursor,
    line: RawLine,
    b0: PendingBatch,
    b1: PendingBatch,
    r: Option<LineOutcome>,
    fresh: LineCursor,
    resumed: LineCursor,
)
    requires
        c0.consumed_bytes() > 0,
        line_finished(c0, c1, line),
        absorbed(b0, b1, line, r),
        fresh.stream_offset() == 0 && fresh.lines_read() == 0 && fresh.at_first_line()
            && fresh.pending_bytes() == Seq::<u8>::empty() && !fresh.dropping() && fresh.consumed_bytes() == 0,
        moved_to(fresh, resumed, b1.next_offset, b1.end_line),
    ensures
        b1.next_offset != 0,
        resumed.stream_offset() == c1.stream_offset(),
        resumed.lines_read() == c1.lines_read(),
        resumed.at_first_line() == c1.at_first_line(),
        resumed.pending_bytes() == c1.pending_bytes(),
        resumed.dropping() == c1.dropping(),
        resumed.consumed_bytes() == c1.consumed_bytes(),
{
}

/// A resumed run continues the batches committed before it: the first batch opened after
/// the checkpoint of a batch that read something continues that batch.
pub proof fn lemma_resume_continues(b: PendingBatch, cp: BatchCheckpoint, r: PendingBatch)
    requires
        checkpoint_of(cp, b),
        b.next_offset != 0,
        opens_after(Some(cp), r),
        r.job_id == b.job_id && r.source_id == b.source_id,
    ensures
        continues(b, r),
{
}

/// Lines added to a batch keep it continuing the batch before it, and it ends at the last
/// line added.
pub proof fn lemma_absorb_keeps_continuing(
    a: PendingBatch,
    b0: PendingBatch,
    b1: PendingBatch,
    line: RawLine,
    r: Option<LineOutcome>,
)
    requires
        continues(a, b0),
        absorbed(b0, b1, line, r),
    ensures
        continues(a, b1),
        b1.end_line == line.line_number,
        b1.next_offset == line.next_offset,
{
}

/// Line `n` is one of batch `b`'s lines.
pub open spec fn holds_line(b: PendingBatch, n: int) -> bool {
    b.start_line <= n <= b.end_line
}

/// Line `n` is in one of the batches `bs`.
pub open spec fn some_batch_holds(bs: Seq<PendingBatch>, n: int) -> bool {
    exists|k: int| 0 <= k < bs.len() && holds_line(#[trigger] bs[k], n)
}

/// Along batches that each continue the one before, every batch ends before any later
/// one starts.
proof fn lemma_batches_ordered(bs: Seq<PendingBatch>, j: int, k: int)
    requires
        forall|i: int| 0 <= i < bs.len() ==> (#[trigger] bs[i]).start_line <= bs[i].end_line + 1,
        forall|i: int| 0 <= i < bs.len() - 1 ==> continues(#[trigger] bs[i], bs[i + 1]),
        0 <= j < k < bs.len(),
    ensures
        bs[j].end_line < bs[k].start_line,
        bs[k].batch_seq == bs[j].batch_seq + (k - j),
    decreases k - j,
{
    assert(continues(bs[k - 1], bs[k]));
    if k > j + 1 {
        lemma_batches_ordered(bs, j, k - 1);
        assert(bs[k - 1].start_line <= bs[k - 1].end_line + 1);
    }
}

/// Every line from the first batch's first line to the last batch's last line is in one
/// of the batches.
proof fn lemma_batches_cover(bs: Seq<PendingBatch>, n: int)
    requires
        bs.len() > 0,
        forall|i: int| 0 <= i < bs.len() ==> (#[trigger] bs[i]).start_line <= bs[i].end_line + 1,
        forall|i: int| 0 <= i < bs.len() - 1 ==> continues(#[trigger] bs[i], bs[i + 1]),
        bs[0].start_line <= n <= bs.last().end_line,
    ensures
        some_batch_holds(bs, n),
    decreases bs.len(),
{
    let last = bs.len() - 1;
    if n >= bs[last].start_line {
        assert(holds_line(bs[last], n));
    } else {
        assert(last > 0);
        assert(continues(bs[last - 1], bs[last]));
        let front = bs.drop_last();
        assert forall|i: int| 0 <= i < front.len() implies (#[trigger] front[i]).start_line <= front[i].end_line + 1 by {
            assert(front[i] == bs[i]);
        }
        assert forall|i: int| 0 <= i < front.len() - 1 implies continues(#[trigger] front[i], front[i + 1]) by {
            assert(front[i] == bs[i] && front[i + 1] == bs[i + 1]);
        }
        lemma_batches_cover(front, n);
        let k = choose|k: int| 0 <= k < front.len() && holds_line(#[trigger] front[k], n);
        assert(bs[k] == front[k]);
        assert(holds_line(bs[k], n));
    }
}

/// No line is committed twice and none is left out. The batches of a file, in the order
/// they were committed, each continuing the one before (within a run by
/// `following_batch`, across a resume by `opening_batch` after the last one's
/// checkpoint, and kept continuing as lines are added), are numbered one after the
/// other, and every line from the first batch's first line to the last batch's last line
/// is in exactly one of them.
pub proof fn lemma_batches_hold_each_line_once(bs: Seq<PendingBatch>)
    requires
        bs.len() > 0,
        forall|i: int| 0 <= i < bs.len() ==> (#[trigger] bs[i]).start_line <= bs[i].end_line + 1,
        forall|i: int| 0 <= i < bs.len() - 1 ==> continues(#[trigger] bs[i], bs[i + 1]),
    ensures
        forall|k: int| 0 <= k < bs.len() ==> (#[trigger] bs[k]).batch_seq == bs[0].batch_seq + k,
        forall|n: int| bs[0].start_line <= n <= bs.last().end_line ==> #[trigger] some_batch_holds(bs, n),
        forall|n: int, j: int, k: int|
            0 <= j < bs.len() && 0 <= k < bs.len() && #[trigger] holds_line(bs[j], n) && #[trigger] holds_line(bs[k], n)
                ==> j == k,
{
    assert forall|k: int| 0 <= k < bs.len() implies (#[trigger] bs[k]).batch_seq == bs[0].batch_seq + k by {
        if k > 0 {
            lemma_batches_ordered(bs, 0, k);
        }
    }
    assert forall|n: int| bs[0].start_line <= n <= bs.last().end_line implies #[trigger] some_batch_holds(bs, n) by {
        lemma_batches_cover(bs, n);
    }
    assert forall|n: int, j: int, k: int|
        0 <= j < bs.len() && 0 <= k < bs.len() && #[trigger] holds_line(bs[j], n) && #[trigger] holds_line(bs[k], n)
        implies j == k by {
        if j < k {
            lemma_batches_ordered(bs, j, k);
        } else if k < j {
            lemma_batches_ordered(bs, k, j);
        }
    }
}

} // verus!
