//! Format preview: the head of a file is read within limits and parsed with the same
//! parser. No raw sample is returned, only outcomes and counts.

use vstd::prelude::*;

use crate::record::LineOutcome;

verus! {

/// Preview limits.
#[derive(Debug, Clone)]
pub struct PreviewConfig {
    /// Most lines.
    pub max_lines: u64,
    /// Most logical bytes.
    pub max_bytes: u64,
    /// Longest line.
    pub max_line_bytes: usize,
}

impl Default for PreviewConfig {
    fn default() -> (r: Self)
        ensures
            r.max_lines == 200,
            r.max_bytes == 1024 * 1024,
            r.max_line_bytes == 64 * 1024,
    {
        PreviewConfig { max_lines: 200, max_bytes: 1024 * 1024, max_line_bytes: 64 * 1024 }
    }
}

/// Whether the preview stops before reading another line (the limits are reached).
pub fn preview_limit_reached(lines_read: u64, offset: u64, cfg: &PreviewConfig) -> (r: bool)
    ensures
        r == (lines_read >= cfg.max_lines || offset >= cfg.max_bytes),
{
    lines_read >= cfg.max_lines || offset >= cfg.max_bytes
}

/// Records, failures and skipped lines among the first `n` outcomes.
pub open spec fn outcome_counts(v: Seq<LineOutcome>, n: int) -> (nat, nat, nat)
    decreases n,
{
    if n <= 0 {
        (0, 0, 0)
    } else {
        let (a, b, c) = outcome_counts(v, n - 1);
        match v[n - 1] {
            LineOutcome::Record(_) => (a + 1, b, c),
            LineOutcome::Error { .. } => (a, b + 1, c),
            LineOutcome::Skipped { .. } => (a, b, c + 1),
        }
    }
}

proof fn lemma_counts_sum(v: Seq<LineOutcome>, n: int)
    requires
        0 <= n <= v.len(),
    ensures
        outcome_counts(v, n).0 + outcome_counts(v, n).1 + outcome_counts(v, n).2 == n,
    decreases n,
{
    if n > 0 {
        lemma_counts_sum(v, n - 1);
    }
}

/// Counts the records, failures and skipped lines of a preview. Every outcome is one of
/// the three.
pub fn count_outcomes(outcomes: &Vec<LineOutcome>) -> (r: (u64, u64, u64))
    requires
        outcomes@.len() <= u64::MAX,
    ensures
        (r.0 as nat, r.1 as nat, r.2 as nat) == outcome_counts(outcomes@, outcomes@.len() as int),
        r.0 + r.1 + r.2 == outcomes@.len(),
{
    let mut records: u64 = 0;
    let mut errors: u64 = 0;
    let mut skipped: u64 = 0;
    let mut i: usize = 0;
    while i < outcomes.len()
        invariant
            i <= outcomes.len(),
            outcomes@.len() <= u64::MAX,
            (records as nat, errors as nat, skipped as nat) == outcome_counts(outcomes@, i as int),
        decreases outcomes.len() - i,
    {
        proof { lemma_counts_sum(outcomes@, i as int); }
        match &outcomes[i] {
            LineOutcome::Record(_) => records = records + 1,
            LineOutcome::Error { .. } => errors = errors + 1,
            LineOutcome::Skipped { .. } => skipped = skipped + 1,
        }
        i = i + 1;
    }
    proof { lemma_counts_sum(outcomes@, outcomes@.len() as int); }
    (records, errors, skipped)
}

} // verus!
