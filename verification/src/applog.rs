//! Lines of the application's file log. The log is for tracing a crash: it says how far
//! work got and never holds log text or field values.

use vstd::prelude::*;

use crate::ext::str_chars;
use crate::text::{chars_slice, chars_to_string, push_str, trim_chars, trimmed};

verus! {

/// Most characters of a screen step kept in the log.
pub const STEP_MAX_CHARS: usize = 200;

/// A log line: `time [level] message` and a line break.
pub open spec fn log_line(now: Seq<char>, level: Seq<char>, message: Seq<char>) -> Seq<char> {
    now + " ["@ + level + "] "@ + message + "\n"@
}

/// Formats one log line.
pub fn format_line(now: &str, level: &str, message: &str) -> (r: String)
    ensures
        r@ == log_line(now@, level@, message@),
{
    let mut v: Vec<char> = Vec::new();
    push_str(&mut v, now);
    push_str(&mut v, " [");
    push_str(&mut v, level);
    push_str(&mut v, "] ");
    push_str(&mut v, message);
    push_str(&mut v, "\n");
    chars_to_string(&v)
}

/// The log text of a screen step: `UI` and the trimmed step, cut after 200 characters
/// with `…` marking the cut.
pub open spec fn step_text(step: Seq<char>) -> Seq<char> {
    let t = trimmed(step);
    if t.len() <= STEP_MAX_CHARS {
        "UI "@ + t
    } else {
        "UI "@ + t.subrange(0, STEP_MAX_CHARS as int) + "…"@
    }
}

/// Turns a step reported by the screen into one log message.
pub fn step_message(step: &str) -> (r: String)
    ensures
        r@ == step_text(step@),
{
    let c = str_chars(step);
    let t = trim_chars(&c);
    let mut v: Vec<char> = Vec::new();
    push_str(&mut v, "UI ");
    if t.len() <= STEP_MAX_CHARS {
        let ghost before = v@;
        let mut i: usize = 0;
        while i < t.len()
            invariant
                i <= t.len(),
                v@ == before + t@.subrange(0, i as int),
            decreases t.len() - i,
        {
            v.push(t[i]);
            i = i + 1;
            assert(v@ =~= before + t@.subrange(0, i as int));
        }
        assert(t@.subrange(0, t.len() as int) =~= t@);
    } else {
        let cut = chars_slice(&t, 0, STEP_MAX_CHARS);
        let ghost before = v@;
        let mut i: usize = 0;
        while i < cut.len()
            invariant
                i <= cut.len(),
                v@ == before + cut@.subrange(0, i as int),
            decreases cut.len() - i,
        {
            v.push(cut[i]);
            i = i + 1;
            assert(v@ =~= before + cut@.subrange(0, i as int));
        }
        assert(cut@.subrange(0, cut.len() as int) =~= cut@);
        push_str(&mut v, "…");
    }
    chars_to_string(&v)
}

/// A cut step message is never longer than the limit plus the `UI ` mark and the `…`.
pub proof fn lemma_step_text_bounded(step: Seq<char>)
    ensures
        step_text(step).len() <= STEP_MAX_CHARS + 4,
{
    reveal_strlit("UI ");
    reveal_strlit("…");
}

/// Least seconds between two progress lines in the log; a crash only needs to show how
/// far work got.
pub const PROGRESS_LOG_SECS: u64 = 1;

/// Whether a progress line is logged at `now` (Unix seconds) when the last was at `last`:
/// at least [`PROGRESS_LOG_SECS`] later (a clock that went back counts as no time).
pub fn progress_log_due(now: u64, last: u64) -> (r: bool)
    ensures
        r == (if now >= last { now - last >= PROGRESS_LOG_SECS } else { 0 >= PROGRESS_LOG_SECS }),
{
    now.saturating_sub(last) >= PROGRESS_LOG_SECS
}

} // verus!
