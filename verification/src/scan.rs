//! Recursive file discovery. File name patterns only pick candidates; the format is
//! checked by content. The walk itself (directory reads) is done by the caller; this
//! module decides what is visited and what is kept.

use vstd::prelude::*;

use crate::ext::str_chars;
use crate::path_order::{path_key, path_key_bytes, PathOrdered};
use crate::reader::Compression;

verus! {

/// Discovery options.
#[derive(Debug, Clone)]
pub struct ScanOptions {
    /// Descend into subdirectories.
    pub recursive: bool,
    /// Deepest depth (the root is 0); `None` for no limit.
    pub max_depth: Option<usize>,
    /// File name patterns a file must match (`*`, `?`); empty lets every name in.
    pub included: Vec<String>,
    /// File name patterns that leave a file out; these win over `included`.
    pub exclude: Vec<String>,
    /// Follow symbolic links.
    pub follow_symlinks: bool,
    /// Most entries; beyond it the result is marked `truncated` and the walk stops.
    pub max_entries: usize,
}

impl Default for ScanOptions {
    fn default() -> (r: Self)
        ensures
            r.recursive,
            r.max_depth is None,
            r.included@.len() == 0,
            r.exclude@.len() == 0,
            !r.follow_symlinks,
            r.max_entries == 100_000,
    {
        ScanOptions {
            recursive: true,
            max_depth: None,
            included: Vec::new(),
            exclude: Vec::new(),
            follow_symlinks: false,
            max_entries: 100_000,
        }
    }
}

/// A discovered file.
#[derive(Debug, Clone, PartialEq, Eq)]
pub struct ScanEntry {
    /// Path.
    pub path: std::path::PathBuf,
    /// Size.
    pub file_size: u64,
    /// Modification time (Unix seconds).
    pub modified_unix: Option<i64>,
    /// Compression by content; `None` when the file could not be read.
    pub compression: Option<Compression>,
    /// Depth below the root.
    pub depth: usize,
}

impl PathOrdered for ScanEntry {
    open spec fn order_key(&self) -> Seq<u8> {
        path_key(self.path)
    }

    fn order_key_bytes(&self) -> (r: Vec<u8>) {
        path_key_bytes(&self.path)
    }
}

/// A per-entry error (permissions and the like); it does not stop the walk.
#[derive(Debug, Clone, PartialEq, Eq)]
pub struct ScanError {
    /// Path.
    pub path: std::path::PathBuf,
    /// The operating system's message.
    pub message: String,
}

/// The result of a walk.
#[derive(Debug, Clone, Default)]
pub struct ScanResult {
    /// Files, sorted by path.
    pub entries: Vec<ScanEntry>,
    /// Errors.
    pub errors: Vec<ScanError>,
    /// Whether the walk stopped at the entry limit.
    pub truncated: bool,
    /// Directories looked at.
    pub directories_visited: usize,
    /// Files left out by the patterns.
    pub filtered_out: usize,
    /// Whether errors were dropped at the limit (the walk goes on).
    pub errors_truncated: bool,
}

/// Wildcard match: `*` any run of characters, `?` one character, anything else itself
/// (case sensitive).
pub open spec fn wild(p: Seq<char>, n: Seq<char>) -> bool
    decreases p.len(), n.len(),
{
    if p.len() == 0 {
        n.len() == 0
    } else if p[0] == '*' {
        wild(p.drop_first(), n) || (n.len() > 0 && wild(p, n.drop_first()))
    } else if n.len() == 0 {
        false
    } else if p[0] == '?' || p[0] == n[0] {
        wild(p.drop_first(), n.drop_first())
    } else {
        false
    }
}

fn wild_at(p: &Vec<char>, i: usize, n: &Vec<char>, j: usize) -> (r: bool)
    requires
        i <= p.len(),
        j <= n.len(),
    ensures
        r == wild(p@.subrange(i as int, p.len() as int), n@.subrange(j as int, n.len() as int)),
    decreases p.len() - i, n.len() - j,
{
    let ghost ps = p@.subrange(i as int, p.len() as int);
    let ghost ns = n@.subrange(j as int, n.len() as int);
    if i == p.len() {
        return j == n.len();
    }
    assert(ps.drop_first() =~= p@.subrange(i + 1, p.len() as int));
    assert(ps[0] == p@[i as int]);
    if j < n.len() {
        assert(ns.drop_first() =~= n@.subrange(j + 1, n.len() as int));
        assert(ns[0] == n@[j as int]);
    }
    if p[i] == '*' {
        if wild_at(p, i + 1, n, j) {
            return true;
        }
        j < n.len() && wild_at(p, i, n, j + 1)
    } else if j == n.len() {
        false
    } else if p[i] == '?' || p[i] == n[j] {
        wild_at(p, i + 1, n, j + 1)
    } else {
        false
    }
}

/// Whether `name` matches the wildcard `pattern`.
pub fn wildcard_match(pattern: &str, name: &str) -> (r: bool)
    ensures
        r == wild(pattern@, name@),
{
    let p = str_chars(pattern);
    let n = str_chars(name);
    assert(p@.subrange(0, p.len() as int) =~= p@);
    assert(n@.subrange(0, n.len() as int) =~= n@);
    wild_at(&p, 0, &n, 0)
}

/// A lone `*` matches every name.
pub proof fn lemma_star_matches_all(n: Seq<char>)
    ensures
        wild(seq!['*'], n),
    decreases n.len(),
{
    assert(seq!['*'].drop_first() =~= Seq::<char>::empty());
    assert(wild(Seq::<char>::empty(), n) == (n.len() == 0));
    if n.len() > 0 {
        lemma_star_matches_all(n.drop_first());
    }
}

/// A pattern without wildcards matches exactly itself.
pub proof fn lemma_plain_pattern_matches_itself(p: Seq<char>, n: Seq<char>)
    requires
        forall|i: int| 0 <= i < p.len() ==> #[trigger] p[i] != '*' && p[i] != '?',
    ensures
        wild(p, n) <==> p == n,
    decreases p.len(),
{
    if p.len() > 0 && n.len() > 0 {
        assert forall|i: int| 0 <= i < p.drop_first().len() implies #[trigger] p.drop_first()[i] != '*' && p.drop_first()[i] != '?' by {
            assert(p.drop_first()[i] == p[i + 1]);
        }
        lemma_plain_pattern_matches_itself(p.drop_first(), n.drop_first());
        if p == n {
            assert(p.drop_first() =~= n.drop_first());
        }
        if p[0] == n[0] && p.drop_first() == n.drop_first() {
            assert forall|i: int| 0 <= i < p.len() implies p[i] == n[i] by {
                if i > 0 {
                    assert(p[i] == p.drop_first()[i - 1]);
                    assert(n[i] == n.drop_first()[i - 1]);
                }
            }
            assert(p =~= n);
        }
    } else if p.len() > 0 {
        assert(p[0] != '*');
    } else if n.len() == 0 {
        assert(p =~= n);
    }
}

/// Some pattern of `pats` matches `name`.
pub open spec fn any_match(pats: Seq<String>, name: Seq<char>) -> bool {
    exists|i: int| 0 <= i < pats.len() && wild((#[trigger] pats[i])@, name)
}

fn any_pattern_matches(pats: &Vec<String>, name: &str) -> (r: bool)
    ensures
        r == any_match(pats@, name@),
{
    let mut i: usize = 0;
    while i < pats.len()
        invariant
            i <= pats.len(),
            forall|k: int| 0 <= k < i ==> !wild((#[trigger] pats@[k])@, name@),
        decreases pats.len() - i,
    {
        if wildcard_match(pats[i].as_str(), name) {
            return true;
        }
        i = i + 1;
    }
    false
}

/// A file name is picked when no exclude pattern matches it and the `included` list is
/// empty or one of its patterns matches.
pub open spec fn selected(name: Seq<char>, opts: ScanOptions) -> bool {
    !any_match(opts.exclude@, name) && (opts.included@.len() == 0 || any_match(opts.included@, name))
}

/// Whether a file name is picked by the patterns.
pub fn name_selected(name: &str, opts: &ScanOptions) -> (r: bool)
    ensures
        r == selected(name@, *opts),
{
    if any_pattern_matches(&opts.exclude, name) {
        return false;
    }
    opts.included.len() == 0 || any_pattern_matches(&opts.included, name)
}

/// Whether the walk enters a subdirectory at `next_depth`.
pub fn should_descend(opts: &ScanOptions, next_depth: usize) -> (r: bool)
    ensures
        r == (opts.recursive && match opts.max_depth {
            Some(m) => next_depth <= m,
            None => true,
        }),
{
    opts.recursive && match opts.max_depth {
        Some(m) => next_depth <= m,
        None => true,
    }
}

/// What happens to a file met by the walk.
#[derive(Debug, Clone, Copy, PartialEq, Eq)]
pub enum FileDecision {
    /// Left out by the patterns (counted).
    Filtered,
    /// The entry limit is reached: the result is truncated and the walk stops.
    Truncated,
    /// Read its metadata and keep it.
    Take,
}

/// The decision for a file named `name` when `entries` files are already kept.
pub fn file_decision(name: &str, opts: &ScanOptions, entries: usize) -> (r: FileDecision)
    ensures
        !selected(name@, *opts) ==> r == FileDecision::Filtered,
        selected(name@, *opts) && entries >= opts.max_entries ==> r == FileDecision::Truncated,
        selected(name@, *opts) && entries < opts.max_entries ==> r == FileDecision::Take,
{
    if !name_selected(name, opts) {
        FileDecision::Filtered
    } else if entries >= opts.max_entries {
        FileDecision::Truncated
    } else {
        FileDecision::Take
    }
}

/// Records an error of the walk. The error list has the same limit as the entries;
/// past it the error is dropped, the result says so, and the walk goes on.
pub fn record_error(result: &mut ScanResult, error: ScanError, opts: &ScanOptions)
    ensures
        old(result).errors@.len() < opts.max_entries ==> final(result).errors@ == old(result).errors@.push(error)
            && final(result).errors_truncated == old(result).errors_truncated,
        old(result).errors@.len() >= opts.max_entries ==> final(result).errors@ == old(result).errors@
            && final(result).errors_truncated,
        final(result).entries@ == old(result).entries@,
        final(result).truncated == old(result).truncated,
        final(result).directories_visited == old(result).directories_visited,
        final(result).filtered_out == old(result).filtered_out,
{
    if result.errors.len() < opts.max_entries {
        result.errors.push(error);
    } else {
        result.errors_truncated = true;
    }
}

} // verus!
