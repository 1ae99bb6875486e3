//! Checks a format definition. An invalid definition is not applied; the checks
//! return the list of problems instead.

use vstd::prelude::*;

use crate::compile::{byte_len, compile_outcome, CompileFail, CompiledBlocks, MAX_PATTERN_BYTES};
use crate::error::EngineError;
use crate::ext::{regex_new, regex_new_result, str_chars, strftime_error_result, strftime_has_error};
use crate::model::{Block, Capture, FieldKind, FormatProfile, Strategy, TimestampFormat, TimezonePolicy, SCHEMA_VERSION};
use crate::text::{strings_view, char_is_ascii_alpha, char_is_ascii_digit, chars_to_string, decimal, is_ascii_alnum, is_ascii_alpha, push_decimal, push_str, str_eq};

verus! {

/// Longest allowed name, in bytes.
pub const MAX_NAME_LEN: usize = 64;

/// Most blocks a definition may hold, nested ones included.
pub const MAX_BLOCKS: usize = 256;

/// One problem. `path` locates it in the definition (for example `blocks[3].name`).
#[derive(Debug, PartialEq, Eq)]
pub struct ValidationIssue {
    /// Place in the definition.
    pub path: String,
    /// Description.
    pub message: String,
}

impl Clone for ValidationIssue {
    fn clone(&self) -> (r: Self)
        ensures
            r == *self,
    {
        ValidationIssue { path: self.path.clone(), message: self.message.clone() }
    }
}

/// A problem as (path, message).
pub type IssueView = (Seq<char>, Seq<char>);

/// The (path, message) of each issue.
pub open spec fn issues_view(v: Seq<ValidationIssue>) -> Seq<IssueView> {
    v.map_values(|i: ValidationIssue| (i.path@, i.message@))
}

/// A character allowed after the first in a field name.
pub open spec fn field_name_char(c: char) -> bool {
    is_ascii_alnum(c) || c == '_' || c == '-'
}

/// Field name rule: a letter or underscore, then letters, digits, underscores and
/// hyphens; at most 64 bytes.
pub open spec fn valid_field_name(s: Seq<char>) -> bool {
    &&& s.len() > 0
    &&& is_ascii_alpha(s[0]) || s[0] == '_'
    &&& byte_len(s) <= MAX_NAME_LEN
    &&& forall|i: int| 1 <= i < s.len() ==> field_name_char(#[trigger] s[i])
}

/// A character allowed in a profile name.
pub open spec fn profile_name_char(c: char) -> bool {
    is_ascii_alnum(c) || c == '_' || c == '-' || c == '.'
}

/// Profile name rule (the name must serve as a file name): 1 to 64 bytes of letters,
/// digits, underscores, hyphens and dots, not starting with a dot.
pub open spec fn valid_profile_name(s: Seq<char>) -> bool {
    &&& s.len() > 0
    &&& byte_len(s) <= MAX_NAME_LEN
    &&& forall|i: int| 0 <= i < s.len() ==> profile_name_char(#[trigger] s[i])
    &&& s[0] != '.'
}

/// A strftime pattern chrono can read: not empty and without an invalid specifier.
pub open spec fn valid_strftime(p: Seq<char>) -> bool {
    p.len() > 0 && !strftime_error_result(p)
}

fn char_is_ascii_alnum(c: char) -> (r: bool)
    ensures
        r == is_ascii_alnum(c),
{
    char_is_ascii_alpha(c) || char_is_ascii_digit(c)
}

/// Checks the field name rule.
pub fn is_valid_field_name(name: &str) -> (r: bool)
    ensures
        r == valid_field_name(name@),
{
    let c = str_chars(name);
    if c.len() == 0 {
        return false;
    }
    if !(char_is_ascii_alpha(c[0]) || c[0] == '_') {
        return false;
    }
    if name.len() > MAX_NAME_LEN {
        return false;
    }
    let mut i: usize = 1;
    while i < c.len()
        invariant
            c@ == name@,
            1 <= i <= c.len(),
            forall|k: int| 1 <= k < i ==> field_name_char(#[trigger] c@[k]),
        decreases c.len() - i,
    {
        let ch = c[i];
        if !(char_is_ascii_alnum(ch) || ch == '_' || ch == '-') {
            assert(!field_name_char(c@[i as int]));
            return false;
        }
        i = i + 1;
    }
    true
}

/// Checks the profile name rule.
pub fn is_valid_profile_name(name: &str) -> (r: bool)
    ensures
        r == valid_profile_name(name@),
{
    let c = str_chars(name);
    if c.len() == 0 || name.len() > MAX_NAME_LEN {
        return false;
    }
    let mut i: usize = 0;
    while i < c.len()
        invariant
            c@ == name@,
            i <= c.len(),
            forall|k: int| 0 <= k < i ==> profile_name_char(#[trigger] c@[k]),
        decreases c.len() - i,
    {
        let ch = c[i];
        if !(char_is_ascii_alnum(ch) || ch == '_' || ch == '-' || ch == '.') {
            assert(!profile_name_char(c@[i as int]));
            return false;
        }
        i = i + 1;
    }
    c[0] != '.'
}

/// Whether chrono can read the strftime pattern.
pub fn is_valid_strftime(pattern: &str) -> (r: bool)
    ensures
        r == valid_strftime(pattern@),
{
    !pattern.is_empty() && !strftime_has_error(pattern)
}

/// Problems with a user regex at `path`: empty, too long, or not compiling.
pub open spec fn pattern_issues(p: Seq<char>, path: Seq<char>) -> Seq<IssueView> {
    if p.len() == 0 {
        seq![(path, "정규식이 비어 있음"@)]
    } else if byte_len(p) > MAX_PATTERN_BYTES {
        seq![(path, "정규식이 상한 16384바이트를 넘음"@)]
    } else {
        match regex_new_result(p) {
            Err(e) => seq![(path, "정규식 오류: "@ + e)],
            Ok(_) => seq![],
        }
    }
}

/// What a block walk has gathered: the issues, the field names taken, the blocks counted.
pub type WalkState = (Seq<IssueView>, Seq<Seq<char>>, nat);

/// The path of the `i`-th element of the list at `path`.
pub open spec fn index_path(path: Seq<char>, i: int) -> Seq<char> {
    path + "["@ + decimal(i as nat) + "]"@
}

/// The walk over a block list at nesting `depth` (deeper than 8 is one problem).
pub open spec fn walk_list(bs: Seq<Block>, path: Seq<char>, st: WalkState, depth: nat) -> WalkState
    decreases bs, 2int, 0int,
{
    if depth > 8 {
        (st.0.push((path, "블록 중첩이 너무 깊음"@)), st.1, st.2)
    } else {
        walk_prefix(bs, bs.len() as int, path, st, depth)
    }
}

/// The walk over the first `n` blocks of `bs`.
pub open spec fn walk_prefix(bs: Seq<Block>, n: int, path: Seq<char>, st: WalkState, depth: nat) -> WalkState
    decreases bs, 1int, n,
{
    if n <= 0 || n > bs.len() {
        st
    } else {
        walk_block(bs[n - 1], index_path(path, n - 1), walk_prefix(bs, n - 1, path, st, depth), depth)
    }
}

/// The walk over one field definition at path `p`.
pub open spec fn walk_field(name: Seq<char>, kind: FieldKind, capture: Capture, p: Seq<char>, st: WalkState) -> WalkState {
    let np = p + ".name"@;
    let s1: WalkState = if !valid_field_name(name) {
        (st.0.push((np, "필드 이름은 영문자/밑줄로 시작하고 영문자·숫자·밑줄·하이픈만 허용"@)), st.1, st.2)
    } else if st.1.contains(name) {
        (st.0.push((np, "필드 이름 중복: "@ + name)), st.1, st.2)
    } else {
        (st.0, st.1.push(name), st.2)
    };
    let s2: WalkState = match capture {
        Capture::Pattern { pattern } => (s1.0 + pattern_issues(pattern@, p + ".capture.pattern"@), s1.1, s1.2),
        _ => s1,
    };
    match kind {
        FieldKind::Timestamp { format: TimestampFormat::Custom { pattern } } => if !valid_strftime(pattern@) {
            (s2.0.push((p + ".kind.format.pattern"@, "strftime 패턴을 해석할 수 없음"@)), s2.1, s2.2)
        } else {
            s2
        },
        _ => s2,
    }
}

/// The walk over one block at path `p` (each block counts once).
pub open spec fn walk_block(b: Block, p: Seq<char>, st0: WalkState, depth: nat) -> WalkState
    decreases b, 0int, 0int,
{
    let st: WalkState = (st0.0, st0.1, st0.2 + 1);
    match b {
        Block::Literal { text } => if text@.len() == 0 {
            (st.0.push((p + ".text"@, "고정 문자열이 비어 있음"@)), st.1, st.2)
        } else {
            st
        },
        Block::Whitespace => st,
        Block::Field(def) => walk_field(def.name@, def.kind, def.capture, p, st),
        Block::OptionalGroup { blocks } => {
            let s1: WalkState = if blocks@.len() == 0 {
                (st.0.push((p + ".blocks"@, "선택 그룹이 비어 있음"@)), st.1, st.2)
            } else {
                st
            };
            walk_list(blocks@, p + ".blocks"@, s1, depth + 1)
        },
        Block::Regex { pattern } => (st.0 + pattern_issues(pattern@, p + ".pattern"@), st.1, st.2),
    }
}

/// The display text of the error a failed compilation gives.
pub open spec fn fail_text(f: CompileFail) -> Seq<char> {
    match f {
        CompileFail::Format(m) => "포맷 정의 오류: "@ + m,
        CompileFail::Limit(m) => "한도 초과: "@ + m,
        CompileFail::Regex(m) => "정규식 컴파일 실패: "@ + m,
    }
}

/// The issue list of a block strategy, following those found before it (`before`).
pub open spec fn blocks_issues(blocks: Seq<Block>, before: Seq<IssueView>) -> Seq<IssueView> {
    let e = before + if blocks.len() == 0 { seq![("blocks"@, "블록이 하나도 없음"@)] } else { seq![] };
    let st = walk_list(blocks, "blocks"@, (e, seq![], 0), 0);
    let f = st.0 + if st.2 > MAX_BLOCKS { seq![("blocks"@, "블록 수가 상한 256를 넘음"@)] } else { seq![] };
    let g = f + if st.1.len() == 0 { seq![("blocks"@, "필드 블록이 하나 이상 필요함"@)] } else { seq![] };
    if g.len() == 0 {
        match compile_outcome(blocks) {
            Err(fl) => seq![("blocks"@, fail_text(fl))],
            Ok(_) => seq![],
        }
    } else {
        g
    }
}

/// All problems of a profile, in the order they are reported.
pub open spec fn profile_issues(p: FormatProfile) -> Seq<IssueView> {
    match p.strategy {
        Strategy::W3c => profile_issues_head(p),
        Strategy::Blocks { blocks } => blocks_issues(blocks@, profile_issues_head(p)),
    }
}

/// Appends an issue.
fn push_issue(out: &mut Vec<ValidationIssue>, path: &str, message: &str)
    ensures
        issues_view(final(out)@) == issues_view(old(out)@).push((path@, message@)),
{
    let ghost before = out@;
    out.push(ValidationIssue { path: path.to_owned(), message: message.to_owned() });
    assert(issues_view(out@) =~= issues_view(before).push((path@, message@)));
}

/// `path` followed by `suffix`.
fn joined(path: &str, suffix: &str) -> (r: String)
    ensures
        r@ == path@ + suffix@,
{
    let mut v: Vec<char> = Vec::new();
    push_str(&mut v, path);
    push_str(&mut v, suffix);
    chars_to_string(&v)
}

/// Appends the problems of a user regex.
fn check_pattern(pattern: &str, path: &str, out: &mut Vec<ValidationIssue>)
    ensures
        issues_view(final(out)@) == issues_view(old(out)@) + pattern_issues(pattern@, path@),
{
    let ghost before = issues_view(out@);
    if pattern.is_empty() {
        push_issue(out, path, "정규식이 비어 있음");
        return;
    }
    assert(pattern.len() == byte_len(pattern@));
    if pattern.len() > MAX_PATTERN_BYTES {
        push_issue(out, path, "정규식이 상한 16384바이트를 넘음");
        return;
    }
    match regex_new(pattern) {
        Err(e) => {
            let m = joined("정규식 오류: ", e.as_str());
            push_issue(out, path, m.as_str());
        },
        Ok(_) => {
            assert(before + seq![] =~= before);
        },
    }
}

/// Whether `names` holds `name`.
fn names_contain(names: &Vec<String>, name: &str) -> (r: bool)
    ensures
        r == strings_view(names@).contains(name@),
{
    let mut i: usize = 0;
    while i < names.len()
        invariant
            i <= names.len(),
            forall|k: int| 0 <= k < i ==> (#[trigger] names@[k])@ != name@,
        decreases names.len() - i,
    {
        if str_eq(names[i].as_str(), name) {
            assert(strings_view(names@)[i as int] == name@);
            return true;
        }
        i = i + 1;
    }
    assert forall|k: int| 0 <= k < strings_view(names@).len() implies strings_view(names@)[k] != name@ by {
        assert(strings_view(names@)[k] == names@[k]@);
    }
    false
}

/// The exec state `(out, names, count)` stands for the walk state `st` (the count is
/// kept only up to one past the limit).
pub open spec fn walk_matches(out: Seq<ValidationIssue>, names: Seq<String>, count: usize, st: WalkState) -> bool {
    &&& issues_view(out) == st.0
    &&& strings_view(names) == st.1
    &&& count as nat == if st.2 > MAX_BLOCKS { (MAX_BLOCKS + 1) as nat } else { st.2 }
}

/// Checks one field definition.
fn check_field(def: &crate::model::FieldDef, p: &str, out: &mut Vec<ValidationIssue>, names: &mut Vec<String>, Ghost(st): Ghost<WalkState>, count: usize)
    requires
        walk_matches(old(out)@, old(names)@, count, st),
    ensures
        walk_matches(final(out)@, final(names)@, count, walk_field(def.name@, def.kind, def.capture, p@, st)),
{
    let np = joined(p, ".name");
    if !is_valid_field_name(def.name.as_str()) {
        push_issue(out, np.as_str(), "필드 이름은 영문자/밑줄로 시작하고 영문자·숫자·밑줄·하이픈만 허용");
    } else if names_contain(names, def.name.as_str()) {
        let m = joined("필드 이름 중복: ", def.name.as_str());
        push_issue(out, np.as_str(), m.as_str());
    } else {
        let ghost nb = names@;
        names.push(def.name.clone());
        assert(strings_view(names@) =~= strings_view(nb).push(def.name@));
    }
    if let Capture::Pattern { pattern } = &def.capture {
        let pp = joined(p, ".capture.pattern");
        check_pattern(pattern.as_str(), pp.as_str(), out);
    }
    if let FieldKind::Timestamp { format: TimestampFormat::Custom { pattern } } = &def.kind {
        if !is_valid_strftime(pattern.as_str()) {
            let pp = joined(p, ".kind.format.pattern");
            push_issue(out, pp.as_str(), "strftime 패턴을 해석할 수 없음");
        }
    }
}

/// The path of element `i` of the list at `path`.
fn element_path(path: &str, i: usize) -> (r: String)
    ensures
        r@ == index_path(path@, i as int),
{
    let mut v: Vec<char> = Vec::new();
    push_str(&mut v, path);
    v.push('[');
    push_decimal(&mut v, i as u64);
    v.push(']');
    proof {
        reveal_strlit("[");
        reveal_strlit("]");
    }
    assert(v@ =~= path@ + "["@ + decimal(i as nat) + "]"@);
    chars_to_string(&v)
}

/// Walks a block list, appending its problems and taking its field names.
fn check_blocks(
    blocks: &[Block],
    path: &str,
    out: &mut Vec<ValidationIssue>,
    names: &mut Vec<String>,
    count: &mut usize,
    depth: usize,
    Ghost(st): Ghost<WalkState>,
)
    requires
        walk_matches(old(out)@, old(names)@, *old(count), st),
        depth <= 9,
    ensures
        walk_matches(final(out)@, final(names)@, *final(count), walk_list(blocks@, path@, st, depth as nat)),
    decreases blocks@, 2int, 0int,
{
    if depth > 8 {
        push_issue(out, path, "블록 중첩이 너무 깊음");
        return;
    }
    let mut i: usize = 0;
    while i < blocks.len()
        invariant
            i <= blocks.len(),
            depth <= 8,
            walk_matches(out@, names@, *count, walk_prefix(blocks@, i as int, path@, st, depth as nat)),
        decreases blocks.len() - i,
    {
        let ghost cur = walk_prefix(blocks@, i as int, path@, st, depth as nat);
        let ghost st1: WalkState = (cur.0, cur.1, cur.2 + 1);
        if *count <= MAX_BLOCKS {
            *count = *count + 1;
        }
        assert(walk_matches(out@, names@, *count, st1));
        let p = element_path(path, i);
        proof {
            assert(decreases_to!(blocks@ => blocks@[i as int]));
        }
        match &blocks[i] {
            Block::Literal { text } => {
                if text.as_str().is_empty() {
                    let pp = joined(p.as_str(), ".text");
                    push_issue(out, pp.as_str(), "고정 문자열이 비어 있음");
                }
            },
            Block::Whitespace => {},
            Block::Field(def) => {
                check_field(def, p.as_str(), out, names, Ghost(st1), *count);
            },
            Block::OptionalGroup { blocks: inner } => {
                proof {
                    assert(decreases_to!(blocks@[i as int] => inner@));
                }
                let pp = joined(p.as_str(), ".blocks");
                if inner.len() == 0 {
                    push_issue(out, pp.as_str(), "선택 그룹이 비어 있음");
                }
                let ghost s1: WalkState = if inner@.len() == 0 {
                    (st1.0.push((p@ + ".blocks"@, "선택 그룹이 비어 있음"@)), st1.1, st1.2)
                } else {
                    st1
                };
                check_blocks(inner.as_slice(), pp.as_str(), out, names, count, depth + 1, Ghost(s1));
            },
            Block::Regex { pattern } => {
                let pp = joined(p.as_str(), ".pattern");
                check_pattern(pattern.as_str(), pp.as_str(), out);
            },
        }
        proof {
            assert(walk_prefix(blocks@, i + 1, path@, st, depth as nat) == walk_block(blocks@[i as int], p@, cur, depth as nat));
        }
        i = i + 1;
    }
}

impl FormatProfile {
    /// Checks the definition. No issue means it is valid.
    pub fn validate(&self) -> (r: Vec<ValidationIssue>)
        ensures
            issues_view(r@) == profile_issues(*self),
    {
        let mut out: Vec<ValidationIssue> = Vec::new();
        assert(issues_view(out@) =~= seq![]);
        if self.schema_version != SCHEMA_VERSION {
            push_issue(&mut out, "schema_version", "지원하는 스키마 버전은 1");
        }
        if !is_valid_profile_name(self.name.as_str()) {
            push_issue(&mut out, "name", "이름은 1~64자의 영문자·숫자·밑줄·하이픈·마침표여야 함");
        }
        if self.version == 0 {
            push_issue(&mut out, "version", "버전은 1 이상");
        }
        if let TimezonePolicy::Fixed { offset_seconds } = self.timezone {
            if !(-64800 <= offset_seconds && offset_seconds <= 64800) {
                push_issue(&mut out, "timezone.offset_seconds", "오프셋은 ±18시간 이내");
            }
        }
        let ghost d = issues_view(out@);
        assert(d =~= profile_issues_head(*self));
        match &self.strategy {
            Strategy::W3c => {},
            Strategy::Blocks { blocks } => {
                if blocks.len() == 0 {
                    push_issue(&mut out, "blocks", "블록이 하나도 없음");
                }
                let ghost e = issues_view(out@);
                let mut names: Vec<String> = Vec::new();
                let mut count: usize = 0;
                assert(strings_view(names@) =~= Seq::<Seq<char>>::empty());
                check_blocks(blocks.as_slice(), "blocks", &mut out, &mut names, &mut count, 0, Ghost((e, Seq::empty(), 0nat)));
                if count > MAX_BLOCKS {
                    push_issue(&mut out, "blocks", "블록 수가 상한 256를 넘음");
                }
                if names.len() == 0 {
                    push_issue(&mut out, "blocks", "필드 블록이 하나 이상 필요함");
                }
                if out.len() == 0 {
                    match CompiledBlocks::compile(blocks.as_slice()) {
                        Err(e) => {
                            let m = e.message();
                            push_issue(&mut out, "blocks", m.as_str());
                        },
                        Ok(_) => {},
                    }
                }
            },
        }
        out
    }

    /// The first problem as an error when the definition is invalid.
    pub fn ensure_valid(&self) -> (r: Result<(), EngineError>)
        ensures
            profile_issues(*self).len() == 0 ==> r is Ok,
            profile_issues(*self).len() > 0 ==> (r matches Err(EngineError::Format(m))
                && m@ == first_issue_text(profile_issues(*self))),
    {
        let issues = self.validate();
        if issues.len() == 0 {
            return Ok(());
        }
        let ghost iv = issues_view(issues@);
        assert(iv[0] == (issues@[0].path@, issues@[0].message@));
        let mut v: Vec<char> = Vec::new();
        push_str(&mut v, issues[0].path.as_str());
        push_str(&mut v, " — ");
        push_str(&mut v, issues[0].message.as_str());
        if issues.len() > 1 {
            push_str(&mut v, " (외 ");
            push_decimal(&mut v, (issues.len() - 1) as u64);
            push_str(&mut v, "건)");
        } else {
            assert(v@ + seq![] =~= v@);
        }
        Err(EngineError::Format(chars_to_string(&v)))
    }
}

/// The message of the error for a non-empty issue list: the first issue and how many follow.
pub open spec fn first_issue_text(v: Seq<IssueView>) -> Seq<char> {
    v[0].0 + " — "@ + v[0].1 + if v.len() > 1 {
        " (외 "@ + decimal((v.len() - 1) as nat) + "건)"@
    } else {
        seq![]
    }
}

/// The issues of a profile found before its strategy is looked at.
pub open spec fn profile_issues_head(p: FormatProfile) -> Seq<IssueView> {
    let a: Seq<IssueView> = if p.schema_version != SCHEMA_VERSION {
        seq![("schema_version"@, "지원하는 스키마 버전은 1"@)]
    } else {
        seq![]
    };
    let b = a + if !valid_profile_name(p.name@) {
        seq![("name"@, "이름은 1~64자의 영문자·숫자·밑줄·하이픈·마침표여야 함"@)]
    } else {
        seq![]
    };
    let c = b + if p.version == 0 { seq![("version"@, "버전은 1 이상"@)] } else { seq![] };
    c + match p.timezone {
        TimezonePolicy::Fixed { offset_seconds } => if !(-64800 <= offset_seconds <= 64800) {
            seq![("timezone.offset_seconds"@, "오프셋은 ±18시간 이내"@)]
        } else {
            seq![]
        },
        _ => seq![],
    }
}

proof fn lemma_walk_list_grows(bs: Seq<Block>, path: Seq<char>, st: WalkState, depth: nat)
    ensures
        walk_list(bs, path, st, depth).0.len() >= st.0.len(),
    decreases bs, 2int, 0int,
{
    if depth <= 8 {
        lemma_walk_prefix_grows(bs, bs.len() as int, path, st, depth);
    }
}

proof fn lemma_walk_prefix_grows(bs: Seq<Block>, n: int, path: Seq<char>, st: WalkState, depth: nat)
    ensures
        walk_prefix(bs, n, path, st, depth).0.len() >= st.0.len(),
    decreases bs, 1int, n,
{
    if 0 < n <= bs.len() {
        lemma_walk_prefix_grows(bs, n - 1, path, st, depth);
        lemma_walk_block_grows(bs[n - 1], index_path(path, n - 1), walk_prefix(bs, n - 1, path, st, depth), depth);
    }
}

proof fn lemma_walk_block_grows(b: Block, p: Seq<char>, st0: WalkState, depth: nat)
    ensures
        walk_block(b, p, st0, depth).0.len() >= st0.0.len(),
    decreases b, 0int, 0int,
{
    let st: WalkState = (st0.0, st0.1, st0.2 + 1);
    match b {
        Block::OptionalGroup { blocks } => {
            let s1: WalkState = if blocks@.len() == 0 {
                (st.0.push((p + ".blocks"@, "선택 그룹이 비어 있음"@)), st.1, st.2)
            } else {
                st
            };
            lemma_walk_list_grows(blocks@, p + ".blocks"@, s1, depth + 1);
        },
        _ => {},
    }
}

/// A profile without problems has the supported schema version, a valid name, a version
/// of at least one and a fixed offset within ±18 hours, and its blocks (for a block
/// strategy) compile, so a line parser can be made from it.
pub proof fn lemma_valid_profile_compiles(p: FormatProfile)
    requires
        profile_issues(p).len() == 0,
    ensures
        p.schema_version == SCHEMA_VERSION,
        valid_profile_name(p.name@),
        p.version >= 1,
        p.timezone matches TimezonePolicy::Fixed { offset_seconds } ==> -64800 <= offset_seconds <= 64800,
        p.strategy matches Strategy::Blocks { blocks } ==> compile_outcome(blocks@) is Ok,
{
    let head = profile_issues_head(p);
    match p.strategy {
        Strategy::W3c => {},
        Strategy::Blocks { blocks } => {
            let bs = blocks@;
            let e = head + if bs.len() == 0 { seq![("blocks"@, "블록이 하나도 없음"@)] } else { seq![] };
            lemma_walk_list_grows(bs, "blocks"@, (e, seq![], 0), 0);
            let st = walk_list(bs, "blocks"@, (e, seq![], 0), 0);
            let f = st.0 + if st.2 > MAX_BLOCKS { seq![("blocks"@, "블록 수가 상한 256를 넘음"@)] } else { seq![] };
            let g = f + if st.1.len() == 0 { seq![("blocks"@, "필드 블록이 하나 이상 필요함"@)] } else { seq![] };
            assert(g.len() >= head.len());
            assert(blocks_issues(bs, head) == if g.len() == 0 {
                match compile_outcome(bs) {
                    Err(fl) => seq![("blocks"@, fail_text(fl))],
                    Ok(_) => seq![],
                }
            } else {
                g
            });
        },
    }
}

/// The built-in W3C preset has no problems.
pub proof fn lemma_w3c_preset_valid(p: FormatProfile)
    requires
        crate::presets::is_w3c_profile(p),
    ensures
        profile_issues(p).len() == 0,
{
    reveal_strlit("iis_w3c");
    let n = "iis_w3c"@;
    assert(vstd::utf8::is_ascii_chars(n));
    vstd::utf8::is_ascii_chars_encode_utf8(n);
    assert(valid_profile_name(n));
    assert(profile_issues_head(p) =~= Seq::<IssueView>::empty());
}

/// A whitespace block only counts.
proof fn lemma_walk_whitespace(b: Block, p: Seq<char>, st: WalkState, depth: nat)
    requires
        b is Whitespace,
    ensures
        walk_block(b, p, st, depth) == (st.0, st.1, st.2 + 1),
{
}

/// A field block with a valid name not seen before, a capture with no pattern and a kind
/// that needs none: the walk records the name and counts the block.
proof fn lemma_walk_plain_field(b: Block, name: Seq<char>, p: Seq<char>, st: WalkState, depth: nat)
    requires
        b matches Block::Field(d) && d.name@ == name && !(d.capture is Pattern)
            && !(d.kind matches FieldKind::Timestamp { format: TimestampFormat::Custom { .. } }),
        valid_field_name(name),
        !st.1.contains(name),
    ensures
        walk_block(b, p, st, depth) == (st.0, st.1.push(name), st.2 + 1),
{
}

/// A name of ASCII letters and underscores, starting with a letter, short enough, is a
/// valid field name.
proof fn lemma_ascii_field_name(n: Seq<char>)
    requires
        0 < n.len() <= 64,
        is_ascii_alpha(n[0]),
        forall|i: int| 0 <= i < n.len() ==> is_ascii_alpha(#[trigger] n[i]) || n[i] == '_',
    ensures
        valid_field_name(n),
{
    assert(vstd::utf8::is_ascii_chars(n)) by {
        assert forall|i: int| 0 <= i < n.len() implies (#[trigger] n[i]) as u32 <= 0x7f by {
            assert(is_ascii_alpha(n[i]) || n[i] == '_');
        }
    }
    vstd::utf8::is_ascii_chars_encode_utf8(n);
    assert forall|i: int| 1 <= i < n.len() implies field_name_char(#[trigger] n[i]) by {
        assert(is_ascii_alpha(n[i]) || n[i] == '_');
    }
}

/// The walk over the Common blocks finds no problem: it records the seven field names and
/// counts thirteen blocks.
proof fn lemma_walk_common(bs: Seq<Block>, path: Seq<char>, st: WalkState)
    requires
        crate::presets::is_common_blocks(bs),
        st.1.len() == 0,
    ensures
        walk_prefix(bs, 13, path, st, 0) == (
            st.0,
            seq!["client_ip"@, "ident"@, "remote_user"@, "timestamp"@, "request"@, "status"@, "bytes_sent"@],
            st.2 + 13,
        ),
{
    reveal_strlit("client_ip");
    reveal_strlit("ident");
    reveal_strlit("remote_user");
    reveal_strlit("timestamp");
    reveal_strlit("request");
    reveal_strlit("status");
    reveal_strlit("bytes_sent");
    let n0 = "client_ip"@;
    let n1 = "ident"@;
    let n2 = "remote_user"@;
    let n3 = "timestamp"@;
    let n4 = "request"@;
    let n5 = "status"@;
    let n6 = "bytes_sent"@;
    lemma_ascii_field_name(n0);
    lemma_ascii_field_name(n1);
    lemma_ascii_field_name(n2);
    lemma_ascii_field_name(n3);
    lemma_ascii_field_name(n4);
    lemma_ascii_field_name(n5);
    lemma_ascii_field_name(n6);
    let w = |k: int| walk_prefix(bs, k, path, st, 0);
    let s0 = st;
    assert(w(0) == s0);
    let s1 = (st.0, seq![n0], st.2 + 1);
    lemma_walk_plain_field(bs[0], n0, index_path(path, 0), s0, 0);
    assert(s0.1.push(n0) =~= s1.1);
    assert(w(1) == s1);
    let s2 = (st.0, s1.1, st.2 + 2);
    lemma_walk_whitespace(bs[1], index_path(path, 1), s1, 0);
    assert(w(2) == s2);
    let s3 = (st.0, seq![n0, n1], st.2 + 3);
    assert(!s2.1.contains(n1)) by {
        assert(s2.1[0].len() != n1.len());
    }
    lemma_walk_plain_field(bs[2], n1, index_path(path, 2), s2, 0);
    assert(s2.1.push(n1) =~= s3.1);
    assert(w(3) == s3);
    let s4 = (st.0, s3.1, st.2 + 4);
    lemma_walk_whitespace(bs[3], index_path(path, 3), s3, 0);
    assert(w(4) == s4);
    let s5 = (st.0, seq![n0, n1, n2], st.2 + 5);
    assert(!s4.1.contains(n2)) by {
        assert(s4.1[0].len() != n2.len() && s4.1[1].len() != n2.len());
    }
    lemma_walk_plain_field(bs[4], n2, index_path(path, 4), s4, 0);
    assert(s4.1.push(n2) =~= s5.1);
    assert(w(5) == s5);
    let s6 = (st.0, s5.1, st.2 + 6);
    lemma_walk_whitespace(bs[5], index_path(path, 5), s5, 0);
    assert(w(6) == s6);
    let s7 = (st.0, seq![n0, n1, n2, n3], st.2 + 7);
    assert(!s6.1.contains(n3)) by {
        assert(s6.1[0][0] != n3[0]);
        assert(s6.1[1].len() != n3.len() && s6.1[2].len() != n3.len());
    }
    lemma_walk_plain_field(bs[6], n3, index_path(path, 6), s6, 0);
    assert(s6.1.push(n3) =~= s7.1);
    assert(w(7) == s7);
    let s8 = (st.0, s7.1, st.2 + 8);
    lemma_walk_whitespace(bs[7], index_path(path, 7), s7, 0);
    assert(w(8) == s8);
    let s9 = (st.0, seq![n0, n1, n2, n3, n4], st.2 + 9);
    assert(!s8.1.contains(n4)) by {
        assert(s8.1[0].len() != n4.len() && s8.1[1].len() != n4.len() && s8.1[2].len() != n4.len()
            && s8.1[3].len() != n4.len());
    }
    lemma_walk_plain_field(bs[8], n4, index_path(path, 8), s8, 0);
    assert(s8.1.push(n4) =~= s9.1);
    assert(w(9) == s9);
    let s10 = (st.0, s9.1, st.2 + 10);
    lemma_walk_whitespace(bs[9], index_path(path, 9), s9, 0);
    assert(w(10) == s10);
    let s11 = (st.0, seq![n0, n1, n2, n3, n4, n5], st.2 + 11);
    assert(!s10.1.contains(n5)) by {
        assert(s10.1[0].len() != n5.len() && s10.1[1].len() != n5.len() && s10.1[2].len() != n5.len()
            && s10.1[3].len() != n5.len() && s10.1[4].len() != n5.len());
    }
    lemma_walk_plain_field(bs[10], n5, index_path(path, 10), s10, 0);
    assert(s10.1.push(n5) =~= s11.1);
    assert(w(11) == s11);
    let s12 = (st.0, s11.1, st.2 + 12);
    lemma_walk_whitespace(bs[11], index_path(path, 11), s11, 0);
    assert(w(12) == s12);
    let s13 = (st.0, seq![n0, n1, n2, n3, n4, n5, n6], st.2 + 13);
    assert(!s12.1.contains(n6)) by {
        assert(s12.1[0].len() != n6.len() && s12.1[1].len() != n6.len() && s12.1[2].len() != n6.len()
            && s12.1[3].len() != n6.len() && s12.1[4].len() != n6.len() && s12.1[5].len() != n6.len());
    }
    lemma_walk_plain_field(bs[12], n6, index_path(path, 12), s12, 0);
    assert(s12.1.push(n6) =~= s13.1);
    assert(w(13) == s13);
}

/// The walk over the Combined blocks finds no problem: it records the nine field names and
/// counts seventeen blocks.
proof fn lemma_walk_combined(bs: Seq<Block>, path: Seq<char>, st: WalkState)
    requires
        crate::presets::is_combined_blocks(bs),
        st.1.len() == 0,
    ensures
        walk_prefix(bs, 17, path, st, 0).0 == st.0,
        walk_prefix(bs, 17, path, st, 0).1.len() == 9,
        walk_prefix(bs, 17, path, st, 0).2 == st.2 + 17,
{
    lemma_walk_common(bs, path, st);
    reveal_strlit("client_ip");
    reveal_strlit("ident");
    reveal_strlit("remote_user");
    reveal_strlit("timestamp");
    reveal_strlit("request");
    reveal_strlit("status");
    reveal_strlit("bytes_sent");
    reveal_strlit("referrer");
    reveal_strlit("user_agent");
    let n7 = "referrer"@;
    let n8 = "user_agent"@;
    lemma_ascii_field_name(n7);
    lemma_ascii_field_name(n8);
    let w = |k: int| walk_prefix(bs, k, path, st, 0);
    let s13 = w(13);
    let s14 = (st.0, s13.1, st.2 + 14);
    lemma_walk_whitespace(bs[13], index_path(path, 13), s13, 0);
    assert(w(14) == s14);
    let s15 = (st.0, s13.1.push(n7), st.2 + 15);
    assert(!s14.1.contains(n7)) by {
        assert forall|k: int| 0 <= k < s14.1.len() implies s14.1[k] != n7 by {
            assert(s14.1[k].len() != n7.len());
        }
    }
    lemma_walk_plain_field(bs[14], n7, index_path(path, 14), s14, 0);
    assert(w(15) == s15);
    let s16 = (st.0, s15.1, st.2 + 16);
    lemma_walk_whitespace(bs[15], index_path(path, 15), s15, 0);
    assert(w(16) == s16);
    assert(!s16.1.contains(n8)) by {
        assert forall|k: int| 0 <= k < s16.1.len() implies s16.1[k] != n8 by {
            if k == 6 {
                assert(s16.1[k][0] != n8[0]);
            } else {
                assert(s16.1[k].len() != n8.len());
            }
        }
    }
    lemma_walk_plain_field(bs[16], n8, index_path(path, 16), s16, 0);
    assert(w(17) == (st.0, s16.1.push(n8), st.2 + 17));
}

/// A built-in block preset (Common or Combined, with any server hint) has no problem of
/// its own: its issue list is what compiling its blocks says, and nothing else.
pub proof fn lemma_block_preset_issues(p: FormatProfile, hint: crate::model::ServerHint)
    requires
        crate::presets::is_common_profile(p, hint) || crate::presets::is_combined_profile(p, hint),
    ensures
        p.strategy matches Strategy::Blocks { blocks } && profile_issues(p) == match compile_outcome(blocks@) {
            Err(fl) => seq![("blocks"@, fail_text(fl))],
            Ok(_) => Seq::<IssueView>::empty(),
        },
{
    reveal_strlit("common");
    reveal_strlit("combined");
    let n = p.name@;
    assert(vstd::utf8::is_ascii_chars(n));
    vstd::utf8::is_ascii_chars_encode_utf8(n);
    assert(valid_profile_name(n));
    let head = profile_issues_head(p);
    assert(head =~= Seq::<IssueView>::empty());
    match p.strategy {
        Strategy::Blocks { blocks } => {
            let bs = blocks@;
            let e = head + if bs.len() == 0 { seq![("blocks"@, "블록이 하나도 없음"@)] } else { Seq::<IssueView>::empty() };
            assert(e =~= Seq::<IssueView>::empty());
            let st0: WalkState = (e, seq![], 0);
            if crate::presets::is_combined_profile(p, hint) {
                lemma_walk_combined(bs, "blocks"@, st0);
            } else {
                lemma_walk_common(bs, "blocks"@, st0);
            }
            let st = walk_list(bs, "blocks"@, st0, 0);
            assert(st.0 == e && st.1.len() > 0 && st.2 <= MAX_BLOCKS);
            let f = st.0 + if st.2 > MAX_BLOCKS { seq![("blocks"@, "블록 수가 상한 256를 넘음"@)] } else { Seq::<IssueView>::empty() };
            let g = f + if st.1.len() == 0 { seq![("blocks"@, "필드 블록이 하나 이상 필요함"@)] } else { Seq::<IssueView>::empty() };
            assert(g =~= Seq::<IssueView>::empty());
        },
        _ => {},
    }
}

} // verus!
