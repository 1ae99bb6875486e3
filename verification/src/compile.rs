//! Compiles a block definition into one anchored regular expression. A profile is
//! compiled once; each line is then matched against the pattern.

use vstd::prelude::*;

use crate::error::EngineError;
use crate::ext::{regex_build_result, regex_captures_result, str_chars, CompiledRegex};
use crate::model::{same_field, Block, Capture, FieldDef};
use crate::text::{chars_to_string, decimal, is_ascii_digit, push_decimal, push_str, str_eq};

verus! {

/// Upper bound on the byte length of a compiled pattern and of a user regex fragment.
pub const MAX_PATTERN_BYTES: usize = 16 * 1024;

/// Deepest allowed nesting of optional groups.
pub const MAX_NESTING: usize = 8;

/// UTF-8 byte length of a text.
pub open spec fn byte_len(s: Seq<char>) -> nat {
    (vstd::utf8::encode_utf8(s).len() as usize) as nat
}

/// Why a compilation failed: the error variant and its message.
pub ghost enum CompileFail {
    Format(Seq<char>),
    Limit(Seq<char>),
    Regex(Seq<char>),
}

/// `e` is the error that `f` describes.
pub open spec fn fail_is(e: EngineError, f: CompileFail) -> bool {
    match f {
        CompileFail::Format(m) => e matches EngineError::Format(x) && x@ == m,
        CompileFail::Limit(m) => e matches EngineError::Limit(x) && x@ == m,
        CompileFail::Regex(m) => e matches EngineError::Regex(x) && x@ == m,
    }
}

/// Characters that `regex::escape` escapes (`regex_syntax::is_meta_character`).
pub open spec fn is_meta(c: char) -> bool {
    c == '\\' || c == '.' || c == '+' || c == '*' || c == '?' || c == '(' || c == ')' || c == '|'
        || c == '[' || c == ']' || c == '{' || c == '}' || c == '^' || c == '$' || c == '#'
        || c == '&' || c == '-' || c == '~'
}

/// `regex::escape`: each meta character is preceded by a backslash.
pub open spec fn escaped(s: Seq<char>) -> Seq<char>
    decreases s.len(),
{
    if s.len() == 0 {
        seq![]
    } else {
        escaped(s.drop_last()) + if is_meta(s.last()) {
            seq!['\\', s.last()]
        } else {
            seq![s.last()]
        }
    }
}

/// Escapes the regex meta characters of `text`, as `regex::escape` does.
pub fn regex_escape(text: &str, out: &mut Vec<char>)
    ensures
        final(out)@ == old(out)@ + escaped(text@),
{
    let t = str_chars(text);
    let mut i: usize = 0;
    while i < t.len()
        invariant
            t@ == text@,
            i <= t.len(),
            out@ == old(out)@ + escaped(t@.subrange(0, i as int)),
        decreases t.len() - i,
    {
        let c = t[i];
        if c == '\\' || c == '.' || c == '+' || c == '*' || c == '?' || c == '(' || c == ')' || c == '|'
            || c == '[' || c == ']' || c == '{' || c == '}' || c == '^' || c == '$' || c == '#'
            || c == '&' || c == '-' || c == '~' {
            out.push('\\');
        }
        out.push(c);
        proof {
            let s = t@.subrange(0, i + 1);
            assert(s.drop_last() =~= t@.subrange(0, i as int));
        }
        i = i + 1;
    }
    assert(t@.subrange(0, t.len() as int) =~= t@);
}

/// Numeric value of a string of decimal digits.
pub open spec fn digits_value(s: Seq<char>) -> nat
    decreases s.len(),
{
    if s.len() == 0 {
        0
    } else {
        digits_value(s.drop_last()) * 10 + ((s.last() as int) - 48) as nat
    }
}

/// All characters are ASCII digits.
pub open spec fn all_digits(s: Seq<char>) -> bool {
    forall|i: int| 0 <= i < s.len() ==> is_ascii_digit(#[trigger] s[i])
}

/// Field number of a group name of the reserved form `f<digits>` (a number that fits in `usize`).
pub open spec fn field_index_of(name: Seq<char>) -> Option<nat> {
    if name.len() >= 2 && name[0] == 'f' && all_digits(name.drop_first())
        && digits_value(name.drop_first()) <= usize::MAX {
        Some(digits_value(name.drop_first()))
    } else {
        None
    }
}

/// The capture group name of field number `i`.
pub open spec fn group_name(i: nat) -> Seq<char> {
    seq!['f'] + decimal(i)
}

/// The field number that a group name of the form `f<digits>` stands for.
pub fn field_index(name: &str) -> (r: Option<usize>)
    ensures
        match r {
            Some(i) => field_index_of(name@) == Some(i as nat),
            None => field_index_of(name@) is None,
        },
{
    let c = str_chars(name);
    if c.len() < 2 || c[0] != 'f' {
        return None;
    }
    let ghost rest = c@.drop_first();
    let mut value: usize = 0;
    let mut i: usize = 1;
    while i < c.len()
        invariant
            c@ == name@,
            rest == c@.drop_first(),
            c.len() >= 2,
            1 <= i <= c.len(),
            all_digits(c@.subrange(1, i as int)),
            value as nat == digits_value(c@.subrange(1, i as int)),
        decreases c.len() - i,
    {
        let ch = c[i];
        if !('0' <= ch && ch <= '9') {
            assert(!all_digits(rest)) by {
                assert(rest[i - 1] == ch);
            }
            return None;
        }
        let d: usize = (ch as u32 - 48) as usize;
        proof {
            let s = c@.subrange(1, i + 1);
            assert(s.drop_last() =~= c@.subrange(1, i as int));
            assert(s.last() == ch);
        }
        proof {
            assert(c@.subrange(1, i + 1) =~= rest.subrange(0, i as int));
        }
        match value.checked_mul(10) {
            None => {
                proof { lemma_digits_value_prefix_bound(rest, i as int); }
                return None;
            },
            Some(m) => match m.checked_add(d) {
                None => {
                    proof { lemma_digits_value_prefix_bound(rest, i as int); }
                    return None;
                },
                Some(v) => {
                    value = v;
                },
            },
        }
        i = i + 1;
    }
    assert(c@.subrange(1, c.len() as int) =~= rest);
    Some(value)
}

/// A longer all-digit string is worth at least as much as its prefix.
pub proof fn lemma_digits_value_mono(s: Seq<char>, n: int)
    requires
        0 <= n <= s.len(),
        all_digits(s),
    ensures
        digits_value(s.subrange(0, n)) <= digits_value(s),
    decreases s.len() - n,
{
    if n < s.len() {
        lemma_digits_value_mono(s, n + 1);
        let p = s.subrange(0, n + 1);
        assert(p.drop_last() =~= s.subrange(0, n));
        assert(is_ascii_digit(s[n]));
    } else {
        assert(s.subrange(0, n) =~= s);
    }
}

/// When the value of the digits read so far overflows, the whole number does too.
proof fn lemma_digits_value_prefix_bound(rest: Seq<char>, i: int)
    requires
        1 <= i <= rest.len(),
        digits_value(rest.subrange(0, i)) > usize::MAX,
    ensures
        !(all_digits(rest) && digits_value(rest) <= usize::MAX),
{
    if all_digits(rest) {
        lemma_digits_value_mono(rest, i);
    }
}

/// The text of group name `f<i>`.
fn push_group_name(out: &mut Vec<char>, i: usize)
    ensures
        final(out)@ == old(out)@ + group_name(i as nat),
{
    out.push('f');
    push_decimal(out, i as u64);
}

/// Pattern text of a field with a built-in capture (no user pattern).
pub open spec fn builtin_capture_pattern(c: Capture, g: Seq<char>) -> Seq<char> {
    match c {
        Capture::Token => "(?P<"@ + g + ">[^ \\t]+)"@,
        Capture::Quoted => "\"(?P<"@ + g + ">(?:[^\"\\\\]|\\\\.)*)\""@,
        Capture::Bracketed => "\\[(?P<"@ + g + ">[^\\]]*)\\]"@,
        Capture::Pattern { pattern } => "(?P<"@ + g + ">"@ + pattern@ + ")"@,
    }
}

/// Problem with a user regex fragment, if any: too long, does not compile, or uses a
/// reserved group name `f<n>`.
pub open spec fn user_pattern_fail(p: Seq<char>) -> Option<CompileFail> {
    if byte_len(p) > MAX_PATTERN_BYTES {
        Some(CompileFail::Limit("정규식 블록이 상한 16384바이트를 넘음"@))
    } else {
        match regex_build_result(p) {
            Err(e) => Some(CompileFail::Regex(e)),
            Ok(names) => if exists|i: int| 0 <= i < names.len() && (#[trigger] names[i]) is Some
                && field_index_of(names[i]->Some_0) is Some {
                Some(CompileFail::Format("정규식 블록에 예약된 그룹 이름(f0, f1, ...)을 쓸 수 없음"@))
            } else {
                None
            },
        }
    }
}

/// Checks a user regex fragment (see [`user_pattern_fail`]).
fn validate_user_pattern(pattern: &str) -> (r: Result<(), EngineError>)
    ensures
        match user_pattern_fail(pattern@) {
            Some(f) => r matches Err(e) && fail_is(e, f),
            None => r is Ok,
        },
{
    assert(pattern.len() == byte_len(pattern@));
    if pattern.len() > MAX_PATTERN_BYTES {
        return Err(EngineError::Limit("정규식 블록이 상한 16384바이트를 넘음".to_owned()));
    }
    match CompiledRegex::build(pattern) {
        Err(e) => Err(EngineError::Regex(e)),
        Ok((_, names)) => {
            let mut i: usize = 0;
            while i < names.len()
                invariant
                    i <= names.len(),
                    byte_len(pattern@) <= MAX_PATTERN_BYTES,
                    regex_build_result(pattern@) == Ok::<Seq<Option<Seq<char>>>, Seq<char>>(crate::ext::opt_strings_view(names@)),
                    forall|k: int| 0 <= k < i ==> !((#[trigger] names@[k]) is Some && field_index_of(names@[k]->Some_0@) is Some),
                decreases names.len() - i,
            {
                if let Some(n) = &names[i] {
                    if field_index(n.as_str()).is_some() {
                        proof {
                            let v = crate::ext::opt_strings_view(names@);
                            assert(v[i as int] == Some(n@));
                            assert(v[i as int] is Some && field_index_of(v[i as int]->Some_0) is Some);
                            assert(regex_build_result(pattern@) is Ok);
                            assert(regex_build_result(pattern@)->Ok_0 == v);
                            assert(user_pattern_fail(pattern@) == Some(CompileFail::Format("정규식 블록에 예약된 그룹 이름(f0, f1, ...)을 쓸 수 없음"@)));
                        }
                        return Err(EngineError::Format(
                            "정규식 블록에 예약된 그룹 이름(f0, f1, ...)을 쓸 수 없음".to_owned(),
                        ));
                    }
                }
                i = i + 1;
            }
            let ghost v = crate::ext::opt_strings_view(names@);
            assert forall|k: int| 0 <= k < v.len() && (#[trigger] v[k]) is Some implies field_index_of(v[k]->Some_0) is None by {
                assert(!(names@[k] is Some && field_index_of(names@[k]->Some_0@) is Some));
                if let Some(x) = names@[k] {
                    assert(v[k] == Some(x@));
                }
            }
            Ok(())
        },
    }
}

/// Pattern text of field `def` as field number `i`, or why it cannot be emitted.
pub open spec fn field_pattern(def: FieldDef, i: nat) -> Result<Seq<char>, CompileFail> {
    match def.capture {
        Capture::Pattern { pattern } => match user_pattern_fail(pattern@) {
            Some(f) => Err(f),
            None => Ok(builtin_capture_pattern(def.capture, group_name(i))),
        },
        _ => Ok(builtin_capture_pattern(def.capture, group_name(i))),
    }
}

/// What one block contributes: pattern text and the fields it declares (in order),
/// given that `idx` fields came before it.
pub open spec fn emit_block(b: Block, idx: nat) -> Result<(Seq<char>, Seq<FieldDef>), CompileFail>
    decreases b, 0int, 0int,
{
    match b {
        Block::Literal { text } => Ok((escaped(text@), seq![])),
        Block::Whitespace => Ok(("[ \\t]+"@, seq![])),
        Block::Field(def) => if def.name@.len() == 0 || field_index_of(def.name@) is Some {
            Err(CompileFail::Format("필드 이름이 비었거나 예약된 형식(f0, f1, ...)임"@))
        } else {
            match field_pattern(def, idx) {
                Err(f) => Err(f),
                Ok(p) => Ok((p, seq![def])),
            }
        },
        Block::OptionalGroup { blocks } => match emit_list(blocks@, idx, 1) {
            Err(f) => Err(f),
            Ok((p, fs)) => Ok(("(?:"@ + p + ")?"@, fs)),
        },
        Block::Regex { pattern } => match user_pattern_fail(pattern@) {
            Some(f) => Err(f),
            None => Ok(("(?:"@ + pattern@ + ")"@, seq![])),
        },
    }
}

/// What a block list at nesting `depth` contributes (see [`emit_block`]).
pub open spec fn emit_list(bs: Seq<Block>, idx: nat, depth: nat) -> Result<(Seq<char>, Seq<FieldDef>), CompileFail>
    decreases bs, 2int, 0int,
{
    if depth > MAX_NESTING {
        Err(CompileFail::Limit("블록 중첩 깊이가 8를 넘음"@))
    } else {
        emit_prefix(bs, bs.len() as int, idx, depth)
    }
}

/// What the first `n` blocks of `bs` contribute.
pub open spec fn emit_prefix(bs: Seq<Block>, n: int, idx: nat, depth: nat) -> Result<(Seq<char>, Seq<FieldDef>), CompileFail>
    decreases bs, 1int, n,
{
    if n <= 0 || n > bs.len() {
        Ok((seq![], seq![]))
    } else {
        match emit_prefix(bs, n - 1, idx, depth) {
            Err(f) => Err(f),
            Ok((p, fs)) => match emit_block_at(bs[n - 1], idx + fs.len(), depth) {
                Err(f) => Err(f),
                Ok((p2, fs2)) => Ok((p + p2, fs + fs2)),
            },
        }
    }
}

/// [`emit_block`] for a block at nesting `depth` (an optional group nests one deeper).
pub open spec fn emit_block_at(b: Block, idx: nat, depth: nat) -> Result<(Seq<char>, Seq<FieldDef>), CompileFail>
    decreases b, 0int, 1int,
{
    match b {
        Block::OptionalGroup { blocks } => match emit_list(blocks@, idx, depth + 1) {
            Err(f) => Err(f),
            Ok((p, fs)) => Ok(("(?:"@ + p + ")?"@, fs)),
        },
        _ => emit_block(b, idx),
    }
}

/// Once a prefix fails, every longer prefix fails with the same reason.
proof fn lemma_prefix_err(bs: Seq<Block>, k: int, n: int, idx: nat, depth: nat)
    requires
        1 <= k <= n <= bs.len(),
        emit_prefix(bs, k, idx, depth) is Err,
    ensures
        emit_prefix(bs, n, idx, depth) == emit_prefix(bs, k, idx, depth),
    decreases n - k,
{
    if n > k {
        lemma_prefix_err(bs, k, n - 1, idx, depth);
    }
}

/// Two field lists say the same thing, position by position.
pub open spec fn same_fields(a: Seq<FieldDef>, b: Seq<FieldDef>) -> bool {
    a.len() == b.len() && forall|i: int| 0 <= i < a.len() ==> same_field(#[trigger] a[i], b[i])
}

proof fn lemma_same_fields_push(a: Seq<FieldDef>, b: Seq<FieldDef>, x: FieldDef, y: FieldDef)
    requires
        same_fields(a, b),
        same_field(x, y),
    ensures
        same_fields(a.push(x), b.push(y)),
{
    assert forall|i: int| 0 <= i < a.len() + 1 implies same_field(#[trigger] a.push(x)[i], b.push(y)[i]) by {
        if i < a.len() {
            assert(a.push(x)[i] == a[i]);
            assert(b.push(y)[i] == b[i]);
        }
    }
}

proof fn lemma_same_fields_concat(a: Seq<FieldDef>, b: Seq<FieldDef>, c: Seq<FieldDef>, d: Seq<FieldDef>)
    requires
        same_fields(a, b),
        same_fields(c, d),
    ensures
        same_fields(a + c, b + d),
{
    assert forall|i: int| 0 <= i < a.len() + c.len() implies same_field(#[trigger] (a + c)[i], (b + d)[i]) by {
        if i < a.len() {
        } else {
            assert((a + c)[i] == c[i - a.len()]);
            assert((b + d)[i] == d[i - a.len()]);
        }
    }
}

proof fn lemma_same_fields_refl(a: Seq<FieldDef>)
    ensures
        same_fields(a, a),
{
}

/// Emits the pattern text of one field.
fn emit_field(def: &FieldDef, index: usize, out: &mut Vec<char>) -> (r: Result<(), EngineError>)
    ensures
        match field_pattern(*def, index as nat) {
            Ok(p) => r is Ok && final(out)@ == old(out)@ + p,
            Err(f) => r matches Err(e) && fail_is(e, f),
        },
{
    match &def.capture {
        Capture::Token => {
            push_str(out, "(?P<");
            push_group_name(out, index);
            push_str(out, ">[^ \\t]+)");
        },
        Capture::Quoted => {
            push_str(out, "\"(?P<");
            push_group_name(out, index);
            push_str(out, ">(?:[^\"\\\\]|\\\\.)*)\"");
        },
        Capture::Bracketed => {
            push_str(out, "\\[(?P<");
            push_group_name(out, index);
            push_str(out, ">[^\\]]*)\\]");
        },
        Capture::Pattern { pattern } => {
            validate_user_pattern(pattern.as_str())?;
            push_str(out, "(?P<");
            push_group_name(out, index);
            push_str(out, ">");
            push_str(out, pattern.as_str());
            push_str(out, ")");
        },
    }
    Ok(())
}

/// Emits the pattern text of a block list at nesting `depth` and collects its fields.
fn emit_blocks(blocks: &[Block], out: &mut Vec<char>, fields: &mut Vec<FieldDef>, depth: usize)
    -> (r: Result<(), EngineError>)
    requires
        depth <= MAX_NESTING + 1,
    ensures
        match emit_list(blocks@, old(fields)@.len(), depth as nat) {
            Ok((p, fs)) => r is Ok && final(out)@ == old(out)@ + p
                && same_fields(final(fields)@, old(fields)@ + fs),
            Err(f) => r matches Err(e) && fail_is(e, f),
        },
    decreases blocks@, 2int, 0int,
{
    if depth > MAX_NESTING {
        return Err(EngineError::Limit("블록 중첩 깊이가 8를 넘음".to_owned()));
    }
    let ghost out0 = out@;
    let ghost fields0 = fields@;
    let mut i: usize = 0;
    while i < blocks.len()
        invariant
            i <= blocks.len(),
            depth <= MAX_NESTING,
            fields0 == old(fields)@,
            out0 == old(out)@,
            emit_prefix(blocks@, i as int, fields0.len(), depth as nat) matches Ok((p, fs))
                && out@ == out0 + p && same_fields(fields@, fields0 + fs),
        decreases blocks.len() - i,
    {
        let ghost before = emit_prefix(blocks@, i as int, fields0.len(), depth as nat)->Ok_0;
        let ghost out1 = out@;
        let ghost fields1 = fields@;
        proof {
            assert(decreases_to!(blocks@ => blocks@[i as int]));
        }
        match &blocks[i] {
            Block::Literal { text } => {
                regex_escape(text.as_str(), out);
            },
            Block::Whitespace => {
                push_str(out, "[ \\t]+");
            },
            Block::Field(def) => {
                if def.name.as_str().is_empty() || field_index(def.name.as_str()).is_some() {
                    proof {
                        let idx = fields0.len() + before.1.len();
                        let fl = CompileFail::Format("필드 이름이 비었거나 예약된 형식(f0, f1, ...)임"@);
                        assert(emit_block(blocks@[i as int], idx) == Err::<(Seq<char>, Seq<FieldDef>), CompileFail>(fl));
                        assert(emit_block_at(blocks@[i as int], idx, depth as nat) == Err::<(Seq<char>, Seq<FieldDef>), CompileFail>(fl));
                        assert(emit_prefix(blocks@, i + 1, fields0.len(), depth as nat) == Err::<(Seq<char>, Seq<FieldDef>), CompileFail>(fl));
                        assert(emit_prefix(blocks@, i + 1, fields0.len(), depth as nat) is Err);
                        lemma_prefix_err(blocks@, i + 1, blocks.len() as int, fields0.len(), depth as nat);
                    }
                    return Err(EngineError::Format("필드 이름이 비었거나 예약된 형식(f0, f1, ...)임".to_owned()));
                }
                let er = emit_field(def, fields.len(), out);
                if er.is_err() {
                    proof {
                        let idx = fields0.len() + before.1.len();
                        assert(field_pattern(*def, idx) is Err);
                        assert(emit_block(blocks@[i as int], idx) == Err::<(Seq<char>, Seq<FieldDef>), CompileFail>(field_pattern(*def, idx)->Err_0));
                        let fl = field_pattern(*def, idx)->Err_0;
                        assert(emit_block_at(blocks@[i as int], idx, depth as nat) == Err::<(Seq<char>, Seq<FieldDef>), CompileFail>(fl));
                        assert(emit_prefix(blocks@, i + 1, fields0.len(), depth as nat) == Err::<(Seq<char>, Seq<FieldDef>), CompileFail>(fl));
                        lemma_prefix_err(blocks@, i + 1, blocks.len() as int, fields0.len(), depth as nat);
                    }
                    return er;
                }
                let copy = def.clone();
                fields.push(copy);
                proof {
                    lemma_same_fields_push(fields1, fields0 + before.1, copy, *def);
                    assert(fields0 + before.1 + seq![*def] =~= (fields0 + before.1).push(*def));
                }
            },
            Block::OptionalGroup { blocks: inner } => {
                proof {
                    assert(decreases_to!(blocks@[i as int] => inner@));
                }
                push_str(out, "(?:");
                let ghost out2 = out@;
                let ghost fl = fields@.len();
                let er = emit_blocks(inner.as_slice(), out, fields, depth + 1);
                if er.is_err() {
                    proof {
                        assert(emit_prefix(blocks@, i + 1, fields0.len(), depth as nat) is Err);
                        lemma_prefix_err(blocks@, i + 1, blocks.len() as int, fields0.len(), depth as nat);
                    }
                    return er;
                }
                push_str(out, ")?");
                proof {
                    let inner_r = emit_list(inner@, fl, (depth + 1) as nat)->Ok_0;
                    lemma_same_fields_concat(fields1, fields0 + before.1, inner_r.1, inner_r.1);
                }
            },
            Block::Regex { pattern } => {
                let er = validate_user_pattern(pattern.as_str());
                if er.is_err() {
                    proof {
                        assert(emit_prefix(blocks@, i + 1, fields0.len(), depth as nat) is Err);
                        lemma_prefix_err(blocks@, i + 1, blocks.len() as int, fields0.len(), depth as nat);
                    }
                    return er;
                }
                push_str(out, "(?:");
                push_str(out, pattern.as_str());
                push_str(out, ")");
            },
        }
        proof {
            assert(fields1.len() == fields0.len() + before.1.len());
            let step = emit_block_at(blocks@[i as int], fields0.len() + before.1.len(), depth as nat);
            assert(step is Ok);
            let after = emit_prefix(blocks@, i + 1, fields0.len(), depth as nat);
            assert(after == Ok::<(Seq<char>, Seq<FieldDef>), CompileFail>((before.0 + step->Ok_0.0, before.1 + step->Ok_0.1)));
            assert(fields0 + before.1 + step->Ok_0.1 =~= fields0 + (before.1 + step->Ok_0.1));
        }
        i = i + 1;
    }
    Ok(())
}


/// Index of the first field whose name already occurred among the fields before it.
pub open spec fn first_duplicate(fs: Seq<FieldDef>, n: int) -> Option<int>
    decreases n,
{
    if n <= 0 {
        None
    } else {
        match first_duplicate(fs, n - 1) {
            Some(k) => Some(k),
            None => if exists|j: int| 0 <= j < n - 1 && (#[trigger] fs[j]).name@ == fs[n - 1].name@ {
                Some(n - 1)
            } else {
                None
            },
        }
    }
}

/// The group that carries field `i`: the last group whose name stands for field number `i`.
pub open spec fn last_field_group(names: Seq<Option<Seq<char>>>, i: nat, n: int) -> Option<nat>
    decreases n,
{
    if n <= 0 {
        None
    } else if names[n - 1] matches Some(x) && field_index_of(x) == Some(i) {
        Some((n - 1) as nat)
    } else {
        last_field_group(names, i, n - 1)
    }
}

/// Named groups among the first `n` that stand for no field, with their group numbers.
pub open spec fn extra_groups_of(names: Seq<Option<Seq<char>>>, n: int) -> Seq<(Seq<char>, nat)>
    decreases n,
{
    if n <= 0 {
        seq![]
    } else {
        let prev = extra_groups_of(names, n - 1);
        match names[n - 1] {
            Some(x) => if field_index_of(x) is None {
                prev.push((x, (n - 1) as nat))
            } else {
                prev
            },
            None => prev,
        }
    }
}

/// The first field number below `count` that no group carries.
pub open spec fn first_missing_group(names: Seq<Option<Seq<char>>>, count: nat) -> Option<nat> {
    if exists|i: nat| i < count && (#[trigger] last_field_group(names, i, names.len() as int)) is None {
        Some(choose|i: nat| i < count && (#[trigger] last_field_group(names, i, names.len() as int)) is None
            && forall|k: nat| k < i ==> (#[trigger] last_field_group(names, k, names.len() as int)) is Some)
    } else {
        None
    }
}

/// The anchored pattern of a block list, and its fields, or why compiling fails
/// (checks in this order: the blocks, the pattern size, no field, a repeated name,
/// the regex compiler, a field without its group).
pub open spec fn compile_outcome(blocks: Seq<Block>) -> Result<(Seq<char>, Seq<FieldDef>), CompileFail> {
    match emit_list(blocks, 0, 0) {
        Err(f) => Err(f),
        Ok((p, fs)) => {
            let pattern = seq!['^'] + p + seq!['$'];
            if byte_len(pattern) > MAX_PATTERN_BYTES {
                Err(CompileFail::Limit("정규식 패턴 "@ + decimal(byte_len(pattern)) + "바이트가 상한 16384바이트를 넘음"@))
            } else if fs.len() == 0 {
                Err(CompileFail::Format("필드가 하나도 없음"@))
            } else {
                match first_duplicate(fs, fs.len() as int) {
                    Some(k) => Err(CompileFail::Format("필드 이름 중복: "@ + fs[k].name@)),
                    None => match regex_build_result(pattern) {
                        Err(e) => Err(CompileFail::Regex(e)),
                        Ok(names) => match first_missing_group(names, fs.len()) {
                            Some(i) => Err(CompileFail::Format("필드 "@ + fs[i as int].name@ + "의 캡처 그룹을 찾을 수 없음"@)),
                            None => Ok((pattern, fs)),
                        },
                    },
                }
            }
        },
    }
}

/// A compiled block parser. Field `i` is read from the capture group named `f<i>`.
#[derive(Debug)]
pub struct CompiledBlocks {
    re: CompiledRegex,
    fields: Vec<FieldDef>,
    field_groups: Vec<usize>,
    extra_groups: Vec<(String, usize)>,
}

/// The text of each capture group after a match (`None` for a group that took no part).
#[derive(Debug)]
pub struct MatchBuf {
    groups: Vec<Option<String>>,
}

impl MatchBuf {
    /// The captured text of each group, in group order.
    pub closed spec fn groups_view(&self) -> Seq<Option<Seq<char>>> {
        crate::ext::opt_strings_view(self.groups@)
    }
}

impl CompiledBlocks {
    /// The anchored pattern.
    pub closed spec fn pattern_view(&self) -> Seq<char> {
        self.re.pattern_view()
    }

    /// The field definitions, in group order.
    pub closed spec fn fields_view(&self) -> Seq<FieldDef> {
        self.fields@
    }

    /// Group number of each field.
    pub closed spec fn field_groups_view(&self) -> Seq<usize> {
        self.field_groups@
    }

    /// Named groups of regex blocks with their group numbers.
    pub closed spec fn extra_groups_view(&self) -> Seq<(Seq<char>, nat)> {
        self.extra_groups@.map_values(|e: (String, usize)| (e.0@, e.1 as nat))
    }

    /// The pattern compiles, each field has the last group named for it, and the
    /// extra groups are the named groups that stand for no field.
    pub closed spec fn wf(&self) -> bool {
        &&& regex_build_result(self.pattern_view()) is Ok
        &&& self.field_groups@.len() == self.fields@.len()
        &&& forall|i: int| 0 <= i < self.fields@.len() ==>
            last_field_group(regex_build_result(self.pattern_view())->Ok_0, i as nat,
                regex_build_result(self.pattern_view())->Ok_0.len() as int)
                == Some((#[trigger] self.field_groups@[i]) as nat)
        &&& self.extra_groups_view() == extra_groups_of(regex_build_result(self.pattern_view())->Ok_0,
            regex_build_result(self.pattern_view())->Ok_0.len() as int)
    }

    /// A well-formed parser has one group number per field.
    pub proof fn lemma_wf_lengths(&self)
        requires
            self.wf(),
        ensures
            self.field_groups_view().len() == self.fields_view().len(),
    {
    }

    /// Compiles a block list into one anchored regular expression.
    pub fn compile(blocks: &[Block]) -> (r: Result<CompiledBlocks, EngineError>)
        ensures
            match compile_outcome(blocks@) {
                Ok((p, fs)) => r matches Ok(c) && c.wf() && c.pattern_view() == p
                    && same_fields(c.fields_view(), fs),
                Err(f) => r matches Err(e) && fail_is(e, f),
            },
    {
        let mut out: Vec<char> = Vec::new();
        out.push('^');
        let mut fields: Vec<FieldDef> = Vec::new();
        let er = emit_blocks(blocks, &mut out, &mut fields, 0);
        if er.is_err() {
            return Err(er.unwrap_err());
        }
        let ghost fs = emit_list(blocks@, 0, 0)->Ok_0.1;
        assert(Seq::<FieldDef>::empty() + fs =~= fs);
        assert(same_fields(fields@, fs));
        out.push('$');
        let pattern = chars_to_string(&out);
        proof {
            assert(pattern@ =~= seq!['^'] + emit_list(blocks@, 0, 0)->Ok_0.0 + seq!['$']);
        }
        let plen = pattern.as_str().len();
        assert(plen == byte_len(pattern@));
        if plen > MAX_PATTERN_BYTES {
            let mut m: Vec<char> = Vec::new();
            push_str(&mut m, "정규식 패턴 ");
            push_decimal(&mut m, plen as u64);
            push_str(&mut m, "바이트가 상한 16384바이트를 넘음");
            return Err(EngineError::Limit(chars_to_string(&m)));
        }
        if fields.len() == 0 {
            return Err(EngineError::Format("필드가 하나도 없음".to_owned()));
        }
        let dup = find_duplicate(&fields);
        proof {
            lemma_first_duplicate_same(fields@, fs, fs.len() as int);
        }
        if let Some(k) = dup {
            proof {
                assert(same_field(fields@[k as int], fs[k as int]));
            }
            let mut m: Vec<char> = Vec::new();
            push_str(&mut m, "필드 이름 중복: ");
            push_str(&mut m, fields[k].name.as_str());
            proof {
                assert(emit_list(blocks@, 0, 0) is Ok);
                assert(!(byte_len(pattern@) > MAX_PATTERN_BYTES));
                assert(fs.len() != 0);
                assert(first_duplicate(fs, fs.len() as int) == Some(k as int));
                assert(m@ == "필드 이름 중복: "@ + fs[k as int].name@);
            }
            return Err(EngineError::Format(chars_to_string(&m)));
        }
        let (re, names) = match CompiledRegex::build(pattern.as_str()) {
            Err(e) => {
                return Err(EngineError::Regex(e));
            },
            Ok(built) => built,
        };
        let ghost nv = crate::ext::opt_strings_view(names@);
        let (field_groups, extra_groups) = resolve_groups(&names, fields.len());
        let ghost outcome = match first_missing_group(nv, fs.len()) {
            Some(i) => Err(CompileFail::Format("필드 "@ + fs[i as int].name@ + "의 캡처 그룹을 찾을 수 없음"@)),
            None => Ok((pattern@, fs)),
        };
        assert(compile_outcome(blocks@) == outcome);
        let mut i: usize = 0;
        while i < field_groups.len()
            invariant
                i <= field_groups.len(),
                field_groups.len() == fields.len(),
                forall|k: int| 0 <= k < field_groups.len() ==>
                    (#[trigger] field_groups@[k].0) == last_field_group(nv, k as nat, nv.len() as int) is Some,
                forall|k: nat| k < i ==> (#[trigger] last_field_group(nv, k, nv.len() as int)) is Some,
                same_fields(fields@, fs),
                compile_outcome(blocks@) == outcome,
                outcome == match first_missing_group(nv, fs.len()) {
                    Some(i) => Err(CompileFail::Format("필드 "@ + fs[i as int].name@ + "의 캡처 그룹을 찾을 수 없음"@)),
                    None => Ok((pattern@, fs)),
                },
            decreases field_groups.len() - i,
        {
            if !field_groups[i].0 {
                proof {
                    assert(last_field_group(nv, i as nat, nv.len() as int) is None);
                    assert(i < fs.len() && last_field_group(nv, i as nat, nv.len() as int) is None
                        && forall|k: nat| k < i ==> (#[trigger] last_field_group(nv, k, nv.len() as int)) is Some);
                    assert(first_missing_group(nv, fs.len()) == Some(i as nat)) by {
                        let w = first_missing_group(nv, fs.len())->Some_0;
                        assert(w < fs.len() && last_field_group(nv, w, nv.len() as int) is None
                            && forall|k: nat| k < w ==> (#[trigger] last_field_group(nv, k, nv.len() as int)) is Some);
                        if w < i {
                            assert(last_field_group(nv, w, nv.len() as int) is Some);
                        }
                        if (i as nat) < w {
                            assert(last_field_group(nv, i as nat, nv.len() as int) is Some);
                        }
                    }
                    assert(same_field(fields@[i as int], fs[i as int]));
                }
                let mut m: Vec<char> = Vec::new();
                push_str(&mut m, "필드 ");
                push_str(&mut m, fields[i].name.as_str());
                push_str(&mut m, "의 캡처 그룹을 찾을 수 없음");
                return Err(EngineError::Format(chars_to_string(&m)));
            }
            i = i + 1;
        }
        assert(first_missing_group(nv, fs.len()) is None) by {
            if exists|x: nat| x < fs.len() && (#[trigger] last_field_group(nv, x, nv.len() as int)) is None {
                let x = choose|x: nat| x < fs.len() && (#[trigger] last_field_group(nv, x, nv.len() as int)) is None;
                assert(last_field_group(nv, x, nv.len() as int) is Some);
            }
        }
        let mut groups: Vec<usize> = Vec::new();
        let mut j: usize = 0;
        while j < field_groups.len()
            invariant
                j <= field_groups.len(),
                field_groups.len() == fields.len(),
                groups@.len() == j,
                forall|k: int| 0 <= k < field_groups.len() ==>
                    (#[trigger] field_groups@[k].0) == last_field_group(nv, k as nat, nv.len() as int) is Some,
                forall|k: int| 0 <= k < field_groups.len() && field_groups@[k].0 ==>
                    last_field_group(nv, k as nat, nv.len() as int) == Some((#[trigger] field_groups@[k].1) as nat),
                forall|k: nat| k < fields.len() ==> (#[trigger] last_field_group(nv, k, nv.len() as int)) is Some,
                forall|k: int| 0 <= k < j ==> (#[trigger] groups@[k]) == field_groups@[k].1,
            decreases field_groups.len() - j,
        {
            groups.push(field_groups[j].1);
            j = j + 1;
        }
        let c = CompiledBlocks { re, fields, field_groups: groups, extra_groups };
        proof {
            assert forall|k: int| 0 <= k < c.fields@.len() implies
                last_field_group(nv, k as nat, nv.len() as int) == Some((#[trigger] c.field_groups@[k]) as nat) by {
                assert(last_field_group(nv, k as nat, nv.len() as int) is Some);
                assert(field_groups@[k].0);
            }
            lemma_same_fields_refl(fs);
        }
        Ok(c)
    }

    /// The field definitions.
    pub fn fields(&self) -> (r: &Vec<FieldDef>)
        ensures
            r@ == self.fields_view(),
    {
        &self.fields
    }

    /// The anchored pattern this parser matches lines against.
    pub fn pattern(&self) -> (r: &str)
        ensures
            r@ == self.pattern_view(),
    {
        self.re.as_str()
    }

    /// An empty match buffer.
    pub fn match_buf(&self) -> (r: MatchBuf)
        ensures
            r.groups_view().len() == 0,
    {
        MatchBuf { groups: Vec::new() }
    }

    /// Matches one line. On a match `buf` holds the text of each group and the result is
    /// `true`; otherwise `buf` is emptied and the result is `false`.
    pub fn match_line(&self, line: &str, buf: &mut MatchBuf) -> (r: bool)
        requires
            self.wf(),
        ensures
            r == regex_captures_result(self.pattern_view(), line@) is Some,
            r ==> Some(final(buf).groups_view()) == regex_captures_result(self.pattern_view(), line@),
            r ==> final(buf).groups_view().len() == regex_build_result(self.pattern_view())->Ok_0.len(),
            !r ==> final(buf).groups_view().len() == 0,
    {
        match self.re.captures(line) {
            Some(c) => {
                buf.groups = c;
                true
            },
            None => {
                buf.groups = Vec::new();
                false
            },
        }
    }

    /// After a match, the text of field `i`; `None` where its group took no part (an
    /// optional group that was absent) or `i` is no field.
    pub fn field_value(&self, i: usize, buf: &MatchBuf) -> (r: Option<String>)
        ensures
            r matches Some(v) ==> i < self.field_groups_view().len()
                && self.field_groups_view()[i as int] < buf.groups_view().len()
                && buf.groups_view()[self.field_groups_view()[i as int] as int] == Some(v@),
            r is None ==> i >= self.field_groups_view().len()
                || self.field_groups_view()[i as int] >= buf.groups_view().len()
                || buf.groups_view()[self.field_groups_view()[i as int] as int] is None,
    {
        if i >= self.field_groups.len() {
            return None;
        }
        let g = self.field_groups[i];
        if g >= buf.groups.len() {
            return None;
        }
        match &buf.groups[g] {
            Some(s) => Some(s.clone()),
            None => None,
        }
    }

    /// After a match, the named captures of regex blocks that took part, as (name, text).
    pub fn extras(&self, buf: &MatchBuf) -> (r: Vec<(String, String)>)
        ensures
            r@.map_values(|e: (String, String)| (e.0@, e.1@)) == extras_view(self.extra_groups_view(), buf.groups_view(), self.extra_groups_view().len() as int),
    {
        let mut out: Vec<(String, String)> = Vec::new();
        let mut k: usize = 0;
        while k < self.extra_groups.len()
            invariant
                k <= self.extra_groups.len(),
                out@.map_values(|e: (String, String)| (e.0@, e.1@)) == extras_view(self.extra_groups_view(), buf.groups_view(), k as int),
            decreases self.extra_groups.len() - k,
        {
            let g = self.extra_groups[k].1;
            let ghost before = out@;
            if g < buf.groups.len() {
                if let Some(v) = &buf.groups[g] {
                    out.push((self.extra_groups[k].0.clone(), v.clone()));
                    proof {
                        assert(out@.map_values(|e: (String, String)| (e.0@, e.1@))
                            =~= before.map_values(|e: (String, String)| (e.0@, e.1@)).push((self.extra_groups@[k as int].0@, v@)));
                    }
                }
            }
            k = k + 1;
        }
        out
    }
}

/// The (name, text) of each extra group among the first `n` whose group took part in the match.
pub open spec fn extras_view(extra: Seq<(Seq<char>, nat)>, groups: Seq<Option<Seq<char>>>, n: int) -> Seq<(Seq<char>, Seq<char>)>
    decreases n,
{
    if n <= 0 {
        seq![]
    } else {
        let prev = extras_view(extra, groups, n - 1);
        let (name, g) = extra[n - 1];
        if g < groups.len() && groups[g as int] is Some {
            prev.push((name, groups[g as int]->Some_0))
        } else {
            prev
        }
    }
}

/// Index of the first field whose name repeats an earlier one.
fn find_duplicate(fields: &Vec<FieldDef>) -> (r: Option<usize>)
    ensures
        r matches Some(k) ==> k < fields@.len() && first_duplicate(fields@, fields@.len() as int) == Some(k as int),
        r is None ==> first_duplicate(fields@, fields@.len() as int) is None,
{
    let mut i: usize = 0;
    while i < fields.len()
        invariant
            i <= fields.len(),
            first_duplicate(fields@, i as int) is None,
        decreases fields.len() - i,
    {
        let mut j: usize = 0;
        while j < i
            invariant
                i < fields.len(),
                j <= i,
                first_duplicate(fields@, i as int) is None,
                forall|x: int| 0 <= x < j ==> (#[trigger] fields@[x]).name@ != fields@[i as int].name@,
            decreases i - j,
        {
            if str_eq(fields[j].name.as_str(), fields[i].name.as_str()) {
                proof {
                    assert(fields@[j as int].name@ == fields@[i as int].name@);
                    assert(first_duplicate(fields@, i + 1) == Some(i as int));
                    lemma_first_duplicate_stays(fields@, i + 1, fields@.len() as int);
                }
                return Some(i);
            }
            j = j + 1;
        }
        assert(first_duplicate(fields@, i + 1) is None);
        i = i + 1;
    }
    None
}

/// A duplicate found in a prefix is the one found in every longer prefix.
proof fn lemma_first_duplicate_stays(fs: Seq<FieldDef>, k: int, n: int)
    requires
        0 <= k <= n,
        first_duplicate(fs, k) is Some,
    ensures
        first_duplicate(fs, n) == first_duplicate(fs, k),
    decreases n - k,
{
    if n > k {
        lemma_first_duplicate_stays(fs, k, n - 1);
    }
}

/// Field lists that say the same thing have the same first duplicate.
proof fn lemma_first_duplicate_same(a: Seq<FieldDef>, b: Seq<FieldDef>, n: int)
    requires
        same_fields(a, b),
        n <= a.len(),
    ensures
        first_duplicate(a, n) == first_duplicate(b, n),
    decreases n,
{
    if n > 0 {
        lemma_first_duplicate_same(a, b, n - 1);
        assert(same_field(a[n - 1], b[n - 1]));
        if exists|j: int| 0 <= j < n - 1 && (#[trigger] a[j]).name@ == a[n - 1].name@ {
            let j = choose|j: int| 0 <= j < n - 1 && (#[trigger] a[j]).name@ == a[n - 1].name@;
            assert(same_field(a[j], b[j]));
        }
        if exists|j: int| 0 <= j < n - 1 && (#[trigger] b[j]).name@ == b[n - 1].name@ {
            let j = choose|j: int| 0 <= j < n - 1 && (#[trigger] b[j]).name@ == b[n - 1].name@;
            assert(same_field(a[j], b[j]));
        }
    }
}

/// Resolves group names once: for each field whether a group carries it and the last such
/// group, and the named groups that stand for no field.
fn resolve_groups(names: &Vec<Option<String>>, count: usize) -> (r: (Vec<(bool, usize)>, Vec<(String, usize)>))
    ensures
        r.0@.len() == count,
        forall|k: int| 0 <= k < count ==> (#[trigger] r.0@[k].0)
            == last_field_group(crate::ext::opt_strings_view(names@), k as nat, names@.len() as int) is Some,
        forall|k: int| 0 <= k < count && r.0@[k].0 ==>
            last_field_group(crate::ext::opt_strings_view(names@), k as nat, names@.len() as int)
                == Some((#[trigger] r.0@[k].1) as nat),
        r.1@.map_values(|e: (String, usize)| (e.0@, e.1 as nat))
            == extra_groups_of(crate::ext::opt_strings_view(names@), names@.len() as int),
{
    let ghost nv = crate::ext::opt_strings_view(names@);
    let mut groups: Vec<(bool, usize)> = Vec::new();
    let mut k: usize = 0;
    while k < count
        invariant
            k <= count,
            groups@.len() == k,
            forall|x: int| 0 <= x < k ==> (#[trigger] groups@[x]) == (false, 0usize),
        decreases count - k,
    {
        groups.push((false, 0));
        k = k + 1;
    }
    let mut extra: Vec<(String, usize)> = Vec::new();
    let mut g: usize = 0;
    while g < names.len()
        invariant
            g <= names.len(),
            nv == crate::ext::opt_strings_view(names@),
            groups@.len() == count,
            forall|x: int| 0 <= x < count ==> (#[trigger] groups@[x]).0
                == last_field_group(nv, x as nat, g as int) is Some,
            forall|x: int| 0 <= x < count && groups@[x].0 ==>
                last_field_group(nv, x as nat, g as int) == Some((#[trigger] groups@[x]).1 as nat),
            extra@.map_values(|e: (String, usize)| (e.0@, e.1 as nat)) == extra_groups_of(nv, g as int),
        decreases names.len() - g,
    {
        let ghost before = extra@;
        let ghost gs0 = groups@;
        match &names[g] {
            None => {},
            Some(n) => {
                assert(nv[g as int] == Some(n@));
                match field_index(n.as_str()) {
                    Some(i) => {
                        if i < count {
                            groups.set(i, (true, g));
                        }
                    },
                    None => {
                        extra.push((n.clone(), g));
                        proof {
                            assert(extra@.map_values(|e: (String, usize)| (e.0@, e.1 as nat))
                                =~= before.map_values(|e: (String, usize)| (e.0@, e.1 as nat)).push((n@, g as nat)));
                        }
                    },
                }
            },
        }
        proof {
            assert forall|x: int| 0 <= x < count implies (#[trigger] groups@[x]).0
                == last_field_group(nv, x as nat, g + 1) is Some
                && (groups@[x].0 ==> last_field_group(nv, x as nat, g + 1) == Some(groups@[x].1 as nat)) by {
                assert(last_field_group(nv, x as nat, g + 1) == if nv[g as int] matches Some(y) && field_index_of(y) == Some(x as nat) {
                    Some(g as nat)
                } else {
                    last_field_group(nv, x as nat, g as int)
                });
                if !(nv[g as int] matches Some(y) && field_index_of(y) == Some(x as nat)) {
                    assert(groups@[x] == gs0[x]);
                }
            }
        }
        g = g + 1;
    }
    (groups, extra)
}

} // verus!
