//! Reconstructed log lines: text made from the stored fields. It is not the original
//! line byte for byte. With a block definition the blocks are followed in order;
//! otherwise a Combined-like standard text is made.

use vstd::prelude::*;

use crate::ext::{regex_new, regex_new_result, zoned_format, zoned_format_result, zoned_rfc3339, zoned_rfc3339_result};
use crate::model::{Block, Capture, FieldKind, FormatProfile, Strategy, TimestampFormat};
use crate::query::LogDetail;
use crate::record::{opt_view, ExtraFields};
use crate::text::{chars_to_string, push_str, signed_decimal, strings_view};
use crate::validate::{is_valid_strftime, valid_strftime};

verus! {

/// A reconstruction. The screen must always label it as reconstructed.
#[derive(Debug, Clone, PartialEq, Eq)]
pub struct Reconstructed {
    /// Text.
    pub text: String,
    /// Always true, so no caller forgets it is no original line.
    pub is_reconstruction: bool,
    /// Template used: `blocks` (definition order) or `standard` (Combined-like).
    pub template: &'static str,
    /// False when part of it has no inverse template (regex blocks, W3C).
    pub complete: bool,
}

/// A present value, or `-`.
pub open spec fn dash_or(o: Option<Seq<char>>) -> Seq<char> {
    match o {
        Some(v) => v,
        None => "-"@,
    }
}

/// The text of an instant under a timestamp format, at the stored offset (0 when none);
/// `-` without an instant or when chrono cannot show it. An unreadable strftime pattern
/// falls back to RFC 3339.
pub open spec fn time_text(micros: Option<i64>, offset: Option<i32>, format: TimestampFormat) -> Seq<char> {
    let off = match offset { Some(o) => o, None => 0i32 };
    match micros {
        None => "-"@,
        Some(us) => dash_or(match format {
            TimestampFormat::Clf => zoned_format_result(us, off, "%d/%b/%Y:%H:%M:%S %z"@),
            TimestampFormat::Iso8601 => zoned_rfc3339_result(us, off),
            TimestampFormat::Custom { pattern } => if valid_strftime(pattern@) {
                zoned_format_result(us, off, pattern@)
            } else {
                zoned_rfc3339_result(us, off)
            },
        }),
    }
}

fn or_dash(o: &Option<String>) -> (r: String)
    ensures
        r@ == dash_or(opt_view(*o)),
{
    match o {
        Some(v) => v.clone(),
        None => "-".to_owned(),
    }
}

fn opt_or_dash(o: Option<String>) -> (r: String)
    ensures
        r@ == dash_or(opt_view(o)),
{
    match o {
        Some(v) => v,
        None => "-".to_owned(),
    }
}

/// Formats an instant for a reconstruction.
pub fn format_time(micros: Option<i64>, offset: Option<i32>, format: &TimestampFormat) -> (r: String)
    ensures
        r@ == time_text(micros, offset, *format),
{
    let off: i32 = match offset { Some(o) => o, None => 0 };
    match micros {
        None => "-".to_owned(),
        Some(us) => {
            let t = match format {
                TimestampFormat::Clf => zoned_format(us, off, "%d/%b/%Y:%H:%M:%S %z"),
                TimestampFormat::Iso8601 => zoned_rfc3339(us, off),
                TimestampFormat::Custom { pattern } => if is_valid_strftime(pattern.as_str()) {
                    zoned_format(us, off, pattern.as_str())
                } else {
                    zoned_rfc3339(us, off)
                },
            };
            opt_or_dash(t)
        },
    }
}

/// The request line of a detail: `-` when all three parts are missing, else the parts
/// joined by spaces with `-` for a missing one.
pub open spec fn request_text(d: LogDetail) -> Seq<char> {
    if d.method is None && d.request_target is None && d.protocol is None {
        "-"@
    } else {
        dash_or(opt_view(d.method)) + " "@ + dash_or(opt_view(d.request_target)) + " "@ + dash_or(opt_view(d.protocol))
    }
}

/// An optional integer in decimal, or `-`.
pub open spec fn int_or_dash(o: Option<int>) -> Seq<char> {
    match o {
        Some(n) => signed_decimal(n),
        None => "-"@,
    }
}

/// The Combined-like text of a detail. Missing values are shown as `-`, never guessed.
pub open spec fn standard_text(d: LogDetail) -> Seq<char> {
    dash_or(opt_view(d.client_ip)) + " - - ["@ + time_text(d.timestamp_utc, d.tz_offset_seconds, TimestampFormat::Clf)
        + "] \""@ + request_text(d) + "\" "@
        + int_or_dash(match d.status { Some(s) => Some(s as int), None => None })
        + " "@ + int_or_dash(match d.bytes_sent { Some(b) => Some(b as int), None => None })
        + " \""@ + dash_or(opt_view(d.referrer)) + "\" \""@ + dash_or(opt_view(d.user_agent)) + "\""@
}

fn int_text(o: Option<i64>) -> (r: String)
    ensures
        r@ == int_or_dash(match o { Some(n) => Some(n as int), None => None }),
{
    match o {
        Some(n) => crate::text::i64_to_string(n),
        None => "-".to_owned(),
    }
}

fn request_line(d: &LogDetail) -> (r: String)
    ensures
        r@ == request_text(*d),
{
    if d.method.is_none() && d.request_target.is_none() && d.protocol.is_none() {
        return "-".to_owned();
    }
    let mut v: Vec<char> = Vec::new();
    push_str(&mut v, or_dash(&d.method).as_str());
    push_str(&mut v, " ");
    push_str(&mut v, or_dash(&d.request_target).as_str());
    push_str(&mut v, " ");
    push_str(&mut v, or_dash(&d.protocol).as_str());
    chars_to_string(&v)
}

/// Reconstructs a detail as a Combined-like text.
pub fn combined_like(detail: &LogDetail) -> (r: Reconstructed)
    ensures
        r.text@ == standard_text(*detail),
        r.is_reconstruction,
        r.template@ == "standard"@,
        r.complete,
{
    let mut v: Vec<char> = Vec::new();
    push_str(&mut v, or_dash(&detail.client_ip).as_str());
    push_str(&mut v, " - - [");
    push_str(&mut v, format_time(detail.timestamp_utc, detail.tz_offset_seconds, &TimestampFormat::Clf).as_str());
    push_str(&mut v, "] \"");
    push_str(&mut v, request_line(detail).as_str());
    push_str(&mut v, "\" ");
    push_str(&mut v, int_text(match detail.status { Some(s) => Some(s as i64), None => None }).as_str());
    push_str(&mut v, " ");
    push_str(&mut v, int_text(detail.bytes_sent).as_str());
    push_str(&mut v, " \"");
    push_str(&mut v, or_dash(&detail.referrer).as_str());
    push_str(&mut v, "\" \"");
    push_str(&mut v, or_dash(&detail.user_agent).as_str());
    push_str(&mut v, "\"");
    Reconstructed { text: chars_to_string(&v), is_reconstruction: true, template: "standard", complete: true }
}

/// The stored value of a field of kind `kind` named `name`, if any.
pub open spec fn value_of(kind: FieldKind, name: Seq<char>, d: LogDetail, extra: Map<Seq<char>, Seq<char>>) -> Option<Seq<char>> {
    match kind {
        FieldKind::ClientIp => opt_view(d.client_ip),
        FieldKind::Timestamp { format } => match d.timestamp_utc {
            Some(_) => Some(time_text(d.timestamp_utc, d.tz_offset_seconds, format)),
            None => None,
        },
        FieldKind::RequestLine => if d.method is None && d.request_target is None && d.protocol is None {
            None
        } else if d.method is None && d.protocol is None {
            opt_view(d.request_target)
        } else {
            Some(request_text(d))
        },
        FieldKind::Method => opt_view(d.method),
        FieldKind::RequestTarget => opt_view(d.request_target),
        FieldKind::Protocol => opt_view(d.protocol),
        FieldKind::Status => match d.status { Some(s) => Some(signed_decimal(s as int)), None => None },
        FieldKind::BytesSent => match d.bytes_sent { Some(b) => Some(signed_decimal(b as int)), None => None },
        FieldKind::Referrer => opt_view(d.referrer),
        FieldKind::UserAgent => opt_view(d.user_agent),
        FieldKind::Integer | FieldKind::Text => if extra.dom().contains(name) { Some(extra[name]) } else { None },
    }
}

/// The stored value of a field.
pub fn field_value(kind: &FieldKind, name: &str, detail: &LogDetail, extra: &ExtraFields) -> (r: Option<String>)
    ensures
        opt_view(r) == value_of(*kind, name@, *detail, extra.view()),
{
    match kind {
        FieldKind::ClientIp => detail.client_ip.clone(),
        FieldKind::Timestamp { format } => match detail.timestamp_utc {
            Some(_) => Some(format_time(detail.timestamp_utc, detail.tz_offset_seconds, format)),
            None => None,
        },
        FieldKind::RequestLine => {
            if detail.method.is_none() && detail.request_target.is_none() && detail.protocol.is_none() {
                None
            } else if detail.method.is_none() && detail.protocol.is_none() {
                detail.request_target.clone()
            } else {
                Some(request_line(detail))
            }
        },
        FieldKind::Method => detail.method.clone(),
        FieldKind::RequestTarget => detail.request_target.clone(),
        FieldKind::Protocol => detail.protocol.clone(),
        FieldKind::Status => match detail.status {
            Some(s) => Some(crate::text::i64_to_string(s as i64)),
            None => None,
        },
        FieldKind::BytesSent => match detail.bytes_sent {
            Some(b) => Some(crate::text::i64_to_string(b)),
            None => None,
        },
        FieldKind::Referrer => detail.referrer.clone(),
        FieldKind::UserAgent => detail.user_agent.clone(),
        FieldKind::Integer | FieldKind::Text => extra.get(name),
    }
}

/// Some named capture group of a regex is an extension field present in `extra`.
pub open spec fn regex_has_value(pattern: Seq<char>, extra: Map<Seq<char>, Seq<char>>) -> bool {
    match regex_new_result(pattern) {
        Ok(names) => exists|i: int| 0 <= i < names.len() && (#[trigger] names[i]) is Some && extra.dom().contains(names[i]->Some_0),
        Err(_) => false,
    }
}

/// Whether some block of an optional group has a value to show.
pub open spec fn list_has_value(bs: Seq<Block>, n: int, d: LogDetail, extra: Map<Seq<char>, Seq<char>>) -> bool
    decreases bs, 1int, n,
{
    if n <= 0 || n > bs.len() {
        false
    } else {
        list_has_value(bs, n - 1, d, extra) || block_has_value(bs[n - 1], d, extra)
    }
}

/// Whether a block has a value to show: a field with a stored value, a group with one,
/// or a regex whose named capture is stored.
pub open spec fn block_has_value(b: Block, d: LogDetail, extra: Map<Seq<char>, Seq<char>>) -> bool
    decreases b, 0int, 0int,
{
    match b {
        Block::Field(def) => value_of(def.kind, def.name@, d, extra) is Some,
        Block::OptionalGroup { blocks } => list_has_value(blocks@, blocks@.len() as int, d, extra),
        Block::Regex { pattern } => regex_has_value(pattern@, extra),
        _ => false,
    }
}

fn regex_value_present(pattern: &str, extra: &ExtraFields) -> (r: bool)
    ensures
        r == regex_has_value(pattern@, extra.view()),
{
    match regex_new(pattern) {
        Err(_) => false,
        Ok(names) => {
            let ghost nv = crate::ext::opt_strings_view(names@);
            let mut i: usize = 0;
            while i < names.len()
                invariant
                    i <= names.len(),
                    nv == crate::ext::opt_strings_view(names@),
                    regex_new_result(pattern@) == Ok::<Seq<Option<Seq<char>>>, Seq<char>>(nv),
                    forall|k: int| 0 <= k < i ==> !((#[trigger] nv[k]) is Some && extra.view().dom().contains(nv[k]->Some_0)),
                decreases names.len() - i,
            {
                if let Some(n) = &names[i] {
                    assert(nv[i as int] == Some(n@));
                    if extra.contains_key(n.as_str()) {
                        assert(nv[i as int] is Some && extra.view().dom().contains(nv[i as int]->Some_0));
                        return true;
                    }
                } else {
                    assert(nv[i as int] is None);
                }
                i = i + 1;
            }
            false
        },
    }
}

/// Whether a block list has a value to show.
fn group_has_value(blocks: &[Block], detail: &LogDetail, extra: &ExtraFields) -> (r: bool)
    ensures
        r == list_has_value(blocks@, blocks@.len() as int, *detail, extra.view()),
    decreases blocks@, 2int, 0int,
{
    let mut i: usize = 0;
    while i < blocks.len()
        invariant
            i <= blocks.len(),
            !list_has_value(blocks@, i as int, *detail, extra.view()),
        decreases blocks.len() - i,
    {
        proof { assert(decreases_to!(blocks@ => blocks@[i as int])); }
        let has = match &blocks[i] {
            Block::Field(def) => field_value(&def.kind, def.name.as_str(), detail, extra).is_some(),
            Block::OptionalGroup { blocks: inner } => {
                proof { assert(decreases_to!(blocks@[i as int] => inner@)); }
                group_has_value(inner.as_slice(), detail, extra)
            },
            Block::Regex { pattern } => regex_value_present(pattern.as_str(), extra),
            _ => false,
        };
        assert(has == block_has_value(blocks@[i as int], *detail, extra.view()));
        if has {
            proof { lemma_has_value_stays(blocks@, i as int + 1, blocks@.len() as int, *detail, extra.view()); }
            return true;
        }
        i = i + 1;
    }
    false
}

proof fn lemma_has_value_stays(bs: Seq<Block>, k: int, n: int, d: LogDetail, extra: Map<Seq<char>, Seq<char>>)
    requires
        1 <= k <= n <= bs.len(),
        list_has_value(bs, k, d, extra),
    ensures
        list_has_value(bs, n, d, extra),
    decreases n - k,
{
    if n > k {
        lemma_has_value_stays(bs, k, n - 1, d, extra);
    }
}

/// The value shown for a field: its stored value, else its first missing marker, else `-`.
pub open spec fn shown_value(def: crate::model::FieldDef, d: LogDetail, extra: Map<Seq<char>, Seq<char>>) -> Seq<char> {
    match value_of(def.kind, def.name@, d, extra) {
        Some(v) => v,
        None => if def.missing@.len() > 0 { def.missing@[0]@ } else { "-"@ },
    }
}

/// What a block list gives, and whether it stayed complete.
pub open spec fn emit_list(bs: Seq<Block>, n: int, d: LogDetail, extra: Map<Seq<char>, Seq<char>>) -> (Seq<char>, bool)
    decreases bs, 1int, n,
{
    if n <= 0 || n > bs.len() {
        (seq![], true)
    } else {
        let (s, c) = emit_list(bs, n - 1, d, extra);
        let (s2, c2) = emit_one(bs[n - 1], d, extra);
        (s + s2, c && c2)
    }
}

/// What one block gives: literals as written, whitespace as one space, fields with their
/// quotes or brackets, groups only when they have a value, and `…` for a regex block
/// (which makes the text incomplete).
pub open spec fn emit_one(b: Block, d: LogDetail, extra: Map<Seq<char>, Seq<char>>) -> (Seq<char>, bool)
    decreases b, 0int, 0int,
{
    match b {
        Block::Literal { text } => (text@, true),
        Block::Whitespace => (" "@, true),
        Block::Field(def) => {
            let v = shown_value(def, d, extra);
            (match def.capture {
                Capture::Quoted => "\""@ + v + "\""@,
                Capture::Bracketed => "["@ + v + "]"@,
                _ => v,
            }, true)
        },
        Block::OptionalGroup { blocks } => if list_has_value(blocks@, blocks@.len() as int, d, extra) {
            emit_list(blocks@, blocks@.len() as int, d, extra)
        } else {
            (seq![], true)
        },
        Block::Regex { .. } => ("…"@, false),
    }
}

fn emit_blocks(blocks: &[Block], detail: &LogDetail, extra: &ExtraFields, out: &mut Vec<char>, complete: &mut bool)
    ensures
        final(out)@ == old(out)@ + emit_list(blocks@, blocks@.len() as int, *detail, extra.view()).0,
        *final(complete) == (*old(complete) && emit_list(blocks@, blocks@.len() as int, *detail, extra.view()).1),
    decreases blocks@, 2int, 0int,
{
    let ghost out0 = out@;
    let ghost c0 = *complete;
    let mut i: usize = 0;
    while i < blocks.len()
        invariant
            i <= blocks.len(),
            out@ == out0 + emit_list(blocks@, i as int, *detail, extra.view()).0,
            *complete == (c0 && emit_list(blocks@, i as int, *detail, extra.view()).1),
        decreases blocks.len() - i,
    {
        proof { assert(decreases_to!(blocks@ => blocks@[i as int])); }
        match &blocks[i] {
            Block::Literal { text } => {
                push_str(out, text.as_str());
            },
            Block::Whitespace => {
                push_str(out, " ");
            },
            Block::Field(def) => {
                let value = match field_value(&def.kind, def.name.as_str(), detail, extra) {
                    Some(v) => v,
                    None => if def.missing.len() > 0 {
                        def.missing[0].clone()
                    } else {
                        "-".to_owned()
                    },
                };
                match &def.capture {
                    Capture::Quoted => {
                        push_str(out, "\"");
                        push_str(out, value.as_str());
                        push_str(out, "\"");
                    },
                    Capture::Bracketed => {
                        push_str(out, "[");
                        push_str(out, value.as_str());
                        push_str(out, "]");
                    },
                    _ => {
                        push_str(out, value.as_str());
                    },
                }
            },
            Block::OptionalGroup { blocks: inner } => {
                proof { assert(decreases_to!(blocks@[i as int] => inner@)); }
                if group_has_value(inner.as_slice(), detail, extra) {
                    emit_blocks(inner.as_slice(), detail, extra, out, complete);
                } else {
                    assert(out@ =~= out@ + Seq::<char>::empty());
                }
            },
            Block::Regex { .. } => {
                *complete = false;
                push_str(out, "…");
            },
        }
        proof {
            let prev = emit_list(blocks@, i as int, *detail, extra.view());
            let step = emit_one(blocks@[i as int], *detail, extra.view());
            assert(emit_list(blocks@, i + 1, *detail, extra.view()) == (prev.0 + step.0, prev.1 && step.1));
            assert(out@ =~= out0 + (prev.0 + step.0));
        }
        i = i + 1;
    }
}

/// Reconstructs a detail following the profile's blocks. A W3C profile has no blocks;
/// its detail is shown as the standard text, marked incomplete.
pub fn from_profile(profile: &FormatProfile, detail: &LogDetail, extra: &ExtraFields) -> (r: Reconstructed)
    ensures
        r.is_reconstruction,
        match profile.strategy {
            Strategy::W3c => r.text@ == standard_text(*detail) && r.template@ == "standard"@ && !r.complete,
            Strategy::Blocks { blocks } => r.text@ == emit_list(blocks@, blocks@.len() as int, *detail, extra.view()).0
                && r.template@ == "blocks"@ && r.complete == emit_list(blocks@, blocks@.len() as int, *detail, extra.view()).1,
        },
{
    match &profile.strategy {
        Strategy::W3c => {
            let mut r = combined_like(detail);
            r.complete = false;
            r
        },
        Strategy::Blocks { blocks } => {
            let mut v: Vec<char> = Vec::new();
            let mut complete = true;
            emit_blocks(blocks.as_slice(), detail, extra, &mut v, &mut complete);
            Reconstructed { text: chars_to_string(&v), is_reconstruction: true, template: "blocks", complete }
        },
    }
}

/// Whether the first `n` blocks show a regex block: one at this level, or one inside an
/// optional group that is shown because it has a value.
pub open spec fn regex_shown_list(bs: Seq<Block>, n: int, d: LogDetail, extra: Map<Seq<char>, Seq<char>>) -> bool
    decreases bs, 1int, n,
{
    if n <= 0 || n > bs.len() {
        false
    } else {
        regex_shown_list(bs, n - 1, d, extra) || regex_shown(bs[n - 1], d, extra)
    }
}

/// Whether a block shows a regex block.
pub open spec fn regex_shown(b: Block, d: LogDetail, extra: Map<Seq<char>, Seq<char>>) -> bool
    decreases b, 0int, 0int,
{
    match b {
        Block::Regex { .. } => true,
        Block::OptionalGroup { blocks } => list_has_value(blocks@, blocks@.len() as int, d, extra)
            && regex_shown_list(blocks@, blocks@.len() as int, d, extra),
        _ => false,
    }
}

/// A reconstruction from blocks is incomplete exactly when it shows a regex block (at the
/// top level or inside an optional group shown because it has a value).
pub proof fn lemma_incomplete_iff_regex_shown(bs: Seq<Block>, n: int, d: LogDetail, extra: Map<Seq<char>, Seq<char>>)
    ensures
        !emit_list(bs, n, d, extra).1 <==> regex_shown_list(bs, n, d, extra),
    decreases bs, 1int, n,
{
    if 0 < n <= bs.len() {
        lemma_incomplete_iff_regex_shown(bs, n - 1, d, extra);
        lemma_block_incomplete_iff_regex_shown(bs[n - 1], d, extra);
    }
}

/// One block is incomplete exactly when it shows a regex block.
pub proof fn lemma_block_incomplete_iff_regex_shown(b: Block, d: LogDetail, extra: Map<Seq<char>, Seq<char>>)
    ensures
        !emit_one(b, d, extra).1 <==> regex_shown(b, d, extra),
    decreases b, 0int, 0int,
{
    match b {
        Block::OptionalGroup { blocks } => {
            lemma_incomplete_iff_regex_shown(blocks@, blocks@.len() as int, d, extra);
        },
        _ => {},
    }
}

/// The stored value of an optional text as a log field: the value itself, `-` when absent.
pub open spec fn field_or_dash(o: Option<String>) -> Seq<char> {
    match o {
        Some(v) => v@,
        None => "-"@,
    }
}

/// An optional number as a log field: its decimal text, `-` when absent.
pub open spec fn number_or_dash(o: Option<int>) -> Seq<char> {
    match o {
        Some(n) => signed_decimal(n),
        None => "-"@,
    }
}

/// `x` begins with `w`.
pub open spec fn begins_with(x: Seq<char>, w: Seq<char>) -> bool {
    x.len() >= w.len() && x.subrange(0, w.len() as int) == w
}

/// `x` ends with `w`.
pub open spec fn ends_with(x: Seq<char>, w: Seq<char>) -> bool {
    x.len() >= w.len() && x.subrange(x.len() - w.len(), x.len() as int) == w
}

proof fn lemma_begins_extend(x: Seq<char>, w: Seq<char>, z: Seq<char>)
    requires
        begins_with(x, w),
    ensures
        begins_with(x + z, w),
{
    assert((x + z).subrange(0, w.len() as int) =~= x.subrange(0, w.len() as int));
}

proof fn lemma_ends_extend(x: Seq<char>, w: Seq<char>, z: Seq<char>)
    requires
        ends_with(x, w),
    ensures
        ends_with(x + z, w + z),
{
    let y = x + z;
    assert(y.subrange(y.len() - (w + z).len(), y.len() as int) =~= w + z) by {
        assert forall|i: int| 0 <= i < (w + z).len() implies y.subrange(y.len() - (w + z).len(), y.len() as int)[i]
            == (w + z)[i] by {
            if i < w.len() {
                assert(x.subrange(x.len() - w.len(), x.len() as int)[i] == w[i]);
            }
        }
    }
}

/// The Combined-like text of a stored record holds its fields in Combined order: it
/// starts with the client address and the empty identity and user fields, and ends with
/// the quoted request's closing quote, the status, the byte count, the quoted referrer and
/// the quoted user agent, each the stored value or `-` when none was stored.
pub proof fn lemma_standard_text_fields(d: LogDetail)
    ensures
        begins_with(standard_text(d), field_or_dash(d.client_ip) + " - - ["@),
        ends_with(standard_text(d), "\" "@ + number_or_dash(match d.status { Some(s) => Some(s as int), None => None })
            + " "@ + number_or_dash(match d.bytes_sent { Some(b) => Some(b as int), None => None }) + " \""@
            + field_or_dash(d.referrer) + "\" \""@ + field_or_dash(d.user_agent) + "\""@),
{
    let ip = field_or_dash(d.client_ip);
    let st = number_or_dash(match d.status { Some(s) => Some(s as int), None => None });
    let by = number_or_dash(match d.bytes_sent { Some(b) => Some(b as int), None => None });
    let rf = field_or_dash(d.referrer);
    let ua = field_or_dash(d.user_agent);
    assert(ip == dash_or(opt_view(d.client_ip)));
    assert(rf == dash_or(opt_view(d.referrer)));
    assert(ua == dash_or(opt_view(d.user_agent)));
    assert(st == int_or_dash(match d.status { Some(s) => Some(s as int), None => None }));
    assert(by == int_or_dash(match d.bytes_sent { Some(b) => Some(b as int), None => None }));
    let tm = time_text(d.timestamp_utc, d.tz_offset_seconds, TimestampFormat::Clf);
    let rq = request_text(d);
    let head = ip + " - - ["@;
    assert(begins_with(head, head)) by {
        assert(head.subrange(0, head.len() as int) =~= head);
    }
    let p1 = head + tm;
    lemma_begins_extend(head, head, tm);
    let p2 = p1 + "] \""@;
    lemma_begins_extend(p1, head, "] \""@);
    let p3 = p2 + rq;
    lemma_begins_extend(p2, head, rq);
    let q = "\" "@;
    assert(ends_with(q, q)) by {
        assert(q.subrange(0, q.len() as int) =~= q);
    }
    assert(ends_with(p3 + q, q)) by {
        assert((p3 + q).subrange((p3 + q).len() - q.len(), (p3 + q).len() as int) =~= q);
    }
    lemma_begins_extend(p3, head, q);
    let mut x = p3 + q;
    let mut w = q;
    lemma_begins_extend(x, head, st);
    lemma_ends_extend(x, w, st);
    x = x + st;
    w = w + st;
    lemma_begins_extend(x, head, " "@);
    lemma_ends_extend(x, w, " "@);
    x = x + " "@;
    w = w + " "@;
    lemma_begins_extend(x, head, by);
    lemma_ends_extend(x, w, by);
    x = x + by;
    w = w + by;
    lemma_begins_extend(x, head, " \""@);
    lemma_ends_extend(x, w, " \""@);
    x = x + " \""@;
    w = w + " \""@;
    lemma_begins_extend(x, head, rf);
    lemma_ends_extend(x, w, rf);
    x = x + rf;
    w = w + rf;
    lemma_begins_extend(x, head, "\" \""@);
    lemma_ends_extend(x, w, "\" \""@);
    x = x + "\" \""@;
    w = w + "\" \""@;
    lemma_begins_extend(x, head, ua);
    lemma_ends_extend(x, w, ua);
    x = x + ua;
    w = w + ua;
    lemma_begins_extend(x, head, "\""@);
    lemma_ends_extend(x, w, "\""@);
    x = x + "\""@;
    w = w + "\""@;
    assert(x == standard_text(d));
}

/// With a method, a target and a protocol stored, the Combined-like text ends with the
/// quoted request line made of them, then the status, the byte count, the quoted referrer
/// and the quoted user agent.
pub proof fn lemma_standard_text_request(d: LogDetail)
    requires
        d.method is Some && d.request_target is Some && d.protocol is Some,
    ensures
        ends_with(standard_text(d), "\""@ + field_or_dash(d.method) + " "@ + field_or_dash(d.request_target) + " "@
            + field_or_dash(d.protocol) + "\" "@ + number_or_dash(match d.status { Some(s) => Some(s as int), None => None })
            + " "@ + number_or_dash(match d.bytes_sent { Some(b) => Some(b as int), None => None }) + " \""@
            + field_or_dash(d.referrer) + "\" \""@ + field_or_dash(d.user_agent) + "\""@),
{
    let ip = dash_or(opt_view(d.client_ip));
    let st = number_or_dash(match d.status { Some(s) => Some(s as int), None => None });
    let by = number_or_dash(match d.bytes_sent { Some(b) => Some(b as int), None => None });
    let rf = field_or_dash(d.referrer);
    let ua = field_or_dash(d.user_agent);
    let me = field_or_dash(d.method);
    let ta = field_or_dash(d.request_target);
    let pr = field_or_dash(d.protocol);
    assert(rf == dash_or(opt_view(d.referrer)));
    assert(ua == dash_or(opt_view(d.user_agent)));
    assert(me == dash_or(opt_view(d.method)));
    assert(ta == dash_or(opt_view(d.request_target)));
    assert(pr == dash_or(opt_view(d.protocol)));
    assert(st == int_or_dash(match d.status { Some(s) => Some(s as int), None => None }));
    assert(by == int_or_dash(match d.bytes_sent { Some(b) => Some(b as int), None => None }));
    assert(request_text(d) == me + " "@ + ta + " "@ + pr);
    let tm = time_text(d.timestamp_utc, d.tz_offset_seconds, TimestampFormat::Clf);
    let p1 = ip + " - - ["@ + tm;
    let open = "] \""@;
    let quote = "\""@;
    reveal_strlit("] \"");
    reveal_strlit("\"");
    assert(ends_with(p1 + open, quote)) by {
        assert((p1 + open).subrange((p1 + open).len() - 1, (p1 + open).len() as int) =~= quote);
    }
    let mut x = p1 + open;
    let mut w = quote;
    lemma_ends_extend(x, w, me);
    x = x + me;
    w = w + me;
    lemma_ends_extend(x, w, " "@);
    x = x + " "@;
    w = w + " "@;
    lemma_ends_extend(x, w, ta);
    x = x + ta;
    w = w + ta;
    lemma_ends_extend(x, w, " "@);
    x = x + " "@;
    w = w + " "@;
    lemma_ends_extend(x, w, pr);
    x = x + pr;
    w = w + pr;
    assert(x =~= p1 + open + request_text(d));
    lemma_ends_extend(x, w, "\" "@);
    x = x + "\" "@;
    w = w + "\" "@;
    lemma_ends_extend(x, w, st);
    x = x + st;
    w = w + st;
    lemma_ends_extend(x, w, " "@);
    x = x + " "@;
    w = w + " "@;
    lemma_ends_extend(x, w, by);
    x = x + by;
    w = w + by;
    lemma_ends_extend(x, w, " \""@);
    x = x + " \""@;
    w = w + " \""@;
    lemma_ends_extend(x, w, rf);
    x = x + rf;
    w = w + rf;
    lemma_ends_extend(x, w, "\" \""@);
    x = x + "\" \""@;
    w = w + "\" \""@;
    lemma_ends_extend(x, w, ua);
    x = x + ua;
    w = w + ua;
    lemma_ends_extend(x, w, "\""@);
    x = x + "\""@;
    w = w + "\""@;
    assert(x =~= standard_text(d));
}

} // verus!
