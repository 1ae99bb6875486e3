//! Built-in presets: Apache/Nginx Common and Combined, IIS W3C.

use vstd::prelude::*;

use crate::model::{Block, Capture, FieldDef, FieldKind, FormatProfile, ServerHint, Strategy, TimestampFormat, TimezonePolicy, SCHEMA_VERSION};
use crate::text::str_eq;

verus! {

/// Names of the built-in presets.
pub const PRESET_NAMES: [&'static str; 5] = ["common", "combined", "apache_combined", "nginx_combined", "iis_w3c"];

/// `b` is the field block `name` of the given kind and capture whose only missing value is `-`.
pub open spec fn is_dash_field(b: Block, name: Seq<char>, kind: FieldKind, capture: Capture) -> bool {
    &&& b matches Block::Field(d)
    &&& d.name@ == name
    &&& d.kind == kind
    &&& d.capture == capture
    &&& d.missing@.len() == 1
    &&& d.missing@[0]@ == "-"@
}

/// The blocks of the Common Log Format: ip, ident, user, [time], "request", status, bytes,
/// separated by whitespace blocks.
pub open spec fn is_common_blocks(s: Seq<Block>) -> bool {
    &&& s.len() >= 13
    &&& is_dash_field(s[0], "client_ip"@, FieldKind::ClientIp, Capture::Token)
    &&& s[1] is Whitespace
    &&& is_dash_field(s[2], "ident"@, FieldKind::Text, Capture::Token)
    &&& s[3] is Whitespace
    &&& is_dash_field(s[4], "remote_user"@, FieldKind::Text, Capture::Token)
    &&& s[5] is Whitespace
    &&& is_dash_field(s[6], "timestamp"@, FieldKind::Timestamp { format: TimestampFormat::Clf }, Capture::Bracketed)
    &&& s[7] is Whitespace
    &&& is_dash_field(s[8], "request"@, FieldKind::RequestLine, Capture::Quoted)
    &&& s[9] is Whitespace
    &&& is_dash_field(s[10], "status"@, FieldKind::Status, Capture::Token)
    &&& s[11] is Whitespace
    &&& is_dash_field(s[12], "bytes_sent"@, FieldKind::BytesSent, Capture::Token)
}

/// Common blocks followed by whitespace, "referrer", whitespace, "user agent".
pub open spec fn is_combined_blocks(s: Seq<Block>) -> bool {
    &&& s.len() == 17
    &&& is_common_blocks(s)
    &&& s[13] is Whitespace
    &&& is_dash_field(s[14], "referrer"@, FieldKind::Referrer, Capture::Quoted)
    &&& s[15] is Whitespace
    &&& is_dash_field(s[16], "user_agent"@, FieldKind::UserAgent, Capture::Quoted)
}

/// A version-1 profile of the current schema with the given name, hint and zone policy.
pub open spec fn is_preset_header(p: FormatProfile, name: Seq<char>, hint: ServerHint, tz: TimezonePolicy) -> bool {
    &&& p.schema_version == SCHEMA_VERSION
    &&& p.name@ == name
    &&& p.version == 1
    &&& p.server_hint == hint
    &&& p.timezone == tz
}

/// `p` is the Common preset with hint `hint`.
pub open spec fn is_common_profile(p: FormatProfile, hint: ServerHint) -> bool {
    &&& is_preset_header(p, "common"@, hint, TimezonePolicy::FromInput)
    &&& p.strategy matches Strategy::Blocks { blocks } && blocks@.len() == 13 && is_common_blocks(blocks@)
}

/// `p` is the Combined preset named `name` with hint `hint`.
pub open spec fn is_combined_profile(p: FormatProfile, hint: ServerHint) -> bool {
    &&& is_preset_header(p, "combined"@, hint, TimezonePolicy::FromInput)
    &&& p.strategy matches Strategy::Blocks { blocks } && is_combined_blocks(blocks@)
}

/// `p` is the IIS W3C preset.
pub open spec fn is_w3c_profile(p: FormatProfile) -> bool {
    &&& is_preset_header(p, "iis_w3c"@, ServerHint::Iis, TimezonePolicy::Utc)
    &&& p.strategy is W3c
}

/// The preset that [`by_name`] gives for `name`, described.
pub open spec fn is_named_preset(name: Seq<char>, p: FormatProfile) -> bool {
    if name == "common"@ {
        is_common_profile(p, ServerHint::Unknown)
    } else if name == "combined"@ {
        is_combined_profile(p, ServerHint::Unknown)
    } else if name == "apache_combined"@ {
        is_combined_profile(p, ServerHint::Apache)
    } else if name == "nginx_combined"@ {
        is_combined_profile(p, ServerHint::Nginx)
    } else {
        is_w3c_profile(p)
    }
}

/// A name that [`by_name`] knows.
pub open spec fn is_preset_name(name: Seq<char>) -> bool {
    name == "common"@ || name == "combined"@ || name == "apache_combined"@ || name == "nginx_combined"@
        || name == "iis_w3c"@ || name == "w3c"@
}

fn dash_list() -> (r: Vec<String>)
    ensures
        r@.len() == 1,
        r@[0]@ == "-"@,
{
    let mut v: Vec<String> = Vec::new();
    v.push("-".to_owned());
    v
}

/// A field block whose only missing value is `-`.
pub fn field(name: &str, kind: FieldKind, capture: Capture) -> (b: Block)
    ensures
        is_dash_field(b, name@, kind, capture),
{
    Block::Field(FieldDef { name: name.to_owned(), kind, capture, missing: dash_list() })
}

/// Blocks of the Common Log Format.
pub fn common_blocks() -> (r: Vec<Block>)
    ensures
        r@.len() == 13,
        is_common_blocks(r@),
{
    let mut v: Vec<Block> = Vec::new();
    v.push(field("client_ip", FieldKind::ClientIp, Capture::Token));
    v.push(Block::Whitespace);
    v.push(field("ident", FieldKind::Text, Capture::Token));
    v.push(Block::Whitespace);
    v.push(field("remote_user", FieldKind::Text, Capture::Token));
    v.push(Block::Whitespace);
    v.push(field("timestamp", FieldKind::Timestamp { format: TimestampFormat::Clf }, Capture::Bracketed));
    v.push(Block::Whitespace);
    v.push(field("request", FieldKind::RequestLine, Capture::Quoted));
    v.push(Block::Whitespace);
    v.push(field("status", FieldKind::Status, Capture::Token));
    v.push(Block::Whitespace);
    v.push(field("bytes_sent", FieldKind::BytesSent, Capture::Token));
    v
}

/// Apache/Nginx Common Log Format.
pub fn common(server_hint: ServerHint) -> (p: FormatProfile)
    ensures
        is_common_profile(p, server_hint),
{
    FormatProfile {
        schema_version: SCHEMA_VERSION,
        name: "common".to_owned(),
        version: 1,
        server_hint,
        timezone: TimezonePolicy::FromInput,
        strategy: Strategy::Blocks { blocks: common_blocks() },
    }
}

/// Apache/Nginx Combined Log Format (Common plus referrer and user agent).
pub fn combined(server_hint: ServerHint) -> (p: FormatProfile)
    ensures
        is_combined_profile(p, server_hint),
{
    let mut blocks = common_blocks();
    let ghost head = blocks@;
    blocks.push(Block::Whitespace);
    blocks.push(field("referrer", FieldKind::Referrer, Capture::Quoted));
    blocks.push(Block::Whitespace);
    blocks.push(field("user_agent", FieldKind::UserAgent, Capture::Quoted));
    assert(blocks@.subrange(0, 13) == head);
    FormatProfile {
        schema_version: SCHEMA_VERSION,
        name: "combined".to_owned(),
        version: 1,
        server_hint,
        timezone: TimezonePolicy::FromInput,
        strategy: Strategy::Blocks { blocks },
    }
}

/// Apache Combined preset.
pub fn apache_combined() -> (p: FormatProfile)
    ensures
        is_combined_profile(p, ServerHint::Apache),
{
    combined(ServerHint::Apache)
}

/// Nginx Combined preset (the same as Nginx's default `combined`).
pub fn nginx_combined() -> (p: FormatProfile)
    ensures
        is_combined_profile(p, ServerHint::Nginx),
{
    combined(ServerHint::Nginx)
}

/// IIS W3C extended log preset. Header driven; times are written in UTC.
pub fn iis_w3c() -> (p: FormatProfile)
    ensures
        is_w3c_profile(p),
{
    FormatProfile {
        schema_version: SCHEMA_VERSION,
        name: "iis_w3c".to_owned(),
        version: 1,
        server_hint: ServerHint::Iis,
        timezone: TimezonePolicy::Utc,
        strategy: Strategy::W3c,
    }
}

/// Finds a preset by name: `common`, `combined`, `apache_combined`, `nginx_combined`,
/// `iis_w3c` (also `w3c`).
pub fn by_name(name: &str) -> (r: Option<FormatProfile>)
    ensures
        r is Some <==> is_preset_name(name@),
        r matches Some(p) ==> is_named_preset(name@, p),
{
    if str_eq(name, "common") {
        Some(common(ServerHint::Unknown))
    } else if str_eq(name, "combined") {
        Some(combined(ServerHint::Unknown))
    } else if str_eq(name, "apache_combined") {
        Some(apache_combined())
    } else if str_eq(name, "nginx_combined") {
        Some(nginx_combined())
    } else if str_eq(name, "iis_w3c") || str_eq(name, "w3c") {
        let p = iis_w3c();
        proof {
            reveal_strlit("common");
            reveal_strlit("combined");
            reveal_strlit("apache_combined");
            reveal_strlit("nginx_combined");
            reveal_strlit("iis_w3c");
            reveal_strlit("w3c");
        }
        Some(p)
    } else {
        None
    }
}

/// All built-in presets as (name, definition), in the order of [`PRESET_NAMES`].
pub fn builtin() -> (r: Vec<(&'static str, FormatProfile)>)
    ensures
        r@.len() == 5,
        forall|i: int| 0 <= i < 5 ==> (#[trigger] r@[i]).0@ == PRESET_NAMES@[i]@ && is_named_preset(r@[i].0@, r@[i].1),
{
    let mut out: Vec<(&'static str, FormatProfile)> = Vec::new();
    out.push(("common", common(ServerHint::Unknown)));
    out.push(("combined", combined(ServerHint::Unknown)));
    out.push(("apache_combined", apache_combined()));
    out.push(("nginx_combined", nginx_combined()));
    out.push(("iis_w3c", iis_w3c()));
    proof {
        reveal_strlit("common");
        reveal_strlit("combined");
        reveal_strlit("apache_combined");
        reveal_strlit("nginx_combined");
        reveal_strlit("iis_w3c");
    }
    out
}

} // verus!
