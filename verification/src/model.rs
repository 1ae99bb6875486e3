//! Versioned, structured format definitions. The puzzle editor and the YAML
//! form both edit this one definition.

use vstd::prelude::*;

use crate::ext::str_chars;
use crate::text::{push_str, u64_to_string};

verus! {

/// Current schema version of a format definition.
pub const SCHEMA_VERSION: u32 = 1;

/// Server hint. Kept apart from the real format; `Unknown` still parses once the format is known.
#[derive(Debug, Clone, Copy, PartialEq, Eq)]
pub enum ServerHint {
    /// Apache HTTP Server.
    Apache,
    /// Nginx.
    Nginx,
    /// Microsoft IIS.
    Iis,
    /// Not known.
    Unknown,
}

/// How a timestamp without an offset is interpreted. Never silently the PC's zone.
#[derive(Debug, Clone, Copy, PartialEq, Eq)]
pub enum TimezonePolicy {
    /// Use the input's offset; without one the time stays unresolved (NULL).
    FromInput,
    /// Apply this fixed offset (seconds east of UTC) when the input has none.
    Fixed {
        /// Offset in seconds, east positive.
        offset_seconds: i32,
    },
    /// Treat a time without offset as UTC (default of W3C logs).
    Utc,
}

/// Textual form of a timestamp.
#[derive(Debug, PartialEq, Eq)]
pub enum TimestampFormat {
    /// Common Log Format `10/Oct/2000:13:55:36 -0700`; the offset may be absent.
    Clf,
    /// ISO 8601 / RFC 3339; the offset may be absent.
    Iso8601,
    /// A strftime pattern; `%z` reads an offset.
    Custom {
        /// strftime pattern.
        pattern: String,
    },
}

/// Meaning of a field. Standard fields go to typed columns, the rest to the extension area.
#[derive(Debug, PartialEq, Eq)]
pub enum FieldKind {
    /// Client IP (v4/v6), validated and kept as written.
    ClientIp,
    /// Timestamp.
    Timestamp {
        /// Textual form.
        format: TimestampFormat,
    },
    /// `GET /path HTTP/1.1`, split into method/target/protocol.
    RequestLine,
    /// HTTP method.
    Method,
    /// Request target (path and query), not decoded.
    RequestTarget,
    /// Protocol version.
    Protocol,
    /// Status code 100 to 599.
    Status,
    /// Bytes sent.
    BytesSent,
    /// Referrer.
    Referrer,
    /// User agent.
    UserAgent,
    /// Integer kept in the extension area.
    Integer,
    /// Text kept in the extension area.
    Text,
}

/// How the raw span of a field is cut out. Meaning is checked by [`FieldKind`].
#[derive(Debug, PartialEq, Eq)]
pub enum Capture {
    /// A run of characters other than space and tab.
    Token,
    /// A double-quoted string; `\"` escapes allowed; the quotes are not part of the value.
    Quoted,
    /// A string in square brackets; the brackets are not part of the value.
    Bracketed,
    /// A user regular expression fragment with non-capturing groups.
    Pattern {
        /// Pattern in Rust regex syntax.
        pattern: String,
    },
}

/// A field definition.
#[derive(Debug, PartialEq, Eq)]
pub struct FieldDef {
    /// Field name; extension fields are stored under it.
    pub name: String,
    /// Meaning.
    pub kind: FieldKind,
    /// How it is cut out.
    pub capture: Capture,
    /// Raw values that mean "missing" (for example `-`). Missing is NULL, never zero.
    pub missing: Vec<String>,
}

/// A puzzle block.
#[derive(Debug, PartialEq, Eq)]
pub enum Block {
    /// Fixed text.
    Literal {
        /// The text.
        text: String,
    },
    /// One or more spaces or tabs.
    Whitespace,
    /// A field.
    Field(FieldDef),
    /// Blocks that may be present or absent as a whole.
    OptionalGroup {
        /// Inner blocks.
        blocks: Vec<Block>,
    },
    /// Advanced regex block. Named captures `(?P<name>...)` become extension fields.
    Regex {
        /// Pattern in Rust regex syntax.
        pattern: String,
    },
}

/// Parsing strategy.
#[derive(Debug, PartialEq, Eq)]
pub enum Strategy {
    /// The blocks are compiled into one anchored regular expression matched per line.
    Blocks {
        /// The blocks.
        blocks: Vec<Block>,
    },
    /// IIS/W3C extended log: fields follow the `#Fields:` header, which may change mid-file.
    W3c,
}

/// A format profile.
#[derive(Debug, PartialEq, Eq)]
pub struct FormatProfile {
    /// Definition schema version.
    pub schema_version: u32,
    /// Display name.
    pub name: String,
    /// Profile version, raised on each edit.
    pub version: u32,
    /// Server hint.
    pub server_hint: ServerHint,
    /// Time zone policy.
    pub timezone: TimezonePolicy,
    /// Parsing strategy.
    pub strategy: Strategy,
}

impl Clone for TimestampFormat {
    fn clone(&self) -> (r: Self)
        ensures
            r == *self,
    {
        match self {
            TimestampFormat::Clf => TimestampFormat::Clf,
            TimestampFormat::Iso8601 => TimestampFormat::Iso8601,
            TimestampFormat::Custom { pattern } => TimestampFormat::Custom { pattern: pattern.clone() },
        }
    }
}

impl Clone for FieldKind {
    fn clone(&self) -> (r: Self)
        ensures
            r == *self,
    {
        match self {
            FieldKind::ClientIp => FieldKind::ClientIp,
            FieldKind::Timestamp { format } => FieldKind::Timestamp { format: format.clone() },
            FieldKind::RequestLine => FieldKind::RequestLine,
            FieldKind::Method => FieldKind::Method,
            FieldKind::RequestTarget => FieldKind::RequestTarget,
            FieldKind::Protocol => FieldKind::Protocol,
            FieldKind::Status => FieldKind::Status,
            FieldKind::BytesSent => FieldKind::BytesSent,
            FieldKind::Referrer => FieldKind::Referrer,
            FieldKind::UserAgent => FieldKind::UserAgent,
            FieldKind::Integer => FieldKind::Integer,
            FieldKind::Text => FieldKind::Text,
        }
    }
}

impl Clone for Capture {
    fn clone(&self) -> (r: Self)
        ensures
            r == *self,
    {
        match self {
            Capture::Token => Capture::Token,
            Capture::Quoted => Capture::Quoted,
            Capture::Bracketed => Capture::Bracketed,
            Capture::Pattern { pattern } => Capture::Pattern { pattern: pattern.clone() },
        }
    }
}

/// A copy of a list of strings.
pub fn clone_strings(v: &Vec<String>) -> (r: Vec<String>)
    ensures
        r@ == v@,
{
    let mut out: Vec<String> = Vec::new();
    let mut i: usize = 0;
    while i < v.len()
        invariant
            i <= v.len(),
            out@ == v@.subrange(0, i as int),
        decreases v.len() - i,
    {
        out.push(v[i].clone());
        i = i + 1;
        assert(out@ =~= v@.subrange(0, i as int));
    }
    assert(v@.subrange(0, v.len() as int) =~= v@);
    out
}

/// Two field definitions say the same thing (the missing-value lists compared by content).
pub open spec fn same_field(a: FieldDef, b: FieldDef) -> bool {
    &&& a.name == b.name
    &&& a.kind == b.kind
    &&& a.capture == b.capture
    &&& a.missing@ == b.missing@
}

impl Clone for FieldDef {
    fn clone(&self) -> (r: Self)
        ensures
            same_field(r, *self),
    {
        let missing = clone_strings(&self.missing);
        FieldDef {
            name: self.name.clone(),
            kind: self.kind.clone(),
            capture: self.capture.clone(),
            missing,
        }
    }
}

/// Two blocks say the same thing (lists compared element by element).
pub open spec fn same_block(a: Block, b: Block) -> bool
    decreases a, 0nat,
{
    match a {
        Block::Literal { text } => b matches Block::Literal { text: t } && t == text,
        Block::Whitespace => b is Whitespace,
        Block::Field(f) => b matches Block::Field(g) && same_field(f, g),
        Block::OptionalGroup { blocks } => b matches Block::OptionalGroup { blocks: c }
            && blocks@.len() == c@.len() && same_blocks(blocks@, c@, blocks@.len()),
        Block::Regex { pattern } => b matches Block::Regex { pattern: q } && q == pattern,
    }
}

/// The first `k` blocks of two lists say the same thing.
pub open spec fn same_blocks(a: Seq<Block>, b: Seq<Block>, k: nat) -> bool
    decreases a, k,
{
    if k == 0 || k > a.len() {
        true
    } else {
        same_blocks(a, b, (k - 1) as nat) && same_block(a[k - 1], b[k - 1])
    }
}

/// Two strategies say the same thing.
pub open spec fn same_strategy(a: Strategy, b: Strategy) -> bool {
    match a {
        Strategy::Blocks { blocks } => b matches Strategy::Blocks { blocks: c } && blocks@.len() == c@.len()
            && same_blocks(blocks@, c@, blocks@.len()),
        Strategy::W3c => b is W3c,
    }
}

impl Clone for Block {
    fn clone(&self) -> (r: Self)
        ensures
            same_block(*self, r),
        decreases self,
    {
        match self {
            Block::Literal { text } => Block::Literal { text: text.clone() },
            Block::Whitespace => Block::Whitespace,
            Block::Field(def) => Block::Field(def.clone()),
            Block::OptionalGroup { blocks } => Block::OptionalGroup { blocks: clone_blocks(blocks) },
            Block::Regex { pattern } => Block::Regex { pattern: pattern.clone() },
        }
    }
}

/// A copy of a block list.
pub fn clone_blocks(v: &Vec<Block>) -> (r: Vec<Block>)
    ensures
        r@.len() == v@.len(),
        same_blocks(v@, r@, v@.len()),
    decreases v,
{
    let mut out: Vec<Block> = Vec::new();
    let mut i: usize = 0;
    while i < v.len()
        invariant
            i <= v.len(),
            out@.len() == i,
            forall|k: nat| k <= i ==> #[trigger] same_blocks(v@, out@, k),
        decreases v.len() - i,
    {
        proof {
            assert(decreases_to!(v => v@[i as int]));
        }
        let b = v[i].clone();
        let ghost before = out@;
        out.push(b);
        proof {
            assert forall|k: nat| k <= i + 1 implies #[trigger] same_blocks(v@, out@, k) by {
                lemma_same_blocks_extend(v@, before, b, k);
            }
        }
        i = i + 1;
    }
    out
}

proof fn lemma_same_blocks_extend(a: Seq<Block>, b: Seq<Block>, x: Block, k: nat)
    requires
        b.len() < a.len(),
        k <= b.len() + 1,
        k <= b.len() ==> same_blocks(a, b, k),
        k == b.len() + 1 ==> same_blocks(a, b, b.len()) && same_block(a[b.len() as int], x),
    ensures
        same_blocks(a, b.push(x), k),
    decreases k,
{
    if k > 0 && k <= b.len() {
        lemma_same_blocks_extend(a, b, x, (k - 1) as nat);
        assert(b.push(x)[k - 1] == b[k - 1]);
    } else if k == b.len() + 1 && k > 0 {
        lemma_same_blocks_extend(a, b, x, (k - 1) as nat);
        assert(b.push(x)[k - 1] == x);
    }
}

impl Clone for Strategy {
    fn clone(&self) -> (r: Self)
        ensures
            same_strategy(*self, r),
    {
        match self {
            Strategy::Blocks { blocks } => Strategy::Blocks { blocks: clone_blocks(blocks) },
            Strategy::W3c => Strategy::W3c,
        }
    }
}

/// Two profiles with the same fields (the strategy compared block by block).
pub open spec fn same_profile(a: FormatProfile, b: FormatProfile) -> bool {
    &&& a.schema_version == b.schema_version
    &&& a.name == b.name
    &&& a.version == b.version
    &&& a.server_hint == b.server_hint
    &&& a.timezone == b.timezone
    &&& same_strategy(a.strategy, b.strategy)
}

impl Clone for FormatProfile {
    fn clone(&self) -> (r: Self)
        ensures
            r.schema_version == self.schema_version,
            r.name == self.name,
            r.version == self.version,
            r.server_hint == self.server_hint,
            r.timezone == self.timezone,
            same_strategy(self.strategy, r.strategy),
    {
        FormatProfile {
            schema_version: self.schema_version,
            name: self.name.clone(),
            version: self.version,
            server_hint: self.server_hint,
            timezone: self.timezone,
            strategy: self.strategy.clone(),
        }
    }
}

/// FNV-1a offset basis (64 bit).
pub const FNV_OFFSET: u64 = 0xcbf2_9ce4_8422_2325;
/// FNV-1a prime (64 bit).
pub const FNV_PRIME: u64 = 0x0000_0100_0000_01b3;

/// FNV-1a 64-bit hash of a byte sequence: xor each byte in, then multiply modulo 2^64.
pub open spec fn fnv1a(bytes: Seq<u8>) -> u64
    decreases bytes.len(),
{
    if bytes.len() == 0 {
        FNV_OFFSET
    } else {
        (((fnv1a(bytes.drop_last()) ^ (bytes.last() as u64)) as int * FNV_PRIME as int)
            % 0x1_0000_0000_0000_0000) as u64
    }
}

/// Lower-case hexadecimal digit of a nibble.
pub open spec fn hex_digit(d: int) -> char {
    if d < 10 {
        ((d + 48) as u8) as char
    } else {
        ((d - 10 + 97) as u8) as char
    }
}

/// The 16 lower-case hex digits of `h`, most significant first (`{:016x}`).
pub open spec fn hex16(h: u64) -> Seq<char> {
    Seq::new(16, |i: int| hex_digit(((h as int) / pow16(15 - i)) % 16))
}

/// 16 to the power `e`.
pub open spec fn pow16(e: int) -> int
    decreases e,
{
    if e <= 0 {
        1
    } else {
        16 * pow16(e - 1)
    }
}

fn hex_char(d: u64) -> (c: char)
    requires
        d < 16,
    ensures
        c == hex_digit(d as int),
{
    if d < 10 {
        ((d as u8) + 48) as char
    } else {
        ((d as u8) - 10 + 97) as char
    }
}

/// FNV-1a of `bytes` as 16 lower-case hex digits. The hash identifies a definition
/// (same definition, same hash); it is no cryptographic digest.
pub fn fnv1a_hex(bytes: &[u8]) -> (r: String)
    ensures
        r@ == hex16(fnv1a(bytes@)),
{
    let mut hash: u64 = FNV_OFFSET;
    let mut i: usize = 0;
    while i < bytes.len()
        invariant
            i <= bytes.len(),
            hash == fnv1a(bytes@.subrange(0, i as int)),
        decreases bytes.len() - i,
    {
        let x: u64 = hash ^ (bytes[i] as u64);
        let next: u64 = x.wrapping_mul(FNV_PRIME);
        proof {
            let s = bytes@.subrange(0, i + 1);
            assert(s.drop_last() =~= bytes@.subrange(0, i as int));
            assert(s.last() == bytes@[i as int]);
        }
        hash = next;
        i = i + 1;
    }
    assert(bytes@.subrange(0, bytes.len() as int) =~= bytes@);
    let mut out: Vec<char> = Vec::new();
    let mut k: usize = 0;
    let mut div: u64 = 0x1000_0000_0000_0000;
    proof {
        reveal_with_fuel(pow16, 16);
    }
    while k < 16
        invariant
            k <= 16,
            out@.len() == k,
            forall|j: int| 0 <= j < k ==> out@[j] == hex16(hash)[j],
            div as int == pow16(15 - k as int) || k == 16,
        decreases 16 - k,
    {
        proof { lemma_pow16_pos(15 - k as int); }
        let d: u64 = (hash / div) % 16;
        out.push(hex_char(d));
        proof {
            assert(hex16(hash)[k as int] == hex_digit(((hash as int) / pow16(15 - k as int)) % 16));
        }
        if k < 15 {
            proof {
                assert(pow16(15 - k as int) == 16 * pow16(14 - k as int));
            }
            div = div / 16;
        }
        k = k + 1;
    }
    assert(out@ =~= hex16(hash));
    crate::text::chars_to_string(&out)
}

proof fn lemma_pow16_pos(e: int)
    ensures
        pow16(e) >= 1,
    decreases e,
{
    if e > 0 {
        lemma_pow16_pos(e - 1);
    }
}

} // verus!
