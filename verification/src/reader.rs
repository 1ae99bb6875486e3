//! Source files: how a file is compressed, how it is identified, and how its byte
//! stream is cut into lines with a length limit.

use vstd::prelude::*;

use crate::error::EngineError;
use crate::ext::{sha256, sha256_result, utf8_text};
use crate::text::{chars_to_string, decimal, push_decimal, push_str, str_eq};

verus! {

/// Compression of a source file.
#[derive(Debug, Clone, Copy, PartialEq, Eq)]
pub enum Compression {
    /// Not compressed (stored as `none`).
    Uncompressed,
    /// gzip (concatenated members included).
    Gzip,
}

/// The stored text of each compression.
pub open spec fn compression_text(c: Compression) -> Seq<char> {
    match c {
        Compression::Uncompressed => "none"@,
        Compression::Gzip => "gzip"@,
    }
}

/// The compression the first bytes of a file show: gzip when they are `1f 8b`.
pub open spec fn compression_of(head: Seq<u8>) -> Compression {
    if head.len() >= 2 && head[0] == 0x1f && head[1] == 0x8b {
        Compression::Gzip
    } else {
        Compression::Uncompressed
    }
}

impl Compression {
    /// The stored text.
    pub fn as_str(self) -> (r: &'static str)
        ensures
            r@ == compression_text(self),
    {
        match self {
            Compression::Uncompressed => "none",
            Compression::Gzip => "gzip",
        }
    }

    /// The compression by content (the file name only picks candidates): the first two
    /// bytes read from the file, fewer if it is shorter.
    pub fn from_magic(head: &[u8]) -> (r: Compression)
        ensures
            r == compression_of(head@),
    {
        if head.len() >= 2 && head[0] == 0x1f && head[1] == 0x8b {
            Compression::Gzip
        } else {
            Compression::Uncompressed
        }
    }
}

/// Reads a stored compression text; anything but `gzip` is none.
pub fn parse_compression(s: &str) -> (r: Compression)
    ensures
        r == compression_named(s@),
{
    if str_eq(s, "gzip") {
        Compression::Gzip
    } else {
        Compression::Uncompressed
    }
}

/// The compression named by a stored text, as [`parse_compression`] reads it.
pub open spec fn compression_named(t: Seq<char>) -> Compression {
    if t == "gzip"@ { Compression::Gzip } else { Compression::Uncompressed }
}

/// Reading the stored text of a compression gives the compression back.
pub proof fn lemma_compression_round_trip(c: Compression)
    ensures
        compression_named(compression_text(c)) == c,
{
    reveal_strlit("none");
    reveal_strlit("gzip");
    assert("none"@[0] != "gzip"@[0]);
}

/// Identity of a file. Size and modification time are quick candidates; the hash
/// checks content.
#[derive(Debug, Clone, PartialEq, Eq)]
pub struct SourceIdentity {
    /// File size (as stored, compressed or not).
    pub file_size: u64,
    /// Modification time (Unix seconds), if known.
    pub modified_unix: Option<i64>,
    /// Compression.
    pub compression: Compression,
    /// SHA-256 of the first bytes, in hex.
    pub head_hash: String,
    /// Number of bytes hashed.
    pub head_bytes: u64,
    /// SHA-256 of the whole file; costly, so filled only on request.
    pub full_hash: Option<String>,
}

/// A size and modification time snapshot, to notice a change during an import.
#[derive(Debug, Clone, Copy, PartialEq, Eq)]
pub struct StatSnapshot {
    /// File size.
    pub file_size: u64,
    /// Modification time (Unix seconds).
    pub modified_unix: Option<i64>,
}

/// Bytes of the head that the identity hashes.
pub const HEAD_CHECK_BYTES: usize = 64 * 1024;

/// Lower-case hex digit of a nibble.
pub open spec fn nibble_char(d: int) -> char {
    if d < 10 {
        ((d + 48) as u8) as char
    } else {
        ((d - 10 + 97) as u8) as char
    }
}

/// Bytes as lower-case hex, two digits per byte.
pub open spec fn hex_text(b: Seq<u8>) -> Seq<char>
    decreases b.len(),
{
    if b.len() == 0 {
        seq![]
    } else {
        hex_text(b.drop_last()) + seq![nibble_char(b.last() as int / 16), nibble_char(b.last() as int % 16)]
    }
}

fn nibble(d: u8) -> (c: char)
    requires
        d < 16,
    ensures
        c == nibble_char(d as int),
{
    if d < 10 {
        (d + 48) as char
    } else {
        (d - 10 + 97) as char
    }
}

/// Bytes as lower-case hex.
pub fn hex_lower(bytes: &[u8]) -> (r: String)
    ensures
        r@ == hex_text(bytes@),
{
    let mut v: Vec<char> = Vec::new();
    let mut i: usize = 0;
    while i < bytes.len()
        invariant
            i <= bytes.len(),
            v@ == hex_text(bytes@.subrange(0, i as int)),
        decreases bytes.len() - i,
    {
        let b = bytes[i];
        v.push(nibble(b / 16));
        v.push(nibble(b % 16));
        proof {
            let s = bytes@.subrange(0, i + 1);
            assert(s.drop_last() =~= bytes@.subrange(0, i as int));
            assert(s.last() == b);
        }
        i = i + 1;
        assert(v@ =~= hex_text(bytes@.subrange(0, i as int)));
    }
    assert(bytes@.subrange(0, bytes.len() as int) =~= bytes@);
    chars_to_string(&v)
}

/// Why two identities differ: the size, then the head, then (when both have one) the
/// whole-file hash. `None` when they agree.
pub open spec fn mismatch_text(a: SourceIdentity, b: SourceIdentity) -> Option<Seq<char>> {
    if a.file_size != b.file_size {
        Some("크기 "@ + decimal(a.file_size as nat) + " → "@ + decimal(b.file_size as nat))
    } else if a.head_hash@ != b.head_hash@ || a.head_bytes != b.head_bytes {
        Some("선두 내용 해시 불일치"@)
    } else if a.full_hash is Some && b.full_hash is Some && a.full_hash->Some_0@ != b.full_hash->Some_0@ {
        Some("전체 내용 해시 불일치"@)
    } else {
        None
    }
}

impl SourceIdentity {
    /// The identity of a file from its metadata and the first bytes of its content (at
    /// most [`HEAD_CHECK_BYTES`], fewer for a shorter file).
    pub fn from_head(file_size: u64, modified_unix: Option<i64>, compression: Compression, head: &[u8]) -> (r: SourceIdentity)
        requires
            head@.len() <= HEAD_CHECK_BYTES,
        ensures
            r.file_size == file_size,
            r.modified_unix == modified_unix,
            r.compression == compression,
            r.head_hash@ == hex_text(sha256_result(head@)),
            r.head_bytes == head@.len(),
            r.full_hash is None,
    {
        let digest = sha256(head);
        SourceIdentity {
            file_size,
            modified_unix,
            compression,
            head_hash: hex_lower(digest.as_slice()),
            head_bytes: head.len() as u64,
            full_hash: None,
        }
    }

    /// Quick check: same size and same head hash. The modification time is not compared;
    /// a copy or move changes it.
    pub fn matches(&self, other: &SourceIdentity) -> (r: bool)
        ensures
            r == (self.file_size == other.file_size && self.head_hash@ == other.head_hash@
                && self.head_bytes == other.head_bytes),
    {
        self.file_size == other.file_size && str_eq(self.head_hash.as_str(), other.head_hash.as_str())
            && self.head_bytes == other.head_bytes
    }

    /// What differs, or `None` when nothing does.
    pub fn mismatch_reason(&self, other: &SourceIdentity) -> (r: Option<String>)
        ensures
            crate::record::opt_view(r) == mismatch_text(*self, *other),
    {
        if self.file_size != other.file_size {
            let mut v: Vec<char> = Vec::new();
            push_str(&mut v, "크기 ");
            push_decimal(&mut v, self.file_size);
            push_str(&mut v, " → ");
            push_decimal(&mut v, other.file_size);
            return Some(chars_to_string(&v));
        }
        if !str_eq(self.head_hash.as_str(), other.head_hash.as_str()) || self.head_bytes != other.head_bytes {
            return Some("선두 내용 해시 불일치".to_owned());
        }
        if let (Some(a), Some(b)) = (&self.full_hash, &other.full_hash) {
            if !str_eq(a.as_str(), b.as_str()) {
                return Some("전체 내용 해시 불일치".to_owned());
            }
        }
        None
    }
}

/// No reason to differ means a match.
pub proof fn lemma_no_mismatch_means_match(a: SourceIdentity, b: SourceIdentity)
    requires
        mismatch_text(a, b) is None,
    ensures
        a.file_size == b.file_size && a.head_hash@ == b.head_hash@ && a.head_bytes == b.head_bytes,
{
}

/// An identity differs from nothing about itself.
pub proof fn lemma_identity_self_match(a: SourceIdentity)
    ensures
        mismatch_text(a, a) is None,
{
}

/// The content of one line.
#[derive(Debug, PartialEq, Eq)]
pub enum LineContent {
    /// Valid UTF-8 text, line break and carriage return removed.
    Text(String),
    /// Bytes that are not UTF-8; never converted lossily.
    InvalidUtf8,
    /// The line was longer than the limit; its content was dropped.
    TooLong,
}

/// One line. Offsets are positions in the logical (decompressed) stream.
#[derive(Debug, PartialEq, Eq)]
pub struct RawLine {
    /// Logical line number (from 1).
    pub line_number: u64,
    /// Offset where the line starts.
    pub start_offset: u64,
    /// Offset where the next line starts (the checkpoint value).
    pub next_offset: u64,
    /// Content.
    pub content: LineContent,
}

/// `n` bytes of `a` make one step of a line: up to and including the first line feed
/// when `found`, or all of `a` when it holds none.
pub open spec fn newline_cut(a: Seq<u8>, n: int, found: bool) -> bool {
    &&& found ==> 1 <= n <= a.len() && a[n - 1] == 10u8 && forall|j: int| 0 <= j < n - 1 ==> a[j] != 10u8
    &&& !found ==> n == a.len() && forall|j: int| 0 <= j < a.len() ==> a[j] != 10u8
}

/// The bytes of a step that belong to the line: the line feed is not one of them.
pub open spec fn step_payload(a: Seq<u8>, n: int, found: bool) -> Seq<u8> {
    if found { a.subrange(0, n - 1) } else { a.subrange(0, n) }
}

/// The bytes kept of a line, and whether it is being dropped, after `payload` is added
/// under `limit`: a line that outgrows the limit keeps nothing from then on.
pub open spec fn add_payload(pending: Seq<u8>, dropping: bool, limit: nat, payload: Seq<u8>) -> (Seq<u8>, bool) {
    if !dropping && pending.len() + payload.len() <= limit {
        (pending + payload, false)
    } else {
        (Seq::<u8>::empty(), true)
    }
}

/// Where the stream is cut into chunks does not matter: taking a piece without a line
/// feed and then the rest ends the line at the same place, with the same kept bytes and
/// the same verdict, as taking both at once.
pub proof fn lemma_split_chunks(
    pending: Seq<u8>,
    dropping: bool,
    limit: nat,
    a: Seq<u8>,
    b: Seq<u8>,
    n: int,
    found: bool,
)
    requires
        forall|j: int| 0 <= j < a.len() ==> a[j] != 10u8,
        newline_cut(b, n, found),
    ensures
        newline_cut(a, a.len() as int, false),
        newline_cut(a + b, a.len() + n, found),
        ({
            let s1 = add_payload(pending, dropping, limit, step_payload(a, a.len() as int, false));
            add_payload(s1.0, s1.1, limit, step_payload(b, n, found))
                == add_payload(pending, dropping, limit, step_payload(a + b, a.len() + n, found))
        }),
{
    let ab = a + b;
    assert(step_payload(a, a.len() as int, false) =~= a);
    assert(step_payload(ab, a.len() + n, found) =~= a + step_payload(b, n, found));
    if found {
        assert forall|j: int| 0 <= j < a.len() + n - 1 implies ab[j] != 10u8 by {
            if j >= a.len() {
                assert(ab[j] == b[j - a.len()]);
            }
        }
        assert(ab[a.len() + n - 1] == b[n - 1]);
    } else {
        assert forall|j: int| 0 <= j < ab.len() implies ab[j] != 10u8 by {
            if j >= a.len() {
                assert(ab[j] == b[j - a.len()]);
            }
        }
    }
    assert((pending + a) + step_payload(b, n, found) =~= pending + (a + step_payload(b, n, found)));
}

/// A line's bytes without one trailing carriage return.
pub open spec fn strip_cr(p: Seq<u8>) -> Seq<u8> {
    if p.len() > 0 && p.last() == 13u8 { p.drop_last() } else { p }
}

/// Bytes without a leading UTF-8 byte order mark.
pub open spec fn strip_bom(p: Seq<u8>) -> Seq<u8> {
    if p.len() >= 3 && p[0] == 0xEFu8 && p[1] == 0xBBu8 && p[2] == 0xBFu8 {
        p.subrange(3, p.len() as int)
    } else {
        p
    }
}

/// The bytes that a line's text is decoded from: the carriage return goes, and on the
/// first line of a stream the byte order mark too.
pub open spec fn line_bytes(pending: Seq<u8>, first: bool) -> Seq<u8> {
    if first { strip_bom(strip_cr(pending)) } else { strip_cr(pending) }
}

/// What a finished line holds: nothing when it was too long, its text when its bytes are
/// UTF-8, and the mark of invalid bytes otherwise.
pub open spec fn content_is(c: LineContent, pending: Seq<u8>, too_long: bool, first: bool) -> bool {
    if too_long {
        c is TooLong
    } else if vstd::utf8::valid_utf8(line_bytes(pending, first)) {
        c matches LineContent::Text(t) && t@ == vstd::utf8::decode_utf8(line_bytes(pending, first))
    } else {
        c is InvalidUtf8
    }
}

/// The decisions of a line reader: it is handed the bytes that a buffered reader has
/// available, says how many of them to consume, and builds each line with its offsets.
/// Reading and consuming the bytes is left to its owner.
pub struct LineCursor {
    max_line_bytes: usize,
    buf: Vec<u8>,
    too_long: bool,
    consumed: u64,
    offset: u64,
    line_number: u64,
    first_line: bool,
}

impl LineCursor {
    #[verifier::type_invariant]
    closed spec fn inv(&self) -> bool {
        &&& self.max_line_bytes > 0
        &&& self.buf@.len() <= self.max_line_bytes
        &&& self.too_long ==> self.buf@.len() == 0
    }

    /// The longest line whose content is kept.
    pub closed spec fn line_limit(&self) -> nat {
        self.max_line_bytes as nat
    }

    /// The bytes of the current line taken so far.
    pub closed spec fn pending_bytes(&self) -> Seq<u8> {
        self.buf@
    }

    /// Whether the current line has outgrown the limit.
    pub closed spec fn dropping(&self) -> bool {
        self.too_long
    }

    /// Bytes of the current line consumed so far, line feed included.
    pub closed spec fn consumed_bytes(&self) -> nat {
        self.consumed as nat
    }

    /// Offset where the current line starts.
    pub closed spec fn stream_offset(&self) -> nat {
        self.offset as nat
    }

    /// Lines finished so far.
    pub closed spec fn lines_read(&self) -> nat {
        self.line_number as nat
    }

    /// Whether no line has been finished or skipped yet (a byte order mark may follow).
    pub closed spec fn at_first_line(&self) -> bool {
        self.first_line
    }

    /// A cursor at the start of a stream; a limit of zero is refused.
    pub fn new(max_line_bytes: usize) -> (r: Result<LineCursor, EngineError>)
        ensures
            max_line_bytes == 0 <==> r is Err,
            r matches Err(e) ==> (e matches EngineError::Limit(m) && m@ == "줄 길이 상한은 0보다 커야 함"@),
            r matches Ok(c) ==> (c.line_limit() == max_line_bytes && c.pending_bytes() == Seq::<u8>::empty()
                && !c.dropping() && c.consumed_bytes() == 0 && c.stream_offset() == 0 && c.lines_read() == 0
                && c.at_first_line()),
    {
        if max_line_bytes == 0 {
            return Err(EngineError::Limit("줄 길이 상한은 0보다 커야 함".to_string()));
        }
        Ok(LineCursor {
            max_line_bytes,
            buf: Vec::new(),
            too_long: false,
            consumed: 0,
            offset: 0,
            line_number: 0,
            first_line: true,
        })
    }

    /// The offset where the next line starts.
    pub fn offset(&self) -> (r: u64)
        ensures
            r == self.stream_offset(),
    {
        self.offset
    }

    /// The number of lines read so far.
    pub fn line_number(&self) -> (r: u64)
        ensures
            r == self.lines_read(),
    {
        self.line_number
    }

    /// Moves to a checkpoint: `offset` in the stream, with `line_number` lines before it.
    /// Offset zero is the start and changes nothing.
    pub fn resume_at(&mut self, offset: u64, line_number: u64)
        ensures
            offset == 0 ==> *final(self) == *old(self),
            offset != 0 ==> moved_to(*old(self), *final(self), offset, line_number),
            final(self).line_limit() == old(self).line_limit(),
    {
        proof { use_type_invariant(&*self); }
        if offset == 0 {
            return;
        }
        self.offset = offset;
        self.line_number = line_number;
        self.first_line = false;
    }

    /// Takes the start of `available` up to and including the first line feed, or all of
    /// it when it holds none. Returns how many bytes to consume and whether the line ended.
    /// The line's bytes are kept while the line stays within the limit; past it they are
    /// dropped and the line is marked too long.
    pub fn take(&mut self, available: &[u8]) -> (r: (usize, bool))
        requires
            old(self).consumed_bytes() + available@.len() <= u64::MAX,
        ensures
            newline_cut(available@, r.0 as int, r.1),
            final(self).consumed_bytes() == old(self).consumed_bytes() + r.0,
            (final(self).pending_bytes(), final(self).dropping()) == add_payload(old(self).pending_bytes(),
                old(self).dropping(), old(self).line_limit(), step_payload(available@, r.0 as int, r.1)),
            final(self).stream_offset() == old(self).stream_offset(),
            final(self).lines_read() == old(self).lines_read(),
            final(self).at_first_line() == old(self).at_first_line(),
            final(self).line_limit() == old(self).line_limit(),
            read_step(*old(self), *final(self), r.0 as nat),
    {
        proof { use_type_invariant(&*self); }
        let n = available.len();
        let mut i: usize = 0;
        while i < n && available[i] != 10u8
            invariant
                n == available@.len(),
                i <= n,
                forall|j: int| 0 <= j < i ==> available@[j] != 10u8,
            decreases n - i,
        {
            i = i + 1;
        }
        let found = i < n;
        let chunk_len: usize = if found { i + 1 } else { n };
        let ghost payload = step_payload(available@, chunk_len as int, found);
        let mut buf: Vec<u8> = Vec::new();
        std::mem::swap(&mut buf, &mut self.buf);
        let mut too_long = self.too_long;
        if !too_long {
            if i > self.max_line_bytes - buf.len() {
                too_long = true;
                buf = Vec::new();
            } else {
                let ghost start = buf@;
                let mut k: usize = 0;
                while k < i
                    invariant
                        k <= i <= n,
                        n == available@.len(),
                        buf@ == start + available@.subrange(0, k as int),
                    decreases i - k,
                {
                    buf.push(available[k]);
                    k = k + 1;
                    proof {
                        assert(available@.subrange(0, k as int) =~= available@.subrange(0, k - 1).push(available@[k - 1]));
                    }
                }
                assert(payload =~= available@.subrange(0, i as int));
            }
        }
        *self = LineCursor {
            max_line_bytes: self.max_line_bytes,
            buf,
            too_long,
            consumed: self.consumed + chunk_len as u64,
            offset: self.offset,
            line_number: self.line_number,
            first_line: self.first_line,
        };
        (chunk_len, found)
    }

    /// Finishes the current line at a line feed or at the end of the stream. Nothing is
    /// returned when no byte of a line was taken; otherwise the line, numbered after the
    /// lines before it, spanning from the current offset over the bytes consumed, and the
    /// cursor moves past it.
    pub fn finish(&mut self) -> (r: Option<RawLine>)
        requires
            old(self).consumed_bytes() > 0 ==> old(self).stream_offset() + old(self).consumed_bytes() <= u64::MAX
                && old(self).lines_read() < u64::MAX,
        ensures
            old(self).consumed_bytes() == 0 ==> r is None && *final(self) == *old(self),
            old(self).consumed_bytes() > 0 ==> (r matches Some(line) && line_finished(*old(self), *final(self), line)),
            final(self).line_limit() == old(self).line_limit(),
            read_step(*old(self), *final(self), 0),
    {
        proof { use_type_invariant(&*self); }
        if self.consumed == 0 {
            return None;
        }
        let start_offset = self.offset;
        let next_offset = self.offset + self.consumed;
        let line_number = self.line_number + 1;
        let content = if self.too_long {
            LineContent::TooLong
        } else {
            let len = self.buf.len();
            let end: usize = if len > 0 && self.buf[len - 1] == 13u8 { len - 1 } else { len };
            let begin: usize = if self.first_line && end >= 3 && self.buf[0] == 0xEFu8 && self.buf[1] == 0xBBu8
                && self.buf[2] == 0xBFu8 {
                3
            } else {
                0
            };
            let bytes = vstd::slice::slice_subrange(self.buf.as_slice(), begin, end);
            proof {
                let p = self.buf@;
                assert(strip_cr(p) =~= p.subrange(0, end as int));
                assert(line_bytes(p, self.first_line) =~= p.subrange(begin as int, end as int));
            }
            match utf8_text(bytes) {
                Some(t) => LineContent::Text(t),
                None => LineContent::InvalidUtf8,
            }
        };
        *self = LineCursor {
            max_line_bytes: self.max_line_bytes,
            buf: Vec::new(),
            too_long: false,
            consumed: 0,
            offset: next_offset,
            line_number,
            first_line: false,
        };
        let line = RawLine { line_number, start_offset, next_offset, content };
        assert(line_finished(*old(self), *self, line));
        Some(line)
    }
}

/// A cursor moved to a checkpoint: the offset and the lines before it, past the first
/// line; the line being read is left as it was.
pub open spec fn moved_to(c0: LineCursor, c1: LineCursor, offset: u64, line_number: u64) -> bool {
    &&& c1.stream_offset() == offset
    &&& c1.lines_read() == line_number
    &&& !c1.at_first_line()
    &&& c1.pending_bytes() == c0.pending_bytes()
    &&& c1.dropping() == c0.dropping()
    &&& c1.consumed_bytes() == c0.consumed_bytes()
}

/// A line finished from cursor `c0`, leaving cursor `c1`: numbered after the lines
/// before it, spanning from the current offset over the bytes consumed, holding what its
/// bytes say; the cursor moves past it with nothing pending.
pub open spec fn line_finished(c0: LineCursor, c1: LineCursor, line: RawLine) -> bool {
    &&& line.line_number == c0.lines_read() + 1
    &&& line.start_offset == c0.stream_offset()
    &&& line.next_offset == c0.stream_offset() + c0.consumed_bytes()
    &&& content_is(line.content, c0.pending_bytes(), c0.dropping(), c0.at_first_line())
    &&& c1.stream_offset() == line.next_offset
    &&& c1.lines_read() == line.line_number
    &&& !c1.at_first_line()
    &&& c1.pending_bytes() == Seq::<u8>::empty()
    &&& !c1.dropping()
    &&& c1.consumed_bytes() == 0
}

/// A run of lines read by one cursor: cursor `before[i]` finishes line `i` and becomes
/// `after[i]`, and between two lines only bytes are taken, which keeps the cursor's
/// offset and line count.
pub open spec fn line_run(before: Seq<LineCursor>, after: Seq<LineCursor>, lines: Seq<RawLine>) -> bool {
    &&& before.len() == lines.len()
    &&& after.len() == lines.len()
    &&& forall|i: int| 0 <= i < lines.len() ==> line_finished(#[trigger] before[i], after[i], lines[i])
    &&& forall|i: int| 0 < i < lines.len() ==> (#[trigger] before[i]).stream_offset() == after[i - 1].stream_offset()
        && before[i].lines_read() == after[i - 1].lines_read()
}

/// Line numbers and offsets chain along a run of lines: line `i` has the number after
/// the `i` lines before it (counted from where the cursor started), the first line starts
/// where the cursor stood and every other line starts where the one before it ended.
pub proof fn lemma_lines_chain(before: Seq<LineCursor>, after: Seq<LineCursor>, lines: Seq<RawLine>, i: int)
    requires
        line_run(before, after, lines),
        0 <= i < lines.len(),
    ensures
        lines[i].line_number == before[0].lines_read() + i + 1,
        i == 0 ==> lines[i].start_offset == before[0].stream_offset(),
        i > 0 ==> lines[i].start_offset == lines[i - 1].next_offset,
        lines[i].start_offset <= lines[i].next_offset,
    decreases i,
{
    assert(line_finished(before[i], after[i], lines[i]));
    if i > 0 {
        assert(line_finished(before[i - 1], after[i - 1], lines[i - 1]));
        lemma_lines_chain(before, after, lines, i - 1);
    }
}

/// One step of a read: `n` bytes taken into the current line, which keeps the offset and
/// the line count; or, taking nothing, the current line finished, or nothing to finish.
pub open spec fn read_step(c0: LineCursor, c1: LineCursor, n: nat) -> bool {
    ||| c1.stream_offset() == c0.stream_offset() && c1.lines_read() == c0.lines_read()
        && c1.consumed_bytes() == c0.consumed_bytes() + n
    ||| n == 0 && exists|line: RawLine| line_finished(c0, c1, line)
    ||| n == 0 && c0.consumed_bytes() == 0 && c1 == c0
}

/// The bytes taken over a read.
pub open spec fn bytes_taken(taken: Seq<nat>) -> nat
    decreases taken.len(),
{
    if taken.len() == 0 {
        0
    } else {
        bytes_taken(taken.drop_last()) + taken.last()
    }
}

/// Every byte taken is counted once: along a read whose steps take bytes or finish lines,
/// the offset of the current line plus the bytes taken into it grows by exactly the bytes
/// taken. So a read from the start of a stream that has taken all its `N` bytes and
/// finished its last line stands at offset `N`: the last line read ends at the stream's
/// length.
pub proof fn lemma_read_counts_every_byte(cs: Seq<LineCursor>, taken: Seq<nat>)
    requires
        cs.len() == taken.len() + 1,
        forall|k: int| 0 <= k < taken.len() ==> read_step(#[trigger] cs[k], cs[k + 1], taken[k]),
    ensures
        cs.last().stream_offset() + cs.last().consumed_bytes() == cs[0].stream_offset() + cs[0].consumed_bytes()
            + bytes_taken(taken),
        cs[0].stream_offset() == 0 && cs[0].consumed_bytes() == 0 && cs.last().consumed_bytes() == 0
            ==> cs.last().stream_offset() == bytes_taken(taken),
    decreases taken.len(),
{
    if taken.len() > 0 {
        let k = taken.len() - 1;
        assert forall|j: int| 0 <= j < taken.drop_last().len() implies read_step(
            #[trigger] cs.drop_last()[j],
            cs.drop_last()[j + 1],
            taken.drop_last()[j],
        ) by {
            assert(read_step(cs[j], cs[j + 1], taken[j]));
        }
        lemma_read_counts_every_byte(cs.drop_last(), taken.drop_last());
        assert(cs.drop_last()[0] == cs[0]);
        assert(cs.drop_last().last() == cs[k]);
        assert(read_step(cs[k], cs[k + 1], taken[k]));
    }
}

} // verus!
