use std::io::{Read, Write};

use weblog::error::EngineError;
use weblog::reader::{Compression, LineContent, LineCursor};

/// Feeds `data` to a cursor the way a buffered reader of `capacity` bytes would hand it
/// out, and collects `(line number, start, next, text)` for each line.
fn collect_from(cursor: &mut LineCursor, data: &[u8], start: usize, capacity: usize) -> Vec<(u64, u64, u64, String)> {
    let mut out = Vec::new();
    let mut pos = start;
    let mut buf_end = start;
    loop {
        loop {
            if pos == buf_end {
                buf_end = (pos + capacity).min(data.len());
            }
            let available = &data[pos..buf_end];
            if available.is_empty() {
                break;
            }
            let (n, ended) = cursor.take(available);
            pos += n;
            if ended {
                break;
            }
        }
        match cursor.finish() {
            Some(line) => {
                let text = match line.content {
                    LineContent::Text(s) => s,
                    LineContent::InvalidUtf8 => "<invalid>".to_owned(),
                    LineContent::TooLong => "<toolong>".to_owned(),
                };
                out.push((line.line_number, line.start_offset, line.next_offset, text));
            }
            None => return out,
        }
    }
}

fn collect(data: &[u8], max_line_bytes: usize) -> Vec<(u64, u64, u64, String)> {
    let mut c = LineCursor::new(max_line_bytes).unwrap();
    collect_from(&mut c, data, 0, 8192)
}

fn gunzip(data: &[u8]) -> Vec<u8> {
    let mut enc = flate2::write::GzEncoder::new(Vec::new(), flate2::Compression::fast());
    enc.write_all(data).unwrap();
    let packed = enc.finish().unwrap();
    let mut out = Vec::new();
    flate2::read::MultiGzDecoder::new(&packed[..]).read_to_end(&mut out).unwrap();
    out
}

#[test]
fn reads_lines_with_offsets_and_strips_crlf() {
    assert_eq!(
        collect(b"ab\r\ncd\n\nef", 1024),
        vec![
            (1, 0, 4, "ab".to_owned()),
            (2, 4, 7, "cd".to_owned()),
            (3, 7, 8, String::new()),
            (4, 8, 10, "ef".to_owned()),
        ]
    );
}

#[test]
fn bom_is_stripped_only_on_first_line_and_offsets_count_bom_bytes() {
    let lines = collect(b"\xEF\xBB\xBFx\ny\n", 1024);
    assert_eq!(lines[0], (1, 0, 5, "x".to_owned()));
    assert_eq!(lines[1], (2, 5, 7, "y".to_owned()));
}

#[test]
fn invalid_utf8_is_reported_not_lossy_converted() {
    let lines = collect(b"ok\n\xFF\xFE bad\nok2\n", 1024);
    assert_eq!(lines[1].3, "<invalid>");
    assert_eq!(lines[2].3, "ok2");
}

#[test]
fn too_long_line_is_skipped_without_buffering_and_offsets_stay_correct() {
    let long = vec![b'a'; 5000];
    let mut data = b"short\n".to_vec();
    data.extend_from_slice(&long);
    data.extend_from_slice(b"\nafter\n");
    let lines = collect(&data, 100);
    assert_eq!(lines[1].3, "<toolong>");
    assert_eq!(lines[1].2, 6 + 5001);
    assert_eq!(lines[2], (3, 6 + 5001, 6 + 5001 + 6, "after".to_owned()));
}

#[test]
fn resume_at_offset_continues_from_checkpoint_for_plain_and_gzip() {
    for gz in [false, true] {
        let data: Vec<u8> = if gz { gunzip(b"l1\nl2\nl3\n") } else { b"l1\nl2\nl3\n".to_vec() };
        let mut c = LineCursor::new(1024).unwrap();
        c.resume_at(3, 1);
        let lines = collect_from(&mut c, &data, 3, 8192);
        assert_eq!(lines, vec![(2, 3, 6, "l2".to_owned()), (3, 6, 9, "l3".to_owned())], "gzip={gz}");
    }
}

#[test]
fn zero_line_limit_is_refused() {
    match LineCursor::new(0) {
        Err(EngineError::Limit(m)) => assert_eq!(m, "줄 길이 상한은 0보다 커야 함"),
        _ => panic!("a zero limit must be refused"),
    }
}

#[test]
fn lines_split_across_small_buffers_are_joined() {
    let data = b"alpha\r\nbeta gamma\nlast";
    let whole = collect(data, 1024);
    for capacity in 1..8 {
        let mut c = LineCursor::new(1024).unwrap();
        assert_eq!(collect_from(&mut c, data, 0, capacity), whole, "capacity={capacity}");
    }
    assert_eq!(whole[1], (2, 7, 18, "beta gamma".to_owned()));
}

#[test]
fn bom_after_the_first_line_is_kept() {
    let lines = collect(b"a\n\xEF\xBB\xBFb\n", 1024);
    assert_eq!(lines[1].3, "\u{feff}b");
}

#[test]
fn line_exactly_at_the_limit_is_kept_and_one_more_byte_is_too_long() {
    let lines = collect(b"abcd\nabcde\n", 4);
    assert_eq!(lines[0].3, "abcd");
    assert_eq!(lines[1].3, "<toolong>");
    assert_eq!(lines[1].2, 11);
}

#[test]
fn take_stops_after_the_first_line_feed() {
    let mut c = LineCursor::new(16).unwrap();
    assert_eq!(c.take(b"ab\ncd\n"), (3, true));
    let line = c.finish().unwrap();
    assert_eq!((line.start_offset, line.next_offset), (0, 3));
    assert_eq!(c.offset(), 3);
    assert_eq!(c.line_number(), 1);
    assert_eq!(c.take(b"cd"), (2, false));
    assert!(c.finish().is_some());
    assert!(c.finish().is_none());
}

#[test]
fn resume_at_zero_keeps_the_start_of_stream() {
    let mut c = LineCursor::new(16).unwrap();
    c.resume_at(0, 7);
    assert_eq!(c.line_number(), 0);
    let lines = collect_from(&mut c, b"\xEF\xBB\xBFz\n", 0, 64);
    assert_eq!(lines, vec![(1, 0, 5, "z".to_owned())]);
}

#[test]
fn stored_compression_text_reads_back() {
    for c in [Compression::Gzip, Compression::Uncompressed] {
        assert_eq!(weblog::reader::parse_compression(c.as_str()), c);
    }
    assert_eq!(weblog::reader::parse_compression("zstd"), Compression::Uncompressed);
}

#[test]
fn a_whole_read_ends_at_the_stream_length_in_any_chunking() {
    let data = b"first\r\nsecond line\n\nlast without newline";
    for capacity in [1usize, 3, 7, 64] {
        let mut c = LineCursor::new(5).unwrap();
        let lines = collect_from(&mut c, data, 0, capacity);
        assert_eq!(lines.len(), 4);
        for (i, l) in lines.iter().enumerate() {
            assert_eq!(l.0, i as u64 + 1);
            if i > 0 {
                assert_eq!(l.1, lines[i - 1].2);
            }
        }
        assert_eq!(lines[0].1, 0);
        assert_eq!(lines[3].2, data.len() as u64);
        assert_eq!(c.offset(), data.len() as u64);
        assert_eq!(c.line_number(), 4);
        assert_eq!(lines[1].3, "<toolong>");
    }
}
