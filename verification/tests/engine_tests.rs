use weblog::applog::{format_line, step_message, STEP_MAX_CHARS};
use weblog::batch::{batch_step, ensure_unchanged, new_batch, BatchStep, PendingBatch};
use weblog::error::EngineError;
use weblog::export::{csv_field, csv_header, csv_line};
use weblog::library::{check_save, file_name_for};
use weblog::line_parser::LineParser;
use weblog::path_order::{path_key_bytes, sort_by_path};
use weblog::paths::layout;
use weblog::presets;
use weblog::query::{
    check_page_size, fetch_sql, filter_sql, finish_page, page_start, SortOrder, CondField, CondOp, CursorSegment, ExportRow, FilterExpr, LogFilter,
    LogRow, PageCursor, SqlValue,
};
use weblog::reader::{Compression, LineContent, LineCursor, RawLine, SourceIdentity, StatSnapshot};
use weblog::reconstruct::{combined_like, from_profile};
use weblog::record::{ExtraFields, LogRecord, ParseErrorCode};
use weblog::scan::{
    file_decision, name_selected, record_error, should_descend, wildcard_match, FileDecision, ScanEntry, ScanError, ScanOptions,
    ScanResult,
};
use weblog::service::{sample_limit_reached, sample_line, sample_line_cap, sanitize_case_name, SAMPLE_MAX_BYTES};
use weblog::stats::{
    bucket_seconds, cap_timeline, check_top_n, check_tz_offset, choose_bucket, stat_queries, stat_sql, takes_top_n, timeline_sql,
    StatQuery, TimeBucket,
};
use weblog::store::{
    check_activation, check_deletion, reuse_registration, validate_setting, verify_identity, JobInfo, JobStatus, LogKind,
};
use weblog::query::LogDetail;
use weblog::views::{check_view, ViewDefinition};

#[test]
fn line_has_time_level_and_message() {
    assert_eq!(
        format_line("2026-09-10 12:00:00", "INFO", "가져오기 시작 files=1"),
        "2026-09-10 12:00:00 [INFO] 가져오기 시작 files=1\n"
    );
}

#[test]
fn ui_steps_are_marked_and_capped() {
    assert_eq!(step_message("폴더 선택 열기"), "UI 폴더 선택 열기");
    let long = step_message(&"가".repeat(500));
    assert!(long.chars().count() <= STEP_MAX_CHARS + "UI …".chars().count());
    assert!(long.ends_with('…'));
    assert_eq!(step_message("  x \n"), "UI x");
}

#[test]
fn wildcard_matches_star_and_question() {
    assert!(wildcard_match("access.log*", "access.log.1"));
    assert!(wildcard_match("*.gz", "a.log.gz"));
    assert!(wildcard_match("u_ex??????.log", "u_ex240102.log"));
    assert!(!wildcard_match("*.gz", "a.log"));
    assert!(!wildcard_match("access.log", "access.log.1"));
}

#[test]
fn exclude_patterns_win_over_include_patterns() {
    let opts = ScanOptions { included: vec!["*.log".to_owned()], exclude: vec!["error*".to_owned()], ..ScanOptions::default() };
    assert!(name_selected("access.log", &opts));
    assert!(!name_selected("error.log", &opts));
    assert!(!name_selected("access.txt", &opts));
    assert!(name_selected("anything", &ScanOptions::default()));
    assert_eq!(file_decision("error.log", &opts, 0), FileDecision::Filtered);
    assert_eq!(file_decision("a.log", &ScanOptions { max_entries: 1, ..opts.clone() }, 1), FileDecision::Truncated);
    assert_eq!(file_decision("a.log", &opts, 1), FileDecision::Take);
    assert!(should_descend(&ScanOptions { max_depth: Some(1), ..ScanOptions::default() }, 1));
    assert!(!should_descend(&ScanOptions { max_depth: Some(1), ..ScanOptions::default() }, 2));
    assert!(!should_descend(&ScanOptions { recursive: false, ..ScanOptions::default() }, 1));
}

#[test]
fn auto_bucket_grows_with_range() {
    assert_eq!(choose_bucket(60 * 1_000_000), 60);
    assert_eq!(choose_bucket(30 * 86_400 * 1_000_000), 6 * 3600);
    assert_eq!(choose_bucket(3 * 365 * 86_400 * 1_000_000), 7 * 86_400);
}

#[test]
fn stats_buckets_and_checks() {
    assert_eq!(choose_bucket(-5), 60);
    assert_eq!(choose_bucket(i64::MAX), 365 * 86_400);
    assert_eq!(bucket_seconds(TimeBucket::Auto, None), 3600);
    assert_eq!(bucket_seconds(TimeBucket::Day, Some((0, 10))), 86_400);
    assert_eq!(bucket_seconds(TimeBucket::Auto, Some((0, 60 * 1_000_000))), 60);
    assert!(check_top_n(0).is_err());
    assert!(check_top_n(101).is_err());
    assert!(check_top_n(20).is_ok());
    assert!(check_tz_offset(64_801).is_err());
    assert!(check_tz_offset(-64_800).is_ok());
    let (t, cut) = cap_timeline(vec![(0, 1); 2001]);
    assert_eq!(t.len(), 2000);
    assert!(cut);
    assert_eq!(
        timeline_sql("1=1 AND batch_id <= ?", 3600, -3600),
        "SELECT epoch_us(time_bucket(INTERVAL '3600 seconds', timestamp_utc + INTERVAL '-3600 seconds') - INTERVAL '-3600 seconds') AS b, COUNT(*) FROM logs WHERE 1=1 AND batch_id <= ? AND timestamp_utc IS NOT NULL GROUP BY b ORDER BY b LIMIT 2001"
    );
}

#[test]
fn job_status_and_log_kind_texts_round_trip() {
    for s in [
        JobStatus::Queued,
        JobStatus::Running,
        JobStatus::Completed,
        JobStatus::CompletedWithErrors,
        JobStatus::Cancelling,
        JobStatus::Cancelled,
        JobStatus::Failed,
        JobStatus::Interrupted,
    ] {
        assert_eq!(JobStatus::parse(s.as_str()), Some(s));
    }
    assert_eq!(JobStatus::parse("done"), None);
    assert!(JobStatus::Interrupted.is_resumable());
    assert!(!JobStatus::Completed.is_resumable());
    assert_eq!(LogKind::parse(LogKind::Error.as_str()), LogKind::Error);
    assert_eq!(LogKind::parse("whatever"), LogKind::Access);
}

fn job(status: JobStatus, active: bool) -> JobInfo {
    JobInfo {
        job_id: 7,
        result_version: 1,
        status,
        profile_id: 1,
        log_kind: LogKind::Access,
        committed_records: 0,
        committed_errors: 0,
        committed_skipped: 0,
        active,
        replaces_job_id: None,
        failure_reason: None,
    }
}

#[test]
fn activation_and_deletion_rules() {
    assert!(check_activation(&job(JobStatus::Completed, false)).is_ok());
    match check_activation(&job(JobStatus::Failed, false)) {
        Err(EngineError::Job(m)) => assert_eq!(m, "완료되지 않은 작업 7(failed)은 활성화할 수 없음"),
        other => panic!("{other:?}"),
    }
    assert!(check_deletion(&job(JobStatus::Running, false)).is_err());
    assert!(check_deletion(&job(JobStatus::Completed, true)).is_err());
    assert!(check_deletion(&job(JobStatus::Completed, false)).is_ok());
    assert!(validate_setting("4GB").is_ok());
    assert!(validate_setting("1'; DROP").is_err());
    assert!(validate_setting("").is_err());
}

#[test]
fn compression_and_identity() {
    assert_eq!(Compression::from_magic(&[0x1f, 0x8b, 8]), Compression::Gzip);
    assert_eq!(Compression::from_magic(&[0x1f]), Compression::Uncompressed);
    assert_eq!(Compression::Gzip.as_str(), "gzip");
    assert_eq!(weblog::reader::parse_compression("none"), Compression::Uncompressed);
    let a = SourceIdentity::from_head(3, Some(1), Compression::Uncompressed, b"abc");
    assert_eq!(a.head_hash, "ba7816bf8f01cfea414140de5dae2223b00361a396177a9cb410ff61f20015ad");
    assert_eq!(a.head_bytes, 3);
    let b = SourceIdentity::from_head(3, Some(2), Compression::Uncompressed, b"abc");
    assert!(a.matches(&b));
    assert_eq!(a.mismatch_reason(&b), None);
    let c = SourceIdentity::from_head(4, Some(1), Compression::Uncompressed, b"abcd");
    assert!(!a.matches(&c));
    assert_eq!(a.mismatch_reason(&c).as_deref(), Some("크기 3 → 4"));
    let d = SourceIdentity::from_head(3, Some(1), Compression::Uncompressed, b"abd");
    assert_eq!(a.mismatch_reason(&d).as_deref(), Some("선두 내용 해시 불일치"));
}

#[test]
fn filter_sql_binds_every_value() {
    let f = LogFilter {
        job_id: Some(3),
        status_class: Some(5),
        client_ip: Some("1.2.3.4".to_owned()),
        log_kind: Some(LogKind::Error),
        expr: Some(FilterExpr::Or {
            items: vec![
                FilterExpr::Cond { field: CondField::Status, op: CondOp::Gte, value: " 500 ".to_owned() },
                FilterExpr::Not { item: Box::new(FilterExpr::Cond { field: CondField::Level, op: CondOp::Icontains, value: "err".to_owned() }) },
            ],
        }),
        ..LogFilter::default()
    };
    let sql = filter_sql(&f).unwrap();
    assert_eq!(
        sql.where_sql,
        "1=1 AND job_id = ? AND status >= ? AND status < ? AND client_ip = ? AND job_id IN (SELECT job_id FROM import_jobs WHERE coalesce(log_kind, 'access') = ?) AND (status >= ? OR (NOT contains(lower(json_extract_string(extra_json, '$.level')), lower(?))))"
    );
    assert_eq!(sql.where_sql.matches('?').count(), sql.params.len());
    assert_eq!(
        sql.params,
        vec![
            SqlValue::BigInt(3),
            SqlValue::Int(500),
            SqlValue::Int(600),
            SqlValue::Text("1.2.3.4".to_owned()),
            SqlValue::Text("error".to_owned()),
            SqlValue::BigInt(500),
            SqlValue::Text("err".to_owned()),
        ]
    );
}

#[test]
fn filter_sql_rejects_bad_conditions() {
    let bad_class = LogFilter { status_class: Some(6), ..LogFilter::default() };
    assert!(matches!(filter_sql(&bad_class), Err(EngineError::Query(_))));
    let bad_regex = LogFilter { target_regex: Some("(".to_owned()), ..LogFilter::default() };
    assert!(matches!(filter_sql(&bad_regex), Err(EngineError::Query(_))));
    let size_on_text = LogFilter {
        expr: Some(FilterExpr::Cond { field: CondField::Method, op: CondOp::Gt, value: "A".to_owned() }),
        ..LogFilter::default()
    };
    match filter_sql(&size_on_text) {
        Err(EngineError::Query(m)) => assert_eq!(m, "method에는 크기 비교를 쓸 수 없음"),
        other => panic!("{other:?}"),
    }
    let text_on_number = LogFilter {
        expr: Some(FilterExpr::Cond { field: CondField::Status, op: CondOp::Contains, value: "5".to_owned() }),
        ..LogFilter::default()
    };
    assert!(filter_sql(&text_on_number).is_err());
    let not_a_number = LogFilter {
        expr: Some(FilterExpr::Cond { field: CondField::BytesSent, op: CondOp::Lt, value: "x".to_owned() }),
        ..LogFilter::default()
    };
    assert!(filter_sql(&not_a_number).is_err());
    let mut deep = FilterExpr::True;
    for _ in 0..20 {
        deep = FilterExpr::Not { item: Box::new(deep) };
    }
    let too_deep = LogFilter { expr: Some(deep), ..LogFilter::default() };
    assert!(filter_sql(&too_deep).is_err());
    let empty_and = LogFilter { expr: Some(FilterExpr::And { items: vec![] }), ..LogFilter::default() };
    assert_eq!(filter_sql(&empty_and).unwrap().where_sql, "1=1 AND TRUE");
}

fn row(ts: Option<i64>, line: i64) -> LogRow {
    LogRow {
        source_id: 1,
        line_number: line,
        timestamp_utc: ts,
        client_ip: None,
        method: None,
        request_target: None,
        status: None,
        bytes_sent: None,
        bookmarked: false,
        extra_json: None,
    }
}

#[test]
fn page_finishing_and_cursors() {
    assert!(check_page_size(0, 1000).is_err());
    assert!(check_page_size(1001, 1000).is_err());
    assert!(check_page_size(1000, 1000).is_ok());
    let rows = vec![row(Some(1), 1), row(Some(2), 2), row(None, 3)];
    let (kept, next, bytes) = finish_page(rows, 2, None, "h".to_owned(), 9, CursorSegment::NullTime, 3);
    assert_eq!(kept.len(), 2);
    assert_eq!(bytes, 96);
    let c = next.unwrap();
    assert_eq!((c.last_ts, c.last_line, c.segment, c.max_batch_id), (Some(2), 2, CursorSegment::Timed, 9));
    let rows = vec![row(None, 1), row(None, 2)];
    let (kept, next, _) = finish_page(rows, 5, None, "h".to_owned(), 9, CursorSegment::NullTime, 6);
    assert_eq!(kept.len(), 2);
    assert!(next.is_none());
    let rows = vec![row(Some(1), 1), row(Some(2), 2), row(Some(3), 3)];
    let (kept, next, bytes) = finish_page(rows, 3, Some(60), "h".to_owned(), 9, CursorSegment::Timed, 4);
    assert_eq!(kept.len(), 1);
    assert_eq!(bytes, 96);
    assert_eq!(next.unwrap().last_line, 1);
    let cursor = PageCursor { filter_hash: "a".to_owned(), max_batch_id: 4, segment: CursorSegment::Timed, last_ts: Some(1), last_source_id: 1, last_line: 1 };
    assert!(page_start(Some(&cursor), "b", 5).is_err());
    assert_eq!(page_start(Some(&cursor), "a", 5).unwrap().0, 4);
    assert_eq!(page_start(None, "a", 5).unwrap().0, 5);
}

#[test]
fn csv_fields_are_quoted_only_when_needed() {
    let mut v = Vec::new();
    csv_field(&mut v, "plain");
    assert_eq!(v.iter().collect::<String>(), "plain");
    let mut v = Vec::new();
    csv_field(&mut v, "a,\"b\"");
    assert_eq!(v.iter().collect::<String>(), "\"a,\"\"b\"\"\"");
    assert_eq!(csv_header(false).matches(',').count(), 12);
    assert!(csv_header(true).ends_with(",extra_json\n"));
    let r = ExportRow {
        job_id: 1,
        source_id: 2,
        line_number: 3,
        timestamp_utc: Some(0),
        tz_offset_seconds: None,
        client_ip: Some("1.1.1.1".to_owned()),
        method: None,
        request_target: Some("/a,b".to_owned()),
        protocol: None,
        status: Some(200),
        bytes_sent: None,
        referrer: None,
        user_agent: None,
        extra_json: Some("{\"k\":1}".to_owned()),
    };
    assert_eq!(csv_line(&r, true), "1970-01-01T00:00:00.000000Z,,1.1.1.1,,\"/a,b\",,200,,,,1,2,3,\"{\"\"k\"\":1}\"\n");
}

fn detail() -> LogDetail {
    LogDetail {
        job_id: 1,
        batch_id: 1,
        source_id: 1,
        source_path: "x.log".to_owned(),
        line_number: 1,
        timestamp_utc: Some(971_211_336_000_000),
        tz_offset_seconds: Some(-25_200),
        client_ip: Some("127.0.0.1".to_owned()),
        method: Some("GET".to_owned()),
        request_target: Some("/a?b=1".to_owned()),
        protocol: Some("HTTP/1.0".to_owned()),
        status: Some(200),
        bytes_sent: None,
        referrer: None,
        user_agent: Some("UA".to_owned()),
        extra_json: None,
    }
}

#[test]
fn standard_reconstruction_uses_stored_offset_and_marks_missing_values() {
    let r = combined_like(&detail());
    assert!(r.is_reconstruction);
    assert_eq!(r.text, "127.0.0.1 - - [10/Oct/2000:13:55:36 -0700] \"GET /a?b=1 HTTP/1.0\" 200 - \"-\" \"UA\"");
}

#[test]
fn combined_preset_reconstruction_follows_block_order() {
    let mut extra = ExtraFields::new();
    extra.insert("remote_user".to_owned(), "frank".to_owned());
    let r = from_profile(&presets::apache_combined(), &detail(), &extra);
    assert_eq!(r.template, "blocks");
    assert!(r.complete);
    assert_eq!(r.text, "127.0.0.1 - frank [10/Oct/2000:13:55:36 -0700] \"GET /a?b=1 HTTP/1.0\" 200 - \"-\" \"UA\"");
}

#[test]
fn w3c_profile_falls_back_to_standard_text() {
    let r = from_profile(&presets::iis_w3c(), &detail(), &ExtraFields::new());
    assert_eq!(r.template, "standard");
    assert!(!r.complete);
}

#[test]
fn extension_fields_keep_one_value_per_name() {
    let mut e = ExtraFields::new();
    assert!(e.is_empty());
    e.insert("a".to_owned(), "1".to_owned());
    e.insert("b".to_owned(), "2".to_owned());
    e.insert("a".to_owned(), "3".to_owned());
    assert_eq!(e.len(), 2);
    assert_eq!(e.get("a").as_deref(), Some("3"));
    assert!(e.contains_key("b"));
    assert!(!e.contains_key("c"));
    let mut f = ExtraFields::new();
    f.insert("b".to_owned(), "2".to_owned());
    f.insert("a".to_owned(), "3".to_owned());
    assert_eq!(e, f);
    assert_eq!(e.clone(), e);
}

#[test]
fn record_size_counts_texts_and_extension_fields() {
    let mut r = LogRecord::empty(1);
    assert_eq!(r.approx_bytes(), 64);
    r.client_ip = Some("1.2.3.4".to_owned());
    r.extra.insert("k".to_owned(), "vv".to_owned());
    assert_eq!(r.approx_bytes(), 64 + 7 + 1 + 2 + 8);
    assert_eq!(ParseErrorCode::FieldCountMismatch.as_str(), "field_count_mismatch");
}

#[test]
fn batches_fill_and_flush() {
    let mut parser = LineParser::from_profile(&presets::iis_w3c()).unwrap();
    let mut b: PendingBatch = new_batch(1, 2, 0, 0, 1);
    assert!(b.is_empty());
    assert_eq!(b.end_line, 0);
    b.absorb(RawLine { line_number: 1, start_offset: 0, next_offset: 16, content: LineContent::Text("#Fields: c-ip".to_owned()) }, &mut parser);
    b.absorb(RawLine { line_number: 2, start_offset: 16, next_offset: 24, content: LineContent::Text("1.2.3.4".to_owned()) }, &mut parser);
    b.absorb(RawLine { line_number: 3, start_offset: 24, next_offset: 30, content: LineContent::InvalidUtf8 }, &mut parser);
    assert_eq!(b.processed_lines(), 3);
    assert_eq!((b.records.len(), b.errors.len(), b.skipped_count), (1, 1, 1));
    assert_eq!(b.errors[0].code, ParseErrorCode::InvalidUtf8);
    assert_eq!((b.next_offset, b.end_line), (30, 3));
    assert_eq!(batch_step(&b, 10, 3, 1 << 20).unwrap(), BatchStep::Flush);
    assert_eq!(batch_step(&b, 10, 4, 1 << 20).unwrap(), BatchStep::Continue);
    assert!(matches!(batch_step(&b, 0, 4, 1 << 20), Err(EngineError::ErrorLimit { count: 1, limit: 0 })));
    let s = StatSnapshot { file_size: 1, modified_unix: None };
    assert!(ensure_unchanged(1, s, s).is_ok());
    match ensure_unchanged(1, s, StatSnapshot { file_size: 2, modified_unix: Some(5) }) {
        Err(EngineError::SourceChanged { source_id, reason }) => {
            assert_eq!(source_id, 1);
            assert_eq!(reason, "가져오는 중 변경됨: 크기 1 → 2, 수정 시각 None → Some(5)");
        }
        other => panic!("{other:?}"),
    }
}

#[test]
fn case_names_are_file_safe() {
    assert_eq!(sanitize_case_name("  My Case: 2024/01  "), "My_Case_2024_01");
    assert_eq!(sanitize_case_name("..__.."), "case");
    assert_eq!(sanitize_case_name("서울"), "case");
    assert_eq!(sanitize_case_name(&"x".repeat(50)).len(), 40);
}

#[test]
fn views_check_names_and_columns() {
    let def = ViewDefinition { filter: LogFilter::default(), sort: Default::default(), columns: vec!["status".to_owned()], rule_source: None };
    assert_eq!(check_view("  errors ", &def).unwrap(), "errors");
    assert!(check_view("  ", &def).is_err());
    let bad = ViewDefinition { columns: vec!["raw_line".to_owned()], ..def.clone() };
    match check_view("x", &bad) {
        Err(EngineError::Query(m)) => assert_eq!(m, "허용되지 않는 컬럼: raw_line"),
        other => panic!("{other:?}"),
    }
}

#[test]
fn library_names_and_saves() {
    assert_eq!(file_name_for("mine").unwrap(), "mine.yaml");
    assert!(file_name_for("../x").is_err());
    assert!(check_save(&presets::combined(weblog::model::ServerHint::Unknown)).is_err());
    let mut p = presets::combined(weblog::model::ServerHint::Unknown);
    p.name = "mine".to_owned();
    assert_eq!(check_save(&p).unwrap(), "mine.yaml");
}

#[test]
fn error_messages_name_their_kind() {
    assert_eq!(EngineError::SchemaVersion { found: 3, expected: 2 }.message(), "스키마 버전 불일치: 저장소 3, 엔진 2");
    assert_eq!(EngineError::ErrorLimit { count: 5, limit: 4 }.message(), "오류 저장 한도 초과: 배치 오류 5건이 한도 4건을 넘음");
}

#[test]
fn scan_errors_are_capped_like_entries_and_the_walk_goes_on() {
    let opts = ScanOptions { max_entries: 2, ..ScanOptions::default() };
    let mut result = ScanResult::default();
    for i in 0..3 {
        let e = ScanError { path: std::path::PathBuf::from(format!("/x/{i}")), message: "denied".to_owned() };
        record_error(&mut result, e, &opts);
    }
    assert_eq!(result.errors.len(), 2);
    assert!(result.errors_truncated);
    assert!(!result.truncated, "only the error list was cut");
    assert_eq!(result.errors[1].path, std::path::PathBuf::from("/x/1"));
}

#[test]
fn raw_samples_are_capped_at_twenty_lines_and_256_kib() {
    assert_eq!(sample_line_cap(0), 1);
    assert_eq!(sample_line_cap(5), 5);
    assert_eq!(sample_line_cap(500), 20);
    assert!(!sample_limit_reached(4, 100, 5));
    assert!(sample_limit_reached(5, 100, 5));
    assert!(sample_limit_reached(0, SAMPLE_MAX_BYTES, 5));
    let text = sample_line(RawLine { line_number: 3, start_offset: 0, next_offset: 4, content: LineContent::Text("abc".to_owned()) });
    assert_eq!((text.line_number, text.text), (3, Some("abc".to_owned())));
    let bad = sample_line(RawLine { line_number: 4, start_offset: 4, next_offset: 9, content: LineContent::InvalidUtf8 });
    assert_eq!(bad.text, None);
}

#[test]
fn resuming_at_a_batch_checkpoint_continues_where_reading_stopped() {
    let data = b"#Fields: c-ip\n1.2.3.4\n5.6.7.8\n";
    let mut parser = LineParser::from_profile(&presets::iis_w3c()).unwrap();
    let mut reading = LineCursor::new(1024).unwrap();
    let mut batch: PendingBatch = new_batch(1, 2, 0, 0, 1);
    let mut pos = 0;
    for _ in 0..2 {
        let (n, ended) = reading.take(&data[pos..]);
        assert!(ended);
        pos += n;
        let line = reading.finish().unwrap();
        batch.absorb(line, &mut parser);
    }
    let mut resumed = LineCursor::new(1024).unwrap();
    resumed.resume_at(batch.next_offset, batch.end_line);
    assert_eq!((resumed.offset(), resumed.line_number()), (reading.offset(), reading.line_number()));
    assert_eq!(resumed.take(&data[pos..]), reading.take(&data[pos..]));
    let a = resumed.finish().unwrap();
    let b = reading.finish().unwrap();
    assert_eq!(a, b);
    assert_eq!((a.line_number, a.start_offset, a.content), (3, 22, LineContent::Text("5.6.7.8".to_owned())));
}

#[test]
fn page_statements_continue_after_the_cursor_key_with_every_value_bound() {
    let base = filter_sql(&LogFilter { status: Some(404), ..LogFilter::default() }).unwrap();
    let (sql, params) = fetch_sql("source_id, line_number", &base, 7, true, SortOrder::TimeDesc, Some((Some(1_000), 2, 30)), 201);
    assert_eq!(
        sql,
        "SELECT source_id, line_number FROM logs WHERE 1=1 AND status = ? AND batch_id <= ? AND timestamp_utc IS NOT NULL AND (timestamp_utc < make_timestamp(?) OR (timestamp_utc = make_timestamp(?) AND (source_id > ? OR (source_id = ? AND line_number > ?)))) ORDER BY timestamp_utc DESC, source_id ASC, line_number ASC LIMIT ?"
    );
    assert_eq!(
        params,
        vec![
            SqlValue::Int(404),
            SqlValue::BigInt(7),
            SqlValue::BigInt(1_000),
            SqlValue::BigInt(1_000),
            SqlValue::BigInt(2),
            SqlValue::BigInt(2),
            SqlValue::BigInt(30),
            SqlValue::BigInt(201),
        ]
    );
    assert_eq!(sql.matches('?').count(), params.len());
    let (null_sql, null_params) = fetch_sql("line_number", &base, 7, false, SortOrder::TimeAsc, Some((None, 2, 30)), 5);
    assert_eq!(
        null_sql,
        "SELECT line_number FROM logs WHERE 1=1 AND status = ? AND batch_id <= ? AND timestamp_utc IS NULL AND (source_id > ? OR (source_id = ? AND line_number > ?)) ORDER BY source_id ASC, line_number ASC LIMIT ?"
    );
    assert_eq!(null_sql.matches('?').count(), null_params.len());
    let (first, first_params) = fetch_sql("line_number", &base, 7, true, SortOrder::TimeAsc, None, 5);
    assert!(first.ends_with("IS NOT NULL ORDER BY timestamp_utc ASC, source_id ASC, line_number ASC LIMIT ?"));
    assert_eq!(first_params.len(), 3);
}

#[test]
fn error_logs_aggregate_levels_and_messages_instead_of_status_and_targets() {
    assert_eq!(
        stat_queries(false),
        vec![StatQuery::Totals, StatQuery::Status, StatQuery::Methods, StatQuery::Targets, StatQuery::TopIps, StatQuery::IpRows]
    );
    assert_eq!(stat_queries(true), vec![StatQuery::Totals, StatQuery::Levels, StatQuery::Messages, StatQuery::TopIps, StatQuery::IpRows]);
    assert_eq!(
        stat_sql(StatQuery::TopIps, "1=1 AND batch_id <= ?"),
        "SELECT client_ip, COUNT(*) AS n FROM logs WHERE 1=1 AND batch_id <= ? AND client_ip IS NOT NULL GROUP BY client_ip ORDER BY n DESC, client_ip LIMIT ?"
    );
    assert_eq!(stat_sql(StatQuery::Status, "W"), "SELECT status, COUNT(*) FROM logs WHERE W GROUP BY status ORDER BY status");
    assert!(takes_top_n(StatQuery::Messages) && !takes_top_n(StatQuery::Levels) && !takes_top_n(StatQuery::Totals));
}

#[test]
fn verification_records_the_full_hash_only_the_first_time_and_then_compares_it() {
    let stored = SourceIdentity::from_head(3, Some(1), Compression::Uncompressed, b"abc");
    let mut current = stored.clone();
    current.full_hash = Some("f".to_owned());
    let (v, record) = verify_identity(9, "a.log".to_owned(), &stored, &current, true);
    assert!(v.matches && record && !v.full_checked);
    assert_eq!((v.source_id, v.path.as_str(), v.reason), (9, "a.log", None));
    let mut stored_full = stored.clone();
    stored_full.full_hash = Some("g".to_owned());
    let (v, record) = verify_identity(9, "a.log".to_owned(), &stored_full, &current, true);
    assert!(!v.matches && !record && v.full_checked);
    assert_eq!(v.reason.as_deref(), Some("전체 내용 해시 불일치"));
    let changed = SourceIdentity::from_head(4, Some(1), Compression::Uncompressed, b"abcd");
    let (v, _) = verify_identity(9, "a.log".to_owned(), &stored, &changed, false);
    assert_eq!(v.reason.as_deref(), Some("크기 3 → 4"));
}

#[test]
fn a_matching_reading_reuses_its_registration_and_fills_in_the_full_hash() {
    let stored = SourceIdentity::from_head(3, Some(1), Compression::Uncompressed, b"abc");
    let mut later = SourceIdentity::from_head(3, Some(7), Compression::Uncompressed, b"abc");
    assert_eq!(reuse_registration(&stored, &later), (true, false));
    later.full_hash = Some("h".to_owned());
    assert_eq!(reuse_registration(&stored, &later), (true, true));
    let other = SourceIdentity::from_head(3, Some(1), Compression::Uncompressed, b"abd");
    assert_eq!(reuse_registration(&stored, &other), (false, false));
}

#[test]
fn everything_lives_under_the_cases_folder() {
    let root = std::path::PathBuf::from("/opt/weblog");
    let l = layout(&root);
    assert_eq!(l.cases, root.join("cases"));
    for p in [&l.logs, &l.presets] {
        assert!(p.starts_with(&l.cases), "{} is outside cases", p.display());
    }
}

#[test]
fn layout_joins_each_folder_to_its_parent() {
    let root = std::path::PathBuf::from("data");
    let l = layout(&root);
    assert_eq!(l.cases, std::path::PathBuf::from("data").join("cases"));
    assert_eq!(l.logs, l.cases.join("logs"));
    assert_eq!(l.presets, l.cases.join("presets"));
    assert_ne!(l.logs, l.presets);
}

#[test]
fn builtin_names_and_unsafe_names_are_rejected() {
    assert!(check_save(&presets::apache_combined()).is_err());
    let mut p = presets::apache_combined();
    p.name = "../escape".to_owned();
    assert!(check_save(&p).is_err());
    assert!(file_name_for("../escape").is_err());
}

#[test]
fn yaml_definitions_are_capped_by_size() {
    assert!(weblog::library::check_yaml_size(0).is_ok());
    assert!(weblog::library::check_yaml_size(256 * 1024).is_ok());
    match weblog::library::check_yaml_size(256 * 1024 + 1) {
        Err(e) => assert_eq!(e.message(), "한도 초과: YAML이 상한 262144바이트를 넘음"),
        Ok(()) => panic!("a larger definition is refused"),
    }
}

#[test]
fn a_page_keeps_a_row_under_any_byte_cap() {
    let rows = vec![row(Some(1), 1), row(Some(2), 2)];
    let (kept, next, _) = finish_page(rows, 1, Some(0), "h".to_owned(), 3, CursorSegment::Timed, 2);
    assert_eq!(kept.len(), 1);
    assert_eq!(next.unwrap().last_line, 1);
    let rows = vec![row(Some(5), 7)];
    let (kept, next, _) = finish_page(rows, 10, Some(1), "h".to_owned(), 3, CursorSegment::Timed, 11);
    assert_eq!(kept.len(), 1);
    assert!(next.is_none());
}

#[test]
fn progress_lines_are_logged_at_most_once_a_second() {
    assert!(weblog::applog::progress_log_due(100, 0));
    assert!(weblog::applog::progress_log_due(101, 100));
    assert!(!weblog::applog::progress_log_due(100, 100));
    assert!(!weblog::applog::progress_log_due(5, 100));
}

#[test]
fn a_cursor_continues_after_its_page_within_the_pinned_batches() {
    let rows = vec![row(Some(1), 1), row(Some(2), 2), row(Some(3), 3)];
    let (kept, next, _) = finish_page(rows, 2, None, "h".to_owned(), 7, CursorSegment::Timed, 3);
    assert_eq!(kept.len(), 2);
    let c = next.unwrap();
    let start = page_start(Some(&c), "h", 99).unwrap();
    assert_eq!(start, (7, CursorSegment::Timed, Some((Some(2), 1, 2))));
}

#[test]
fn a_range_too_wide_for_the_automatic_bucket_is_refused() {
    match weblog::stats::request_bucket(TimeBucket::Auto, Some((i64::MIN, i64::MAX))) {
        Err(e) => assert_eq!(e.message(), "조회 요청 오류: 시간 범위가 너무 넓음"),
        Ok(_) => panic!("refused"),
    }
    assert_eq!(weblog::stats::request_bucket(TimeBucket::Hour, Some((i64::MIN, i64::MAX))).unwrap(), 3600);
    assert_eq!(weblog::stats::request_bucket(TimeBucket::Auto, Some((0, 60 * 1_000_000))).unwrap(), 60);
    assert_eq!(weblog::stats::request_bucket(TimeBucket::Auto, None).unwrap(), 3600);
}

#[test]
fn batches_are_numbered_on_from_the_checkpoint() {
    let cp = weblog::batch::BatchCheckpoint { batch_id: 4, batch_seq: 2, next_offset: 900, end_line: 30, header_state_json: None };
    let first = weblog::batch::opening_batch(1, 5, &Some(cp));
    assert_eq!((first.job_id, first.source_id, first.batch_seq), (1, 5, 3));
    assert_eq!((first.start_offset, first.next_offset, first.start_line, first.end_line), (900, 900, 31, 30));
    let fresh = weblog::batch::opening_batch(1, 5, &None);
    assert_eq!((fresh.batch_seq, fresh.start_offset, fresh.start_line, fresh.end_line), (0, 0, 1, 0));
    let mut full = new_batch(1, 5, 3, 900, 31);
    full.next_offset = 1800;
    full.end_line = 60;
    let next = weblog::batch::following_batch(&full);
    assert_eq!((next.job_id, next.source_id, next.batch_seq), (1, 5, 4));
    assert_eq!((next.start_offset, next.next_offset, next.start_line, next.end_line), (1800, 1800, 61, 60));
}

#[test]
fn a_default_batch_is_empty() {
    let b = weblog::batch::PendingBatch::default();
    assert!(b.is_empty());
    assert_eq!(b.processed_lines(), 0);
    assert_eq!((b.records.len(), b.errors.len(), b.skipped_count, b.approx_bytes), (0, 0, 0, 0));
}

#[test]
fn paths_sort_component_by_component() {
    let paths: Vec<std::path::PathBuf> =
        ["logs/b", "logs/a/c", "logs/a-b", "logs/a", "logs/a/b.log"].iter().map(std::path::PathBuf::from).collect();
    let sorted = sort_by_path(paths.clone());
    let mut expected = paths.clone();
    expected.sort();
    assert_eq!(sorted, expected);
    let names: Vec<&str> = sorted.iter().map(|p| p.to_str().unwrap()).collect();
    assert_eq!(names, vec!["logs/a", "logs/a/b.log", "logs/a/c", "logs/a-b", "logs/b"]);
}

#[test]
fn path_key_ends_each_component_with_zero() {
    let key = path_key_bytes(&std::path::PathBuf::from("/var/log"));
    assert_eq!(key, b"/\0var\0log\0".to_vec());
}

#[test]
fn scan_entries_sort_by_path() {
    let entry = |p: &str| ScanEntry { path: p.into(), file_size: 0, modified_unix: None, compression: None, depth: 1 };
    let sorted = sort_by_path(vec![entry("r/z.log"), entry("r/a/x.log"), entry("r/a.log")]);
    let names: Vec<&str> = sorted.iter().map(|e| e.path.to_str().unwrap()).collect();
    assert_eq!(names, vec!["r/a/x.log", "r/a.log", "r/z.log"]);
}
