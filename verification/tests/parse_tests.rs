use weblog::blocks::BlocksParser;
use weblog::ip::validate_ip;
use weblog::line_parser::LineParser;
use weblog::model::{Strategy, TimestampFormat, TimezonePolicy};
use weblog::presets;
use weblog::record::{LineOutcome, ParseErrorCode, SkipReason};
use weblog::semantic::{parse_i64, parse_status, resolve_timestamp, resolve_w3c_datetime, split_request_line};
use weblog::w3c::{W3cHeaderState, W3cParser};

const FIELDS: &str = "#Fields: date time s-ip cs-method cs-uri-stem cs-uri-query s-port cs-username c-ip cs(User-Agent) cs(Referer) sc-status sc-substatus sc-win32-status time-taken";
const DATA: &str = "2024-01-02 03:04:05 10.0.0.1 GET /index.html a=1&b=2 80 - 192.168.1.5 Mozilla/5.0+(Windows) http://ref.example/ 200 0 0 15";

fn parser() -> W3cParser {
    W3cParser::new(TimezonePolicy::Utc)
}

#[test]
fn data_before_fields_header_is_header_missing_error() {
    let mut p = parser();
    assert_eq!(p.parse_line(1, DATA), LineOutcome::error(1, ParseErrorCode::HeaderMissing, None));
}

#[test]
fn directives_are_skipped_not_errors() {
    let mut p = parser();
    assert_eq!(
        p.parse_line(1, "#Software: Microsoft Internet Information Services 10.0"),
        LineOutcome::Skipped { line_number: 1, reason: SkipReason::Directive }
    );
}

#[test]
fn fields_header_maps_standard_columns() {
    let mut p = parser();
    p.parse_line(1, FIELDS);
    let LineOutcome::Record(r) = p.parse_line(2, DATA) else {
        panic!("expected record");
    };
    assert_eq!(r.timestamp_utc, Some(1_704_164_645_000_000));
    assert_eq!(r.client_ip.as_deref(), Some("192.168.1.5"));
    assert_eq!(r.method.as_deref(), Some("GET"));
    assert_eq!(r.request_target.as_deref(), Some("/index.html?a=1&b=2"));
    assert_eq!(r.status, Some(200));
    assert_eq!(r.user_agent.as_deref(), Some("Mozilla/5.0+(Windows)"));
    assert_eq!(r.referrer.as_deref(), Some("http://ref.example/"));
    assert_eq!(r.extra.get("time-taken").as_deref(), Some("15"));
    assert!(!r.extra.contains_key("cs-username"));
}

#[test]
fn header_change_mid_file_is_applied() {
    let mut p = parser();
    p.parse_line(1, FIELDS);
    p.parse_line(2, "#Fields: date time c-ip sc-status");
    let LineOutcome::Record(r) = p.parse_line(3, "2024-01-02 03:04:05 10.1.1.1 404") else {
        panic!("expected record");
    };
    assert_eq!(r.status, Some(404));
    assert_eq!(r.client_ip.as_deref(), Some("10.1.1.1"));
}

#[test]
fn field_count_mismatch_is_error() {
    let mut p = parser();
    p.parse_line(1, "#Fields: date time c-ip sc-status");
    assert_eq!(
        p.parse_line(2, "2024-01-02 03:04:05 10.1.1.1"),
        LineOutcome::error(2, ParseErrorCode::FieldCountMismatch, None)
    );
}

#[test]
fn header_state_roundtrips_through_a_kept_state() {
    let mut p = parser();
    p.parse_line(1, "#Fields: date time c-ip sc-status");
    let state = p.header_state();
    let mut q = parser();
    q.restore_header_state(state);
    assert_eq!(q.fields(), p.fields());
    q.reset();
    assert!(q.fields().is_empty());
    let empty = W3cHeaderState { fields: vec![] };
    q.restore_header_state(empty);
    assert!(q.fields().is_empty());
}

#[test]
fn w3c_empty_fields_directive_is_an_error_and_keeps_the_header() {
    let mut p = parser();
    p.parse_line(1, "#Fields: date time");
    assert_eq!(p.parse_line(2, "#Fields:   "), LineOutcome::error(2, ParseErrorCode::InvalidDirective, Some("Fields")));
    assert_eq!(p.fields().len(), 2);
    assert_eq!(p.parse_line(3, "  \t "), LineOutcome::Skipped { line_number: 3, reason: SkipReason::Blank });
}

#[test]
fn w3c_invalid_values_name_their_column() {
    let mut p = parser();
    p.parse_line(1, "#Fields: c-ip sc-status sc-bytes");
    assert_eq!(p.parse_line(2, "300.1.1.1 200 5"), LineOutcome::error(2, ParseErrorCode::InvalidIp, Some("c-ip")));
    assert_eq!(p.parse_line(3, "1.1.1.1 700 5"), LineOutcome::error(3, ParseErrorCode::InvalidStatus, Some("sc-status")));
    assert_eq!(p.parse_line(4, "1.1.1.1 200 x"), LineOutcome::error(4, ParseErrorCode::InvalidInteger, Some("sc-bytes")));
    let LineOutcome::Record(r) = p.parse_line(5, "- - -") else { panic!("dashes are missing values") };
    assert_eq!(r.client_ip, None);
    assert_eq!(r.bytes_sent, None);
}

#[test]
fn w3c_lone_date_is_kept_as_an_extension_field() {
    let mut p = parser();
    p.parse_line(1, "#Fields: date cs-uri-query");
    let LineOutcome::Record(r) = p.parse_line(2, "2024-01-02 q=1") else { panic!() };
    assert_eq!(r.timestamp_utc, None);
    assert_eq!(r.extra.get("date").as_deref(), Some("2024-01-02"));
    assert_eq!(r.request_target.as_deref(), Some("?q=1"));
}

#[test]
fn status_outside_range_is_rejected() {
    assert_eq!(parse_status("600"), None);
    assert_eq!(parse_status("200"), Some(200));
}

#[test]
fn integers_follow_rust_text_rules() {
    assert_eq!(parse_i64("-9223372036854775808"), Some(i64::MIN));
    assert_eq!(parse_i64("9223372036854775808"), None);
    assert_eq!(parse_i64("+42"), Some(42));
    assert_eq!(parse_i64("-"), None);
    assert_eq!(parse_i64(""), None);
    assert_eq!(parse_i64("4 2"), None);
    assert_eq!(parse_status("+404"), Some(404));
    assert_eq!(parse_status("99"), None);
    assert_eq!(parse_status("70000"), None);
}

#[test]
fn request_line_splits_into_three_parts() {
    let (m, t, p) = split_request_line("GET /a?b=c%20d HTTP/1.1");
    assert_eq!(m.as_deref(), Some("GET"));
    assert_eq!(t.as_deref(), Some("/a?b=c%20d"));
    assert_eq!(p.as_deref(), Some("HTTP/1.1"));
}

#[test]
fn malformed_request_line_keeps_whole_text_as_target() {
    let (m, t, p) = split_request_line("\\x16\\x03 garbage with spaces");
    assert_eq!(m, None);
    assert_eq!(t.as_deref(), Some("\\x16\\x03 garbage with spaces"));
    assert_eq!(p, None);
}

#[test]
fn request_line_without_protocol_keeps_method_and_target() {
    let (m, t, p) = split_request_line("GET /x");
    assert_eq!(m.as_deref(), Some("GET"));
    assert_eq!(t.as_deref(), Some("/x"));
    assert_eq!(p, None);
}

#[test]
fn clf_timestamp_with_offset_converts_to_utc() {
    let t = resolve_timestamp("10/Oct/2000:13:55:36 -0700", &TimestampFormat::Clf, TimezonePolicy::FromInput).unwrap();
    assert_eq!(t.utc_micros, Some(971_211_336_000_000));
    assert_eq!(t.offset_seconds, Some(-25_200));
}

#[test]
fn clf_timestamp_without_offset_is_unresolved_under_from_input_policy() {
    let t = resolve_timestamp("10/Oct/2000:13:55:36", &TimestampFormat::Clf, TimezonePolicy::FromInput).unwrap();
    assert_eq!(t.utc_micros, None);
}

#[test]
fn clf_timestamp_without_offset_uses_fixed_policy() {
    let t = resolve_timestamp("10/Oct/2000:13:55:36", &TimestampFormat::Clf, TimezonePolicy::Fixed { offset_seconds: 32_400 }).unwrap();
    assert_eq!(t.utc_micros, Some(971_153_736_000_000));
    assert_eq!(t.offset_seconds, Some(32_400));
}

#[test]
fn input_offset_wins_over_fixed_policy() {
    let t = resolve_timestamp("10/Oct/2000:13:55:36 +0000", &TimestampFormat::Clf, TimezonePolicy::Fixed { offset_seconds: 32_400 }).unwrap();
    assert_eq!(t.offset_seconds, Some(0));
}

#[test]
fn invalid_clf_timestamp_is_none() {
    assert!(resolve_timestamp("32/Oct/2000:13:55:36 -0700", &TimestampFormat::Clf, TimezonePolicy::Utc).is_none());
}

#[test]
fn iso_and_custom_timestamps_are_read() {
    let t = resolve_timestamp("2024-01-02T03:04:05Z", &TimestampFormat::Iso8601, TimezonePolicy::FromInput).unwrap();
    assert_eq!(t.utc_micros, Some(1_704_164_645_000_000));
    let t = resolve_timestamp("2024-01-02 03:04:05", &TimestampFormat::Iso8601, TimezonePolicy::Utc).unwrap();
    assert_eq!(t.utc_micros, Some(1_704_164_645_000_000));
    let custom = TimestampFormat::Custom { pattern: "%Y/%m/%d %H:%M:%S".to_owned() };
    let t = resolve_timestamp("2024/01/02 03:04:05", &custom, TimezonePolicy::Utc).unwrap();
    assert_eq!(t.utc_micros, Some(1_704_164_645_000_000));
}

#[test]
fn w3c_datetime_is_utc_by_default() {
    let t = resolve_w3c_datetime("2024-01-02", "03:04:05", TimezonePolicy::Utc).unwrap();
    assert_eq!(t.utc_micros, Some(1_704_164_645_000_000));
}

#[test]
fn ipv6_is_valid_and_preserved() {
    assert_eq!(validate_ip("2001:db8::1"), Some("2001:db8::1"));
}

#[test]
fn non_ip_is_rejected() {
    assert_eq!(validate_ip("999.1.1.1"), None);
}

#[test]
fn ip_forms_follow_the_standard_text_rules() {
    for ok in ["0.0.0.0", "255.255.255.255", "::", "::1", "1::", "1:2:3:4:5:6:7:8", "::ffff:1.2.3.4", "1:2:3:4:5:6:1.2.3.4", "1:2:3:4:5:6:7::", "::2:3:4:5:6:7:8", "2001:db8::ff00:42:8329", "ABCD::ef"] {
        assert_eq!(validate_ip(ok), Some(ok), "{ok}");
    }
    for bad in ["", "01.2.3.4", "1.2.3", "1.2.3.4.", "256.1.1.1", ":::", "1:::2", "1::2::3", "1:2:3:4:5:6:7:8:9", "1::2:3:4:5:6:7:8", "1.2.3.4::", "12345::", "::1.2.3.4:5", "[::1]", "fe80::1%eth0", " 1.2.3.4"] {
        assert_eq!(validate_ip(bad), None, "{bad}");
    }
}

fn combined_parser() -> BlocksParser {
    let profile = presets::apache_combined();
    let Strategy::Blocks { blocks } = &profile.strategy else {
        panic!("combined preset must be block based");
    };
    BlocksParser::new(blocks, profile.timezone).unwrap()
}

const LINE: &str = r#"127.0.0.1 - frank [10/Oct/2000:13:55:36 -0700] "GET /apache_pb.gif?x=1 HTTP/1.0" 200 2326 "http://www.example.com/start.html" "Mozilla/4.08 [en] (Win98; I ;Nav)""#;

#[test]
fn combined_line_parses_all_standard_fields() {
    let outcome = combined_parser().parse_line(1, LINE);
    let LineOutcome::Record(r) = outcome else {
        panic!("expected record, got {outcome:?}");
    };
    assert_eq!(r.client_ip.as_deref(), Some("127.0.0.1"));
    assert_eq!(r.timestamp_utc, Some(971_211_336_000_000));
    assert_eq!(r.method.as_deref(), Some("GET"));
    assert_eq!(r.request_target.as_deref(), Some("/apache_pb.gif?x=1"));
    assert_eq!(r.protocol.as_deref(), Some("HTTP/1.0"));
    assert_eq!(r.status, Some(200));
    assert_eq!(r.bytes_sent, Some(2326));
    assert_eq!(r.referrer.as_deref(), Some("http://www.example.com/start.html"));
    assert_eq!(r.user_agent.as_deref(), Some("Mozilla/4.08 [en] (Win98; I ;Nav)"));
    assert_eq!(r.extra.get("remote_user").as_deref(), Some("frank"));
    assert!(!r.extra.contains_key("ident"), "'-' must be treated as missing");
}

#[test]
fn missing_bytes_is_none_not_zero() {
    let line = r#"127.0.0.1 - - [10/Oct/2000:13:55:36 -0700] "GET / HTTP/1.0" 304 - "-" "-""#;
    let LineOutcome::Record(r) = combined_parser().parse_line(1, line) else {
        panic!("expected record");
    };
    assert_eq!(r.bytes_sent, None);
    assert_eq!(r.referrer, None);
    assert_eq!(r.user_agent, None);
}

#[test]
fn invalid_ip_is_error_with_field_name_and_no_input() {
    let line = LINE.replacen("127.0.0.1", "300.1.1.1", 1);
    let outcome = combined_parser().parse_line(7, &line);
    assert_eq!(outcome, LineOutcome::error(7, ParseErrorCode::InvalidIp, Some("client_ip")));
}

#[test]
fn blank_line_is_skipped() {
    assert_eq!(combined_parser().parse_line(3, "   "), LineOutcome::Skipped { line_number: 3, reason: SkipReason::Blank });
}

#[test]
fn garbage_line_is_no_match() {
    assert_eq!(combined_parser().parse_line(4, "not a log line"), LineOutcome::error(4, ParseErrorCode::NoMatch, None));
}

#[test]
fn ipv6_client_is_accepted() {
    let line = LINE.replacen("127.0.0.1", "2001:db8::ff00:42:8329", 1);
    let LineOutcome::Record(r) = combined_parser().parse_line(1, &line) else {
        panic!("expected record");
    };
    assert_eq!(r.client_ip.as_deref(), Some("2001:db8::ff00:42:8329"));
}

#[test]
fn stack_trace_lines_are_skipped_as_continuation_not_errors() {
    let parser = combined_parser();
    for line in [
        "#0 /var/www/html/app/Http/Controllers/GpController.php(1220): app\\Models\\Company->detailInfo()",
        "    at java.base/java.lang.Thread.run(Thread.java:833)",
        "Stack trace:",
        "thrown in /var/www/html/index.php on line 12",
        "Caused by: java.io.IOException",
        "Traceback (most recent call last):",
    ] {
        assert!(matches!(parser.parse_line(1, line), LineOutcome::Skipped { reason: SkipReason::Continuation, .. }), "{line}");
    }
    assert!(matches!(parser.parse_line(1, "garbage that is not a log line"), LineOutcome::Error { .. }));
}

#[test]
fn line_parser_dispatches_by_strategy_and_refuses_other_schema_versions() {
    let mut lp = LineParser::from_profile(&presets::iis_w3c()).unwrap();
    assert!(lp.header_state().is_some());
    lp.parse_line(1, "#Fields: c-ip");
    let LineOutcome::Record(r) = lp.parse_line(2, "1.2.3.4") else { panic!() };
    assert_eq!(r.client_ip.as_deref(), Some("1.2.3.4"));
    let mut bp = LineParser::from_profile(&presets::apache_combined()).unwrap();
    assert!(bp.header_state().is_none());
    assert!(matches!(bp.parse_line(1, LINE), LineOutcome::Record(_)));
    let mut p = presets::common(weblog::model::ServerHint::Unknown);
    p.schema_version = 2;
    assert!(LineParser::from_profile(&p).is_err());
}
