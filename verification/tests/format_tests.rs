use weblog::compile::CompiledBlocks;
use weblog::error::EngineError;
use weblog::model::{Block, Capture, FieldDef, FieldKind, FormatProfile, ServerHint, Strategy, TimestampFormat, TimezonePolicy, SCHEMA_VERSION};
use weblog::presets;
use weblog::validate::{is_valid_field_name, is_valid_profile_name, is_valid_strftime};

fn custom(blocks: Vec<Block>) -> FormatProfile {
    FormatProfile {
        schema_version: SCHEMA_VERSION,
        name: "custom".to_owned(),
        version: 1,
        server_hint: ServerHint::Unknown,
        timezone: TimezonePolicy::Utc,
        strategy: Strategy::Blocks { blocks },
    }
}

fn field(name: &str, kind: FieldKind, capture: Capture) -> Block {
    Block::Field(FieldDef { name: name.to_owned(), kind, capture, missing: vec![] })
}

fn token(name: &str) -> Block {
    field(name, FieldKind::Text, Capture::Token)
}

fn values(compiled: &CompiledBlocks, line: &str) -> Option<Vec<Option<String>>> {
    let mut buf = compiled.match_buf();
    if !compiled.match_line(line, &mut buf) {
        return None;
    }
    Some((0..compiled.fields().len()).map(|i| compiled.field_value(i, &buf)).collect())
}

#[test]
fn builtin_presets_are_valid() {
    for name in presets::PRESET_NAMES {
        let p = presets::by_name(name).unwrap();
        assert!(p.validate().is_empty(), "{name}: {:?}", p.validate());
    }
}

#[test]
fn duplicate_and_invalid_field_names_are_reported_with_paths() {
    let p = custom(vec![
        field("a", FieldKind::Text, Capture::Token),
        Block::Whitespace,
        field("a", FieldKind::Text, Capture::Token),
        field("1bad", FieldKind::Text, Capture::Token),
    ]);
    let issues = p.validate();
    assert_eq!(issues[0].path, "blocks[2].name");
    assert_eq!(issues[1].path, "blocks[3].name");
}

#[test]
fn invalid_regex_and_strftime_are_reported() {
    let p = custom(vec![field(
        "ts",
        FieldKind::Timestamp { format: TimestampFormat::Custom { pattern: "%Q".to_owned() } },
        Capture::Pattern { pattern: "(unclosed".to_owned() },
    )]);
    let paths: Vec<String> = p.validate().into_iter().map(|i| i.path).collect();
    assert!(paths.contains(&"blocks[0].capture.pattern".to_owned()));
    assert!(paths.contains(&"blocks[0].kind.format.pattern".to_owned()));
}

#[test]
fn empty_blocks_and_missing_fields_are_rejected() {
    assert!(!custom(vec![]).validate().is_empty());
    let no_field = custom(vec![Block::Literal { text: "x".to_owned() }]);
    assert!(no_field.validate().iter().any(|i| i.message.contains("필드 블록")));
    assert!(no_field.ensure_valid().is_err());
}

#[test]
fn profile_name_rules() {
    assert!(is_valid_profile_name("my-nginx_v2"));
    assert!(!is_valid_profile_name("../etc"));
    assert!(!is_valid_profile_name("a b"));
    assert!(!is_valid_profile_name(""));
}

#[test]
fn field_name_rules_follow_the_documented_alphabet() {
    assert!(is_valid_field_name("remote_user"));
    assert!(is_valid_field_name("_x-1"));
    assert!(!is_valid_field_name("1bad"));
    assert!(!is_valid_field_name(""));
    assert!(!is_valid_field_name("a b"));
    assert!(!is_valid_field_name(&"a".repeat(65)));
}

#[test]
fn strftime_patterns_are_checked_by_chrono() {
    assert!(is_valid_strftime("%Y-%m-%d %H:%M:%S"));
    assert!(!is_valid_strftime("%Q"));
    assert!(!is_valid_strftime(""));
}

#[test]
fn ensure_valid_reports_the_first_issue_and_how_many_follow() {
    let p = FormatProfile { version: 0, ..custom(vec![]) };
    match p.ensure_valid() {
        Err(EngineError::Format(m)) => {
            assert!(m.starts_with("version — 버전은 1 이상"), "{m}");
            assert!(m.ends_with(" (외 2건)"), "{m}");
        }
        other => panic!("{other:?}"),
    }
}

#[test]
fn quoted_capture_excludes_quotes_and_keeps_escapes() {
    let blocks = vec![field("ua", FieldKind::UserAgent, Capture::Quoted)];
    let compiled = CompiledBlocks::compile(&blocks).unwrap();
    let vals = values(&compiled, r#""Mozilla \"x\" 1.0""#).unwrap();
    assert_eq!(vals[0].as_deref(), Some(r#"Mozilla \"x\" 1.0"#));
}

#[test]
fn bracketed_capture_excludes_brackets() {
    let blocks = vec![field("ts", FieldKind::Text, Capture::Bracketed)];
    let compiled = CompiledBlocks::compile(&blocks).unwrap();
    let vals = values(&compiled, "[10/Oct/2000:13:55:36 -0700]").unwrap();
    assert_eq!(vals[0].as_deref(), Some("10/Oct/2000:13:55:36 -0700"));
}

#[test]
fn optional_group_field_is_none_when_absent() {
    let blocks = vec![token("a"), Block::OptionalGroup { blocks: vec![Block::Whitespace, token("b")] }];
    let compiled = CompiledBlocks::compile(&blocks).unwrap();
    assert_eq!(values(&compiled, "x").unwrap(), vec![Some("x".to_owned()), None]);
}

#[test]
fn regex_block_named_group_becomes_extra() {
    let blocks = vec![token("a"), Block::Whitespace, Block::Regex { pattern: "rt=(?P<response_time>[0-9.]+)".to_owned() }];
    let compiled = CompiledBlocks::compile(&blocks).unwrap();
    let mut buf = compiled.match_buf();
    assert!(compiled.match_line("x rt=0.25", &mut buf));
    let extras = compiled.extras(&buf);
    assert_eq!(extras, vec![("response_time".to_owned(), "0.25".to_owned())]);
}

#[test]
fn duplicate_field_name_is_rejected() {
    let err = CompiledBlocks::compile(&[token("a"), token("a")]).err().unwrap();
    assert!(matches!(err, EngineError::Format(_)));
    assert_eq!(err.message(), "포맷 정의 오류: 필드 이름 중복: a");
}

#[test]
fn reserved_group_name_in_regex_block_is_rejected() {
    let blocks = vec![token("a"), Block::Regex { pattern: "(?P<f0>x)".to_owned() }];
    assert!(CompiledBlocks::compile(&blocks).is_err());
}

#[test]
fn line_not_matching_anchored_pattern_returns_none() {
    let compiled = CompiledBlocks::compile(&[token("a")]).unwrap();
    assert!(values(&compiled, "two tokens").is_none());
}

#[test]
fn invalid_regex_block_is_reported_as_error_not_panic() {
    let blocks = vec![token("a"), Block::Regex { pattern: "(unclosed".to_owned() }];
    assert!(matches!(CompiledBlocks::compile(&blocks), Err(EngineError::Regex(_))));
}

#[test]
fn compiled_pattern_is_anchored_and_escapes_literals() {
    let blocks = vec![token("a"), Block::Literal { text: " [x]".to_owned() }];
    let compiled = CompiledBlocks::compile(&blocks).unwrap();
    assert_eq!(compiled.pattern(), "^(?P<f0>[^ \\t]+) \\[x\\]$");
}

#[test]
fn block_without_fields_or_with_empty_name_is_refused() {
    let err = CompiledBlocks::compile(&[Block::Whitespace]).err().unwrap();
    assert_eq!(err.message(), "포맷 정의 오류: 필드가 하나도 없음");
    let err = CompiledBlocks::compile(&[token("")]).err().unwrap();
    assert!(matches!(err, EngineError::Format(_)));
    let err = CompiledBlocks::compile(&[token("f1")]).err().unwrap();
    assert!(matches!(err, EngineError::Format(_)));
}

#[test]
fn nesting_deeper_than_eight_is_a_limit_error() {
    let mut inner = vec![token("a")];
    for _ in 0..9 {
        inner = vec![Block::OptionalGroup { blocks: inner }];
    }
    let err = CompiledBlocks::compile(&inner).err().unwrap();
    assert!(matches!(err, EngineError::Limit(_)));
}

#[test]
fn presets_are_found_by_name_and_unknown_names_are_not() {
    assert_eq!(presets::by_name("combined").unwrap().name, "combined");
    assert_eq!(presets::by_name("w3c").unwrap().name, "iis_w3c");
    assert!(presets::by_name("nope").is_none());
    assert_eq!(presets::builtin().len(), 5);
}

#[test]
fn definition_hash_text_is_sixteen_hex_digits() {
    assert_eq!(weblog::model::fnv1a_hex(b""), "cbf29ce484222325");
    assert_eq!(weblog::model::fnv1a_hex(b"a"), "af63dc4c8601ec8c");
}

#[test]
fn every_builtin_preset_validates_cleanly() {
    for (name, profile) in presets::builtin() {
        assert!(profile.validate().is_empty(), "{name}");
        assert!(profile.ensure_valid().is_ok(), "{name}");
    }
}
