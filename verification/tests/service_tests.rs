use std::path::PathBuf;

use weblog::dto::{CaseInfo, ProfileSpec};
use weblog::error::EngineError;
use weblog::export::{check_export_target, export_finished, row_limit_reached, ExportSummary};
use weblog::importer::{
    apply_report, check_resumable, check_resumed_source, commit_report, job_status_after, require_sources, source_status_after,
    CommitReport, CommitTally, ImportConfig, Progress, RunEnd,
};
use weblog::library::{sort_by_name, StoredProfile};
use weblog::presets;
use weblog::store::{JobStatus, SourceVerification};
use weblog::service::{
    case_file_name, check_case_deletion, default_service_config, default_threads, export_gate, heavy_query_error,
    import_gate, import_overrides, is_case_extension, job_after_early_failure, preview_line_cap, progress_due,
    require_paths, resolve_loaded_profile, resolve_profile_step, sort_cases, store_busy_error, ProfileStep,
    ServiceError,
};

fn case(name: &str, modified: Option<i64>) -> CaseInfo {
    CaseInfo { path: format!("/cases/{name}.duckdb"), name: name.to_owned(), bytes: 1, modified_unix: modified, open: false }
}

#[test]
fn service_error_messages() {
    assert_eq!(ServiceError::NoProject.message(), "열린 프로젝트가 없음");
    assert_eq!(ServiceError::ImportRunning { job_id: 7 }.message(), "가져오기가 진행 중(작업 7)이라 지금은 할 수 없음");
    assert_eq!(ServiceError::ImportRunning { job_id: -3 }.message(), "가져오기가 진행 중(작업 -3)이라 지금은 할 수 없음");
    assert_eq!(ServiceError::NoImport.message(), "진행 중인 가져오기가 없음");
    assert_eq!(ServiceError::Invalid("x".to_owned()).message(), "잘못된 요청: x");
    assert_eq!(ServiceError::Engine(EngineError::Job("j".to_owned())).message(), "작업 오류: j");
}

#[test]
fn running_work_gates() {
    assert!(matches!(import_gate(None), Ok(false)));
    assert!(matches!(import_gate(Some((true, 4))), Ok(true)));
    assert!(matches!(import_gate(Some((false, 4))), Err(ServiceError::ImportRunning { job_id: 4 })));
    assert!(matches!(export_gate(None), Ok(false)));
    assert!(matches!(export_gate(Some(true)), Ok(true)));
    match export_gate(Some(false)) {
        Err(ServiceError::Invalid(m)) => assert_eq!(m, "내보내기가 이미 진행 중"),
        _ => panic!("a running export is refused"),
    }
    assert!(matches!(store_busy_error(Some(9)), ServiceError::ImportRunning { job_id: 9 }));
    assert!(matches!(store_busy_error(None), ServiceError::ImportRunning { job_id: 0 }));
}

#[test]
fn an_import_needs_files() {
    assert!(require_paths(2).is_ok());
    match require_paths(0) {
        Err(e) => assert_eq!(e.message(), "잘못된 요청: 파일이 선택되지 않음"),
        Ok(()) => panic!("no files is refused"),
    }
}

#[test]
fn batch_limits_are_kept_in_range() {
    let base = ImportConfig::default();
    let c = import_overrides(base.clone(), Some(10), Some(0));
    assert_eq!(c.batch_max_rows, 1_000);
    assert_eq!(c.batch_max_bytes, 1 << 20);
    let c = import_overrides(base.clone(), Some(5_000_000), Some(2 << 30));
    assert_eq!(c.batch_max_rows, 1_000_000);
    assert_eq!(c.batch_max_bytes, 1 << 30);
    let c = import_overrides(base.clone(), Some(20_000), None);
    assert_eq!(c.batch_max_rows, 20_000);
    assert_eq!(c.batch_max_bytes, base.batch_max_bytes);
    assert_eq!(c.max_line_bytes, base.max_line_bytes);
    let c = import_overrides(base.clone(), None, Some(4 << 20));
    assert_eq!(c.batch_max_rows, base.batch_max_rows);
    assert_eq!(c.batch_max_bytes, 4 << 20);
}

#[test]
fn preview_lines_are_kept_in_range() {
    assert_eq!(preview_line_cap(0), 1);
    assert_eq!(preview_line_cap(7), 7);
    assert_eq!(preview_line_cap(5000), 2000);
}

#[test]
fn case_file_names_count_attempts() {
    assert_eq!(case_file_name("access", "20240101-120000", 1), "access-20240101-120000.duckdb");
    assert_eq!(case_file_name("access", "20240101-120000", 2), "access-20240101-120000-2.duckdb");
    assert_eq!(case_file_name("case", "x", 13), "case-x-13.duckdb");
}

#[test]
fn only_case_stores_in_the_folder_may_be_deleted() {
    assert!(is_case_extension(Some("duckdb")));
    assert!(!is_case_extension(Some("wal")));
    assert!(!is_case_extension(None));
    assert!(check_case_deletion(true, Some("duckdb")).is_ok());
    for (inside, ext) in [(false, Some("duckdb")), (true, Some("txt")), (true, None)] {
        match check_case_deletion(inside, ext) {
            Err(ServiceError::Invalid(m)) => assert_eq!(m, "케이스 디렉터리 안의 .duckdb 파일만 지울 수 있음"),
            _ => panic!("refused"),
        }
    }
}

#[test]
fn cases_are_listed_latest_first_then_by_name() {
    let cases = vec![
        case("b", Some(10)),
        case("old", Some(1)),
        case("unknown", None),
        case("a", Some(10)),
        case("new", Some(99)),
        case("B", Some(10)),
    ];
    let sorted = sort_cases(cases);
    let names: Vec<&str> = sorted.iter().map(|c| c.name.as_str()).collect();
    assert_eq!(names, vec!["new", "B", "a", "b", "old", "unknown"]);
    assert!(sort_cases(Vec::new()).is_empty());
}

#[test]
fn user_presets_are_listed_by_name() {
    let p = presets::by_name("common").unwrap();
    let stored = |n: &str| StoredProfile { name: n.to_owned(), path: PathBuf::from(format!("{n}.yaml")), profile: p.clone() };
    let sorted = sort_by_name(vec![stored("zeta"), stored("alpha"), stored("Alpha"), stored("al"), stored("beta")]);
    let names: Vec<&str> = sorted.iter().map(|s| s.name.as_str()).collect();
    assert_eq!(names, vec!["Alpha", "al", "alpha", "beta", "zeta"]);
}

#[test]
fn profiles_resolve_builtin_first_then_user() {
    let preset = ProfileSpec::Preset { name: "combined".to_owned() };
    match resolve_profile_step(&preset, true) {
        ProfileStep::Ready(p) => assert_eq!(p.name, "combined"),
        _ => panic!("a built-in preset is ready"),
    }
    let user = ProfileSpec::Preset { name: "mine".to_owned() };
    match resolve_profile_step(&user, true) {
        ProfileStep::LoadUser(n) => assert_eq!(n, "mine"),
        _ => panic!("an unknown name is looked up among the user presets"),
    }
    match resolve_profile_step(&user, false) {
        ProfileStep::Failed(e) => assert_eq!(e.message(), "잘못된 요청: 알 수 없는 프로필 mine"),
        _ => panic!("without a user folder an unknown name fails"),
    }
    let mut bad = presets::by_name("common").unwrap();
    bad.name = String::new();
    match resolve_profile_step(&ProfileSpec::Definition { profile: bad }, true) {
        ProfileStep::Failed(ServiceError::Engine(EngineError::Format(_))) => {}
        _ => panic!("an invalid definition fails"),
    }
    let good = presets::by_name("iis_w3c").unwrap();
    match resolve_profile_step(&ProfileSpec::Definition { profile: good }, false) {
        ProfileStep::Ready(p) => assert_eq!(p.name, "iis_w3c"),
        _ => panic!("a valid definition is ready"),
    }
}

#[test]
fn loaded_user_presets_finish_resolution() {
    let p = presets::by_name("common").unwrap();
    assert_eq!(resolve_loaded_profile("mine", Ok(Some(p))).unwrap().name, "common");
    match resolve_loaded_profile("mine", Ok(None)) {
        Err(e) => assert_eq!(e.message(), "잘못된 요청: 알 수 없는 프로필 mine"),
        Ok(_) => panic!("missing"),
    }
    match resolve_loaded_profile("mine", Err(EngineError::Io("x".to_owned()))) {
        Err(ServiceError::Engine(EngineError::Io(m))) => assert_eq!(m, "x"),
        _ => panic!("the read error passes through"),
    }
}

#[test]
fn stopped_heavy_queries_say_so() {
    let stopped = heavy_query_error(ServiceError::Engine(EngineError::Store("INTERRUPT Error: Interrupted!".to_owned())));
    assert_eq!(stopped.message(), "잘못된 요청: 조회를 중단했습니다");
    let other = heavy_query_error(ServiceError::Engine(EngineError::Store("Catalog Error".to_owned())));
    assert_eq!(other.message(), "저장소 오류: Catalog Error");
    assert!(matches!(heavy_query_error(ServiceError::NoProject), ServiceError::NoProject));
}

#[test]
fn an_early_failure_reports_the_created_job() {
    let failure = EngineError::Job("입력 파일이 없음".to_owned());
    assert!(matches!(job_after_early_failure(&failure, Some(11), Ok(Some(12))), Ok(12)));
    assert!(matches!(job_after_early_failure(&failure, None, Ok(Some(1))), Ok(1)));
    match job_after_early_failure(&failure, Some(12), Ok(Some(12))) {
        Err(ServiceError::Invalid(m)) => assert_eq!(m, "작업 오류: 입력 파일이 없음"),
        _ => panic!("an earlier job is not this run's"),
    }
    match job_after_early_failure(&failure, None, Ok(None)) {
        Err(ServiceError::Invalid(m)) => assert_eq!(m, "작업 오류: 입력 파일이 없음"),
        _ => panic!("no job: the failure"),
    }
    assert!(job_after_early_failure(&failure, None, Err(EngineError::Store("x".to_owned()))).is_err());
}

#[test]
fn progress_events_are_spaced() {
    assert!(progress_due(None, 250));
    assert!(!progress_due(Some(100), 250));
    assert!(progress_due(Some(250), 250));
}

#[test]
fn default_settings() {
    assert_eq!(default_threads(1), 2);
    assert_eq!(default_threads(3), 2);
    assert_eq!(default_threads(8), 4);
    let c = default_service_config(16);
    assert_eq!(c.store.memory_limit.as_deref(), Some("1GB"));
    assert_eq!(c.store.threads, Some(8));
    assert_eq!(c.readers, 2);
    assert_eq!(c.progress_interval, std::time::Duration::from_millis(250));
    assert!(c.profiles_dir.is_none() && c.cases_dir.is_none());
    assert_eq!(c.import.batch_max_rows, 100_000);
}

#[test]
fn jobs_finish_in_the_state_their_files_left() {
    assert_eq!(job_status_after(RunEnd::Finished, 0), JobStatus::Completed);
    assert_eq!(job_status_after(RunEnd::Finished, 3), JobStatus::CompletedWithErrors);
    assert_eq!(job_status_after(RunEnd::Cancelled, 3), JobStatus::Cancelled);
    assert_eq!(job_status_after(RunEnd::Failed, 0), JobStatus::Failed);
    assert_eq!(source_status_after(true), "cancelled");
    assert_eq!(source_status_after(false), "done");
}

#[test]
fn a_changed_file_stops_its_resume() {
    let ok = SourceVerification { source_id: 3, path: "a.log".to_owned(), matches: true, reason: None, full_checked: false };
    assert!(check_resumed_source(&ok).is_ok());
    let changed = SourceVerification { matches: false, reason: Some("크기 다름".to_owned()), ..ok.clone() };
    match check_resumed_source(&changed) {
        Err(EngineError::SourceChanged { source_id, reason }) => {
            assert_eq!(source_id, 3);
            assert_eq!(reason, "크기 다름");
        }
        _ => panic!("a changed file is refused"),
    }
    let unexplained = SourceVerification { matches: false, reason: None, ..ok };
    match check_resumed_source(&unexplained) {
        Err(e) => assert_eq!(e.message(), "입력 파일 변경 감지(source 3): 불일치"),
        Ok(()) => panic!("refused"),
    }
}

#[test]
fn export_targets_and_row_limits() {
    match check_export_target(true, false) {
        Err(e) => assert_eq!(e.message(), "조회 요청 오류: 출력 경로가 비었음"),
        Ok(()) => panic!("an empty path is refused"),
    }
    match check_export_target(false, true) {
        Err(e) => assert_eq!(e.message(), "조회 요청 오류: 출력 폴더가 없음"),
        Ok(()) => panic!("a missing folder is refused"),
    }
    assert!(check_export_target(false, false).is_ok());
    assert!(!row_limit_reached(None, 1_000_000));
    assert!(!row_limit_reached(Some(5), 4));
    assert!(row_limit_reached(Some(5), 5));
    assert!(row_limit_reached(Some(0), 0));
}

#[test]
fn only_stopped_jobs_resume_and_imports_need_files() {
    assert!(check_resumable(4, JobStatus::Interrupted).is_ok());
    assert!(check_resumable(4, JobStatus::Cancelled).is_ok());
    assert!(check_resumable(4, JobStatus::Failed).is_ok());
    match check_resumable(4, JobStatus::Completed) {
        Err(e) => assert_eq!(e.message(), "작업 오류: 작업 4은 completed 상태라 재개할 수 없음"),
        Ok(()) => panic!("a completed job is not resumed"),
    }
    assert!(check_resumable(4, JobStatus::Running).is_err());
    assert!(require_sources(1).is_ok());
    match require_sources(0) {
        Err(e) => assert_eq!(e.message(), "작업 오류: 입력 파일이 없음"),
        Ok(()) => panic!("no files is refused"),
    }
}

#[test]
fn commit_reports_move_progress_and_count_fresh_batches() {
    let p = Progress { job_id: 1, source_id: 2, lines_read: 0, committed_records: 10, committed_batches: 1 };
    let fresh = CommitReport { source_id: 3, end_line: 120, records: 100, errors: 5, skipped: 15, fresh: true };
    let (p2, t2) = apply_report(p, CommitTally::default(), fresh);
    assert_eq!((p2.job_id, p2.source_id, p2.lines_read), (1, 3, 120));
    assert_eq!((p2.committed_records, p2.committed_batches), (110, 2));
    assert_eq!(t2, CommitTally { records: 100, errors: 5, skipped: 15, batches: 1 });
    let retry = CommitReport { fresh: false, end_line: 240, ..fresh };
    let (p3, t3) = apply_report(p2, t2, retry);
    assert_eq!(p3.lines_read, 240);
    assert_eq!((p3.committed_records, p3.committed_batches), (110, 2));
    assert_eq!(t3, t2);
    let huge = CommitReport { records: u64::MAX, ..fresh };
    let (p4, _) = apply_report(p3, t3, huge);
    assert_eq!(p4.committed_records, u64::MAX);
}

#[test]
fn a_commit_report_describes_its_batch() {
    let mut b = weblog::batch::new_batch(1, 7, 0, 0, 1);
    b.end_line = 9;
    b.skipped_count = 2;
    let r = commit_report(&b, true);
    assert_eq!(r, CommitReport { source_id: 7, end_line: 9, records: 0, errors: 0, skipped: 2, fresh: true });
    assert!(!commit_report(&b, false).fresh);
}

#[test]
fn export_ending_carries_summary_or_error_text() {
    let summary = ExportSummary {
        out_path: "out.csv".to_owned(),
        rows: 3,
        bytes: 120,
        elapsed_micros: 1_500,
        max_batch_id: 7,
        cancelled: true,
        truncated: false,
    };
    let done = export_finished("out.csv".to_owned(), Ok(summary));
    assert_eq!(done.out_path, "out.csv");
    assert!(done.error.is_none());
    let s = done.summary.expect("summary");
    assert_eq!((s.rows, s.bytes, s.max_batch_id, s.cancelled, s.truncated), (3, 120, 7, true, false));

    let failed = export_finished("x.csv".to_owned(), Err(EngineError::Query("출력 폴더가 없음".to_owned())));
    assert!(failed.summary.is_none());
    assert_eq!(failed.error.as_deref(), Some(EngineError::Query("출력 폴더가 없음".to_owned()).message().as_str()));
}
