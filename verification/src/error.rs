//! The engine's error type. Messages never hold input log text.

use vstd::prelude::*;

use crate::text::{chars_to_string, decimal, push_decimal, push_signed_decimal, push_str, signed_decimal};

verus! {

/// Engine-wide error. Errors of outside code are carried as their message text.
#[derive(Debug, PartialEq, Eq)]
pub enum EngineError {
    /// File open or read failure.
    Io(String),
    /// The format definition is invalid.
    Format(String),
    /// The regular expression made from a format definition did not compile.
    Regex(String),
    /// Store (database) failure.
    Store(String),
    /// The store's schema version does not match the engine's.
    SchemaVersion {
        /// Version recorded in the store.
        found: i64,
        /// Version the engine expects.
        expected: i64,
    },
    /// Job state transition or identification error.
    Job(String),
    /// A query request breaks its contract.
    Query(String),
    /// Too many errors in one batch; the job stops instead of dropping them.
    ErrorLimit {
        /// Errors that occurred.
        count: usize,
        /// Allowed limit.
        limit: usize,
    },
    /// A size or count limit was exceeded.
    Limit(String),
    /// The input file differs from its registration (size, modification time, hash).
    SourceChanged {
        /// Source ID.
        source_id: i64,
        /// What differs (no input content).
        reason: String,
    },
    /// Serialization failure.
    Serde(String),
}

/// Engine result type.
pub type EngineResult<T> = Result<T, EngineError>;

/// The display text of an error.
pub open spec fn error_text(e: EngineError) -> Seq<char> {
    match e {
        EngineError::Io(s) => "I/O 오류: "@ + s@,
        EngineError::Format(s) => "포맷 정의 오류: "@ + s@,
        EngineError::Regex(s) => "정규식 컴파일 실패: "@ + s@,
        EngineError::Store(s) => "저장소 오류: "@ + s@,
        EngineError::SchemaVersion { found, expected } => "스키마 버전 불일치: 저장소 "@
            + signed_decimal(found as int) + ", 엔진 "@ + signed_decimal(expected as int),
        EngineError::Job(s) => "작업 오류: "@ + s@,
        EngineError::Query(s) => "조회 요청 오류: "@ + s@,
        EngineError::ErrorLimit { count, limit } => "오류 저장 한도 초과: 배치 오류 "@
            + decimal(count as nat) + "건이 한도 "@ + decimal(limit as nat) + "건을 넘음"@,
        EngineError::Limit(s) => "한도 초과: "@ + s@,
        EngineError::SourceChanged { source_id, reason } => "입력 파일 변경 감지(source "@
            + signed_decimal(source_id as int) + "): "@ + reason@,
        EngineError::Serde(s) => "직렬화 오류: "@ + s@,
    }
}

impl EngineError {
    /// The display text of this error.
    pub fn message(&self) -> (r: String)
        ensures
            r@ == error_text(*self),
    {
        let mut v: Vec<char> = Vec::new();
        match self {
            EngineError::Io(s) => {
                push_str(&mut v, "I/O 오류: ");
                push_str(&mut v, s.as_str());
            },
            EngineError::Format(s) => {
                push_str(&mut v, "포맷 정의 오류: ");
                push_str(&mut v, s.as_str());
            },
            EngineError::Regex(s) => {
                push_str(&mut v, "정규식 컴파일 실패: ");
                push_str(&mut v, s.as_str());
            },
            EngineError::Store(s) => {
                push_str(&mut v, "저장소 오류: ");
                push_str(&mut v, s.as_str());
            },
            EngineError::SchemaVersion { found, expected } => {
                push_str(&mut v, "스키마 버전 불일치: 저장소 ");
                push_signed_decimal(&mut v, *found);
                push_str(&mut v, ", 엔진 ");
                push_signed_decimal(&mut v, *expected);
            },
            EngineError::Job(s) => {
                push_str(&mut v, "작업 오류: ");
                push_str(&mut v, s.as_str());
            },
            EngineError::Query(s) => {
                push_str(&mut v, "조회 요청 오류: ");
                push_str(&mut v, s.as_str());
            },
            EngineError::ErrorLimit { count, limit } => {
                push_str(&mut v, "오류 저장 한도 초과: 배치 오류 ");
                push_decimal(&mut v, *count as u64);
                push_str(&mut v, "건이 한도 ");
                push_decimal(&mut v, *limit as u64);
                push_str(&mut v, "건을 넘음");
            },
            EngineError::Limit(s) => {
                push_str(&mut v, "한도 초과: ");
                push_str(&mut v, s.as_str());
            },
            EngineError::SourceChanged { source_id, reason } => {
                push_str(&mut v, "입력 파일 변경 감지(source ");
                push_signed_decimal(&mut v, *source_id);
                push_str(&mut v, "): ");
                push_str(&mut v, reason.as_str());
            },
            EngineError::Serde(s) => {
                push_str(&mut v, "직렬화 오류: ");
                push_str(&mut v, s.as_str());
            },
        }
        chars_to_string(&v)
    }
}

} // verus!
