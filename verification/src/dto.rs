//! Types at the boundary with the screen. Their field names are those the screen sees.

use vstd::prelude::*;

use crate::model::FormatProfile;
use crate::query::LogDetail;
use crate::store::{JobInfo, JobSource, LogKind};
use crate::validate::ValidationIssue;

verus! {

/// The open project.
#[derive(Debug, Clone)]
pub struct ProjectInfo {
    /// Store path.
    pub db_path: String,
    /// Store file size.
    pub db_file_bytes: u64,
    /// Jobs marked interrupted when the project was opened.
    pub interrupted_jobs: Vec<i64>,
    /// Jobs.
    pub jobs: Vec<JobInfo>,
}

/// A case (project store) on disk.
#[derive(Debug, Clone)]
pub struct CaseInfo {
    /// Path.
    pub path: String,
    /// Name.
    pub name: String,
    /// Size.
    pub bytes: u64,
    /// Modification time (Unix seconds).
    pub modified_unix: Option<i64>,
    /// Whether it is the open case.
    pub open: bool,
}

/// A discovery request.
#[derive(Debug, Clone)]
pub struct ScanRequest {
    /// Root.
    pub root: std::path::PathBuf,
    /// Descend into subdirectories.
    pub recursive: bool,
    /// Deepest depth.
    pub max_depth: Option<usize>,
    /// File name patterns a file must match.
    pub included: Vec<String>,
    /// File name patterns that leave a file out.
    pub exclude: Vec<String>,
    /// Detect formats of the files found.
    pub detect: bool,
    /// Lines sampled per file for detection.
    pub sample_lines: u64,
}

/// The sample size of a request that does not name one.
pub fn default_sample_lines() -> (r: u64)
    ensures
        r == 200,
{
    200
}

/// A discovery problem.
#[derive(Debug, Clone)]
pub struct ScanIssue {
    /// Path.
    pub path: String,
    /// Message.
    pub message: String,
}

/// A profile named by preset or given in full.
#[derive(Debug, Clone)]
pub enum ProfileSpec {
    /// A built-in preset.
    Preset {
        /// Preset name.
        name: String,
    },
    /// A full definition.
    Definition {
        /// The profile.
        profile: FormatProfile,
    },
}

/// A preview request.
#[derive(Debug, Clone)]
pub struct PreviewRequest {
    /// File.
    pub path: std::path::PathBuf,
    /// Profile.
    pub profile: ProfileSpec,
    /// Most lines.
    pub max_lines: u64,
}

/// A raw sample line (shown only on request).
#[derive(Debug, Clone)]
pub struct SampleLine {
    /// Line number.
    pub line_number: u64,
    /// Text; `None` when the line is not UTF-8 or too long.
    pub text: Option<String>,
}

/// Raw sample lines.
#[derive(Debug, Clone)]
pub struct SampleLines {
    /// Lines.
    pub lines: Vec<SampleLine>,
    /// Whether the sample stopped at its limit.
    pub truncated: bool,
}

/// A request to start an import.
#[derive(Debug, Clone)]
pub struct StartImportRequest {
    /// Profile.
    pub profile: ProfileSpec,
    /// Files.
    pub paths: Vec<std::path::PathBuf>,
    /// The job a re-parse replaces.
    pub replaces_job_id: Option<i64>,
    /// Log kind.
    pub log_kind: LogKind,
    /// Batch line limit, if not the default.
    pub batch_max_rows: Option<usize>,
    /// Batch byte limit, if not the default.
    pub batch_max_bytes: Option<usize>,
}

/// A job and its files.
#[derive(Debug, Clone)]
pub struct JobView {
    /// Job.
    pub job: JobInfo,
    /// Files.
    pub sources: Vec<JobSource>,
}

/// A record's detail and its reconstruction.
#[derive(Debug, Clone)]
pub struct DetailView {
    /// Detail.
    pub detail: LogDetail,
    /// Reconstructed text.
    pub reconstructed: String,
    /// Always true.
    pub is_reconstruction: bool,
    /// Template used.
    pub template: String,
    /// Whether the reconstruction is complete.
    pub complete: bool,
    /// Profile name.
    pub profile_name: String,
    /// Profile version.
    pub profile_version: u32,
    /// Extension fields.
    pub extra: Vec<(String, String)>,
}

/// A built-in preset.
#[derive(Debug, Clone)]
pub struct PresetView {
    /// Name.
    pub name: String,
    /// Definition.
    pub profile: FormatProfile,
}

/// A profile as listed.
#[derive(Debug, Clone)]
pub struct ProfileView {
    /// Name.
    pub name: String,
    /// `builtin` or `user`.
    pub source: String,
    /// Definition.
    pub profile: FormatProfile,
    /// YAML text.
    pub yaml: String,
    /// File path of a user preset.
    pub path: Option<String>,
}

/// The profile list.
#[derive(Debug, Clone)]
pub struct ProfileListView {
    /// Profiles.
    pub profiles: Vec<ProfileView>,
    /// Files that could not be read.
    pub errors: Vec<ScanIssue>,
    /// User preset directory.
    pub user_dir: Option<String>,
}

/// The outcome of checking a definition.
#[derive(Debug, Clone)]
pub struct ValidationView {
    /// Problems.
    pub issues: Vec<ValidationIssue>,
    /// Definition hash when valid.
    pub definition_hash: Option<String>,
    /// YAML text when valid.
    pub yaml: Option<String>,
}

} // verus!
