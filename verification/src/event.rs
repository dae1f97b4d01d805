//! The data that travels through a pipeline run: planned jobs, the outcome
//! of each acquisition, and the events that report progress.

use vstd::prelude::*;
use vstd::string::*;

verus! {

/// Where a cask's asset is found.
#[derive(Clone, Debug, PartialEq, Eq)]
pub enum UrlField {
    /// A bare address.
    Simple(String),
    /// An address that comes with further download metadata.
    WithSpec { url: String },
}

/// What is known of a formula's sources.
#[derive(Clone, Debug, PartialEq, Eq)]
pub struct Formula {
    /// The address of the source archive.
    pub url: String,
    /// The address of the prebuilt artifact for this platform, if there is
    /// one.
    pub bottle_url: Option<String>,
}

/// What is known of a cask's sources.
#[derive(Clone, Debug, PartialEq, Eq)]
pub struct Cask {
    pub url: Option<UrlField>,
}

/// The kinds of target, each with its own download metadata.
#[derive(Clone, Debug, PartialEq, Eq)]
pub enum InstallTarget {
    Formula(Formula),
    Cask(Cask),
}

/// One unit of acquisition work.
#[derive(Clone, Debug, PartialEq, Eq)]
pub struct PlannedJob {
    /// The job's name, unique within a run.
    pub target_id: String,
    pub target_definition: InstallTarget,
    /// Whether the target is built from source rather than fetched prebuilt.
    pub is_source_build: bool,
    /// The path of an artifact that is already at hand; with it no fetch is
    /// made.
    pub use_private_store_source: Option<String>,
}

/// Why an acquisition, or the coordination itself, failed.
#[derive(Clone, Debug, PartialEq, Eq)]
pub enum PipelineError {
    /// A failure found by the pipeline itself.
    Generic(String),
    /// A failure reported by a fetch operation.
    Fetch(String),
}

impl PipelineError {
    /// The text of the error.
    pub open spec fn text(self) -> Seq<char> {
        match self {
            PipelineError::Generic(message) => message@,
            PipelineError::Fetch(message) => message@,
        }
    }

    /// The text of the error, as events carry it.
    pub fn message(&self) -> (message: String)
        ensures
            message@ == self.text(),
    {
        match self {
            PipelineError::Generic(message) => message.clone(),
            PipelineError::Fetch(message) => message.clone(),
        }
    }
}

/// A job together with the path of its artifact, or the reason why there is
/// none.
#[derive(Debug, PartialEq, Eq)]
pub struct DownloadOutcome {
    pub planned_job: PlannedJob,
    pub result: Result<String, PipelineError>,
}

/// The kind of package a job was run for.
#[derive(Clone, Copy, Debug, PartialEq, Eq)]
pub enum PipelinePackageType {
    Formula,
    Cask,
}

/// What a successful job did.
#[derive(Clone, Copy, Debug, PartialEq, Eq)]
pub enum JobAction {
    Install,
    Upgrade,
    Reinstall,
}

/// A span of time in seconds, held as whole milliseconds.
#[derive(Clone, Copy, Debug, PartialEq, Eq)]
pub struct Seconds {
    pub millis: u64,
}

/// One state transition in the life of a pipeline run.
#[derive(Clone, Debug, PartialEq, Eq)]
pub enum PipelineEvent {
    PipelineStarted { total_jobs: usize },
    PlanningStarted,
    PlanningFinished { job_count: usize },
    DependencyResolutionStarted,
    DependencyResolutionFinished,
    DownloadStarted { target_id: String, url: String },
    DownloadProgressUpdate { target_id: String, bytes_so_far: u64, total_size: Option<u64> },
    DownloadFinished { target_id: String, path: String, size_bytes: u64 },
    DownloadCached { target_id: String, size_bytes: u64 },
    DownloadFailed { target_id: String, url: String, error: String },
    JobProcessingStarted { target_id: String },
    BuildStarted { target_id: String },
    InstallStarted { target_id: String },
    LinkStarted { target_id: String },
    JobSuccess { target_id: String, action: JobAction, pkg_type: PipelinePackageType },
    JobFailed { target_id: String, error: String },
    LogInfo { message: String },
    LogWarn { message: String },
    LogError { message: String },
    PipelineFinished { duration_secs: Seconds, success_count: usize, fail_count: usize },
}

impl PipelineEvent {
    /// The event that reports a failed acquisition with the text of its
    /// error.
    pub fn download_failed(target_id: String, url: String, error: &PipelineError) -> (event:
        PipelineEvent)
        ensures
            event matches PipelineEvent::DownloadFailed { target_id: t, url: u, error: e }
                && t@ == target_id@ && u@ == url@ && e@ == error.text(),
    {
        PipelineEvent::DownloadFailed { target_id, url, error: error.message() }
    }
}

} // verus!
