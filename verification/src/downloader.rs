//! The decisions of the download coordinator: what the task of one job does
//! first, what it reports when its fetch has ended, and what the coordinator
//! hands back once every task has been joined.

use crate::event::{
    DownloadOutcome, InstallTarget, PipelineError, PipelineEvent, PlannedJob, UrlField,
};
use vstd::prelude::*;
use vstd::string::*;

verus! {

/// The fetch operation that a job calls for.
#[derive(Clone, Copy, Debug, PartialEq, Eq)]
pub enum FetchKind {
    /// The source archive of a formula.
    Source,
    /// The prebuilt artifact of a formula.
    Bottle,
    /// The asset of a cask.
    Cask,
}

/// What a fetch operation hands back when it succeeds.
#[derive(Debug, PartialEq, Eq)]
pub struct Fetched {
    /// Where the artifact lies.
    pub path: String,
    /// Whether it was there already and nothing was transferred.
    pub was_cached: bool,
}

/// What the task of one job does first.
#[derive(Debug, PartialEq, Eq)]
pub enum Start {
    /// The artifact is at hand: the outcome is sent, and no event.
    Reuse { outcome: DownloadOutcome },
    /// The job has no usable source: the event is sent, then the outcome;
    /// nothing is fetched.
    Reject { event: PipelineEvent, outcome: DownloadOutcome },
    /// The event is sent, then the artifact is fetched from `url` by the
    /// operation of this kind.
    Fetch { event: PipelineEvent, kind: FetchKind, url: String, job: PlannedJob },
}

/// What the task of one job does when its fetch has ended: the event is
/// sent, then the outcome.
#[derive(Debug, PartialEq, Eq)]
pub struct Finish {
    pub event: PipelineEvent,
    pub outcome: DownloadOutcome,
}

/// How the task of one job ended.
#[derive(Debug, PartialEq, Eq)]
pub enum TaskEnd {
    /// The outcome went to the next stage.
    Delivered,
    /// The outcome could not be sent: the next stage is gone.
    Undelivered,
    /// The task panicked, with this message, before it had an outcome.
    Panicked(String),
}

/// The address that stands for a cask without one.
pub open spec fn no_cask_url() -> Seq<char> {
    "N/A (No Cask URL)"@
}

/// The address that a job is fetched from, as events show it: the source
/// archive for a formula built from source; for any other formula the
/// prebuilt artifact of this platform, or the source archive where there is
/// none; for a cask its address, or a fixed mark where it has none.
pub open spec fn source_url(job: PlannedJob) -> Seq<char> {
    match job.target_definition {
        InstallTarget::Formula(formula) => if !job.is_source_build && formula.bottle_url is Some {
            formula.bottle_url->0@
        } else {
            formula.url@
        },
        InstallTarget::Cask(cask) => match cask.url {
            Some(UrlField::Simple(url)) => url@,
            Some(UrlField::WithSpec { url }) => url@,
            None => no_cask_url(),
        },
    }
}

/// Whether nothing can be fetched from the address: it is the mark of a
/// cask without address, or it is empty and the job is no build from source.
pub open spec fn is_unusable(url: Seq<char>, is_source_build: bool) -> bool {
    url == no_cask_url() || (url.len() == 0 && !is_source_build)
}

/// The fetch operation that a job calls for.
pub open spec fn fetch_kind_of(job: PlannedJob) -> FetchKind {
    match job.target_definition {
        InstallTarget::Formula(_) => if job.is_source_build {
            FetchKind::Source
        } else {
            FetchKind::Bottle
        },
        InstallTarget::Cask(_) => FetchKind::Cask,
    }
}

/// The text of the error of a job without usable source.
pub open spec fn missing_url_text(target_id: Seq<char>) -> Seq<char> {
    "Download URL is missing or invalid for job "@ + target_id
}

/// The label under which a panic is handed back: the job of a task that
/// panicked is not known.
pub open spec fn panic_label() -> Seq<char> {
    "[UnknownDownloadTaskPanic]"@
}

/// The text of the error that stands for a panic.
pub open spec fn panic_text(message: Seq<char>) -> Seq<char> {
    "A download task panicked: "@ + message
}

/// What the first step of a job's task is, see [`begin`].
pub open spec fn is_start_of(job: PlannedJob, start: Start) -> bool {
    if job.use_private_store_source is Some {
        &&& start matches Start::Reuse { outcome }
        &&& outcome.planned_job == job
        &&& outcome.result matches Ok(path)
        &&& path@ == job.use_private_store_source->0@
    } else if is_unusable(source_url(job), job.is_source_build) {
        &&& start matches Start::Reject { event, outcome }
        &&& event matches PipelineEvent::DownloadFailed { target_id, url, error }
        &&& target_id@ == job.target_id@
        &&& url@ == source_url(job)
        &&& error@ == missing_url_text(job.target_id@)
        &&& outcome.planned_job == job
        &&& outcome.result matches Err(PipelineError::Generic(message))
        &&& message@ == missing_url_text(job.target_id@)
    } else {
        &&& start matches Start::Fetch { event, kind, url, job: kept }
        &&& event matches PipelineEvent::DownloadStarted { target_id, url: shown }
        &&& target_id@ == job.target_id@
        &&& shown@ == source_url(job)
        &&& kind == fetch_kind_of(job)
        &&& url@ == source_url(job)
        &&& kept == job
    }
}

/// The address that a job is fetched from, see [`source_url`].
pub fn display_url(job: &PlannedJob) -> (url: String)
    ensures
        url@ == source_url(*job),
{
    match &job.target_definition {
        InstallTarget::Formula(formula) => {
            if !job.is_source_build {
                match &formula.bottle_url {
                    Some(url) => url.clone(),
                    None => formula.url.clone(),
                }
            } else {
                formula.url.clone()
            }
        },
        InstallTarget::Cask(cask) => match &cask.url {
            Some(UrlField::Simple(url)) => url.clone(),
            Some(UrlField::WithSpec { url }) => url.clone(),
            None => String::from_str("N/A (No Cask URL)"),
        },
    }
}

/// The fetch operation that a job calls for, see [`fetch_kind_of`].
pub fn fetch_kind(job: &PlannedJob) -> (kind: FetchKind)
    ensures
        kind == fetch_kind_of(*job),
{
    match &job.target_definition {
        InstallTarget::Formula(_) => if job.is_source_build {
            FetchKind::Source
        } else {
            FetchKind::Bottle
        },
        InstallTarget::Cask(_) => FetchKind::Cask,
    }
}

/// The first step of the task of one job.
///
/// A job that carries the path of an artifact at hand resolves to that path
/// at once, with no event. A job without usable source fails at once, with
/// one event that tells so. Any other job announces its download and calls
/// for the fetch operation of its kind.
pub fn begin(job: PlannedJob) -> (start: Start)
    ensures
        is_start_of(job, start),
{
    let private: Option<String> = match &job.use_private_store_source {
        Some(path) => Some(path.clone()),
        None => None,
    };
    if let Some(path) = private {
        return Start::Reuse { outcome: DownloadOutcome { planned_job: job, result: Ok(path) } };
    }
    let url: String = display_url(&job);
    let mark: String = String::from_str("N/A (No Cask URL)");
    if url == mark || (url.as_str().is_empty() && !job.is_source_build) {
        let mut message: String = String::from_str("Download URL is missing or invalid for job ");
        message.append(job.target_id.as_str());
        let error = PipelineError::Generic(message);
        let event = PipelineEvent::download_failed(job.target_id.clone(), url, &error);
        Start::Reject { event, outcome: DownloadOutcome { planned_job: job, result: Err(error) } }
    } else {
        let event = PipelineEvent::DownloadStarted {
            target_id: job.target_id.clone(),
            url: url.clone(),
        };
        let kind: FetchKind = fetch_kind(&job);
        Start::Fetch { event, kind, url, job }
    }
}

/// The event that reports how far a fetch has come.
pub fn progress_event(target_id: &str, bytes_so_far: u64, total_size: Option<u64>) -> (event:
    PipelineEvent)
    ensures
        event matches PipelineEvent::DownloadProgressUpdate {
            target_id: id,
            bytes_so_far: bytes,
            total_size: total,
        } && id@ == target_id@ && bytes == bytes_so_far && total == total_size,
{
    PipelineEvent::DownloadProgressUpdate {
        target_id: target_id.to_owned(),
        bytes_so_far,
        total_size,
    }
}

/// What a fetch of this kind has brought. Only the fetch of a prebuilt
/// artifact tells whether it found the artifact in the cache; a source
/// archive and the asset of a cask always count as transferred, whatever is
/// reported with them.
pub fn fetched(kind: FetchKind, path: String, cache_report: Option<bool>) -> (artifact: Fetched)
    ensures
        artifact.path == path,
        artifact.was_cached == (kind is Bottle && cache_report == Some(true)),
{
    let was_cached: bool = match kind {
        FetchKind::Bottle => match cache_report {
            Some(hit) => hit,
            None => false,
        },
        _ => false,
    };
    Fetched { path, was_cached }
}

/// What the last step of a job's task is, see [`finish`].
pub open spec fn is_finish_of(
    job: PlannedJob,
    url: Seq<char>,
    fetched: Result<Fetched, PipelineError>,
    size: Option<u64>,
    finish: Finish,
) -> bool {
    &&& finish.outcome.planned_job == job
    &&& match fetched {
        Ok(artifact) => {
            let size_bytes = match size {
                Some(bytes) => bytes,
                None => 0,
            };
            &&& finish.outcome.result matches Ok(path)
            &&& path@ == artifact.path@
            &&& if artifact.was_cached {
                &&& finish.event matches PipelineEvent::DownloadCached { target_id, size_bytes: told }
                &&& target_id@ == job.target_id@
                &&& told == size_bytes
            } else {
                &&& finish.event matches PipelineEvent::DownloadFinished {
                    target_id,
                    path: at,
                    size_bytes: told,
                }
                &&& target_id@ == job.target_id@
                &&& at@ == artifact.path@
                &&& told == size_bytes
            }
        },
        Err(error) => {
            &&& finish.outcome.result == Err::<String, PipelineError>(error)
            &&& finish.event matches PipelineEvent::DownloadFailed { target_id, url: tried, error: text }
            &&& target_id@ == job.target_id@
            &&& tried@ == url
            &&& text@ == error.text()
        },
    }
}

/// The last step of the task of one job, once its fetch from `url` has
/// ended with `fetched`. `size` is the size of the artifact on disk, where
/// it could be read.
///
/// An artifact that was fetched or found in the cache resolves the job to
/// its path; the event tells which of the two it was, and the size of the
/// artifact, zero where it could not be read. A fetch that failed fails the
/// job with its error, and the event tells the address and the error.
pub fn finish(
    job: PlannedJob,
    url: String,
    fetched: Result<Fetched, PipelineError>,
    size: Option<u64>,
) -> (finish: Finish)
    ensures
        is_finish_of(job, url@, fetched, size, finish),
{
    let target_id: String = job.target_id.clone();
    match fetched {
        Ok(artifact) => {
            let size_bytes: u64 = match size {
                Some(bytes) => bytes,
                None => 0,
            };
            let event = if artifact.was_cached {
                PipelineEvent::DownloadCached { target_id, size_bytes }
            } else {
                PipelineEvent::DownloadFinished {
                    target_id,
                    path: artifact.path.clone(),
                    size_bytes,
                }
            };
            Finish { event, outcome: DownloadOutcome { planned_job: job, result: Ok(artifact.path) } }
        },
        Err(error) => {
            let event = PipelineEvent::download_failed(target_id, url, &error);
            Finish { event, outcome: DownloadOutcome { planned_job: job, result: Err(error) } }
        },
    }
}

/// How many of the tasks panicked.
pub open spec fn panics(ends: Seq<TaskEnd>) -> nat
    decreases ends.len(),
{
    if ends.len() == 0 {
        0
    } else {
        panics(ends.drop_last()) + if ends.last() is Panicked {
            1nat
        } else {
            0nat
        }
    }
}

/// How many of the tasks sent their outcome to the next stage.
pub open spec fn deliveries(ends: Seq<TaskEnd>) -> nat
    decreases ends.len(),
{
    if ends.len() == 0 {
        0
    } else {
        deliveries(ends.drop_last()) + if ends.last() is Delivered {
            1nat
        } else {
            0nat
        }
    }
}

/// How many of the tasks had an outcome that could not be sent.
pub open spec fn losses(ends: Seq<TaskEnd>) -> nat
    decreases ends.len(),
{
    if ends.len() == 0 {
        0
    } else {
        losses(ends.drop_last()) + if ends.last() is Undelivered {
            1nat
        } else {
            0nat
        }
    }
}

/// The messages of the tasks that panicked, in the order of `ends`.
pub open spec fn panic_messages(ends: Seq<TaskEnd>) -> Seq<Seq<char>>
    decreases ends.len(),
{
    if ends.len() == 0 {
        Seq::empty()
    } else {
        match ends.last() {
            TaskEnd::Panicked(message) => panic_messages(ends.drop_last()).push(message@),
            _ => panic_messages(ends.drop_last()),
        }
    }
}

/// Whether `failure` is what is handed back for a panic with this message.
pub open spec fn is_panic_failure(failure: (String, PipelineError), message: Seq<char>) -> bool {
    &&& failure.0@ == panic_label()
    &&& failure.1 matches PipelineError::Generic(text)
    &&& text@ == panic_text(message)
}

/// Every task ends in exactly one way, and as many messages are kept as
/// tasks panicked.
pub proof fn lemma_every_task_is_counted(ends: Seq<TaskEnd>)
    ensures
        deliveries(ends) + losses(ends) + panics(ends) == ends.len(),
        panic_messages(ends).len() == panics(ends),
    decreases ends.len(),
{
    if ends.len() > 0 {
        lemma_every_task_is_counted(ends.drop_last());
    }
}

/// Where every outcome could be sent, the outcomes sent and the panics
/// handed back add up to the jobs.
pub proof fn lemma_outcomes_and_panics_cover_the_jobs(ends: Seq<TaskEnd>)
    requires
        losses(ends) == 0,
    ensures
        deliveries(ends) + panics(ends) == ends.len(),
{
    lemma_every_task_is_counted(ends);
}

/// What is handed back for a task that panicked with this message.
pub fn panic_failure(message: &str) -> (failure: (String, PipelineError))
    ensures
        is_panic_failure(failure, message@),
{
    let mut text: String = String::from_str("A download task panicked: ");
    text.append(message);
    (String::from_str("[UnknownDownloadTaskPanic]"), PipelineError::Generic(text))
}

/// What the coordinator hands back once every task has been joined: one
/// entry for each task that panicked, in the order in which the tasks were
/// joined, and nothing for a job that failed in any other way.
pub fn collect_failures(ends: &Vec<TaskEnd>) -> (failures: Vec<(String, PipelineError)>)
    ensures
        failures.len() == panics(ends@),
        forall|k: int|
            0 <= k < failures.len() ==> is_panic_failure(
                #[trigger] failures[k],
                panic_messages(ends@)[k],
            ),
        losses(ends@) == 0 ==> deliveries(ends@) + failures.len() == ends.len(),
{
    proof {
        lemma_every_task_is_counted(ends@);
    }
    let mut failures: Vec<(String, PipelineError)> = Vec::new();
    let mut i: usize = 0;
    while i < ends.len()
        invariant
            i <= ends.len(),
            failures.len() == panics(ends@.take(i as int)),
            failures.len() == panic_messages(ends@.take(i as int)).len(),
            forall|k: int|
                0 <= k < failures.len() ==> is_panic_failure(
                    #[trigger] failures[k],
                    panic_messages(ends@.take(i as int))[k],
                ),
        decreases ends.len() - i,
    {
        proof {
            assert(ends@.take(i + 1).drop_last() =~= ends@.take(i as int));
        }
        if let TaskEnd::Panicked(message) = &ends[i] {
            failures.push(panic_failure(message.as_str()));
        }
        i = i + 1;
    }
    assert(ends@.take(i as int) =~= ends@);
    failures
}

} // verus!
