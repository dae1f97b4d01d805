//! The mathematical model of the status table: what the monitor knows of
//! each job, how every update changes it, and what holds of it at all times.

use crate::event::PipelineEvent;
use vstd::prelude::*;

verus! {

/// Where a job stands. A job is expected to go from `Waiting` to
/// `Downloading`, on to `Downloaded` or `Cached`, then through `Processing`,
/// `Installing` and `Linking` to `Success`, or to `Failed` from anywhere on
/// the way. The table does not hold a job to this order: the status that an
/// event gives is taken as it comes, also behind `Success` and `Failed`, so
/// that events which come twice or out of order do no harm.
#[derive(Clone, Copy, Debug, PartialEq, Eq, Structural)]
pub enum JobStatus {
    Waiting,
    Downloading,
    Downloaded,
    Cached,
    Processing,
    Installing,
    Linking,
    Success,
    Failed,
}

/// What the table holds of one job.
pub struct JobView {
    pub name: Seq<char>,
    pub status: JobStatus,
    /// The size of the artifact, once an event has told it.
    pub size_bytes: Option<u64>,
    pub current_bytes_downloaded: Option<u64>,
    /// When the job first left `Waiting`, in nanoseconds.
    pub start_time: Option<u64>,
    /// The display index: one for the job seen first, two for the next.
    pub pool_id: nat,
}

impl JobView {
    /// The job's size estimate as a number, zero while it is unknown.
    pub open spec fn size_or_zero(self) -> nat {
        match self.size_bytes {
            Some(bytes) => bytes as nat,
            None => 0,
        }
    }

    /// The bytes that count towards the throughput estimate: what a
    /// downloading job has received, nothing for any other job.
    pub open spec fn live_bytes(self) -> nat {
        if self.status == JobStatus::Downloading {
            match self.current_bytes_downloaded {
                Some(bytes) => bytes as nat,
                None => 0,
            }
        } else {
            0
        }
    }
}

/// The sum of the size estimates of `jobs`.
pub open spec fn sum_sizes(jobs: Seq<JobView>) -> nat
    decreases jobs.len(),
{
    if jobs.len() == 0 {
        0
    } else {
        sum_sizes(jobs.drop_last()) + jobs.last().size_or_zero()
    }
}

/// The sum of the bytes received by the jobs that are downloading.
pub open spec fn sum_live_bytes(jobs: Seq<JobView>) -> nat
    decreases jobs.len(),
{
    if jobs.len() == 0 {
        0
    } else {
        sum_live_bytes(jobs.drop_last()) + jobs.last().live_bytes()
    }
}

/// The names of the jobs that are downloading.
pub open spec fn downloading(jobs: Seq<JobView>) -> Set<Seq<char>> {
    Set::new(
        |name: Seq<char>|
            exists|i: int|
                0 <= i < jobs.len() && (#[trigger] jobs[i]).name == name && jobs[i].status
                    == JobStatus::Downloading,
    )
}

/// Whether no two of `jobs` share a name.
pub open spec fn distinct_names(jobs: Seq<JobView>) -> bool {
    forall|i: int, j: int|
        0 <= i < j < jobs.len() ==> (#[trigger] jobs[i]).name != (#[trigger] jobs[j]).name
}

/// How many of `jobs` have the status `status`.
pub open spec fn count_status(jobs: Seq<JobView>, status: JobStatus) -> nat
    decreases jobs.len(),
{
    if jobs.len() == 0 {
        0
    } else {
        count_status(jobs.drop_last(), status) + if jobs.last().status == status {
            1nat
        } else {
            0nat
        }
    }
}

/// The shortest time between two throughput samples, in nanoseconds.
pub const SPEED_WINDOW_NANOS: u64 = 62_500_000;

/// Nanoseconds in a second.
pub const NANOS_PER_SEC: u64 = 1_000_000_000;

/// The throughput of `bytes` received over `nanos` nanoseconds, in whole
/// bytes per second, held at the largest 64-bit value where it would exceed
/// it.
pub open spec fn rate(bytes: nat, nanos: nat) -> nat {
    let exact = bytes * (NANOS_PER_SEC as nat) / nanos;
    if exact > u64::MAX {
        u64::MAX as nat
    } else {
        exact
    }
}

/// The number of filled places of a progress bar of `width` places when
/// `done` of `total` jobs have ended: the share of the places, rounded down,
/// and every place where as many or more have ended than were announced.
pub open spec fn bar_fill(done: nat, total: nat, width: nat) -> nat {
    if done >= total {
        width
    } else {
        done * width / total
    }
}

/// The state of the status table.
#[verifier::ext_equal]
pub struct DisplayView {
    /// The known jobs, in the order in which they were first seen.
    pub jobs: Seq<JobView>,
    /// The number of jobs that the run announced.
    pub total_jobs: nat,
    /// When the table was set up, in nanoseconds.
    pub start_time: u64,
    /// The names of the jobs held as downloading.
    pub active_downloads: Set<Seq<char>>,
    /// The running total of the size estimates.
    pub total_bytes: nat,
    /// The sizes of the jobs that have left `Downloading`, added up.
    pub downloaded_bytes: nat,
    /// When the throughput was last sampled, in nanoseconds.
    pub last_speed_update: u64,
    /// The bytes received by the downloading jobs at the last sample.
    pub last_aggregate_bytes_snapshot: nat,
    /// The throughput estimate, in bytes per second.
    pub current_speed_bps: nat,
    /// Whether the table has been drawn.
    pub header_printed: bool,
    /// The number of terminal lines that the last drawing took.
    pub last_line_count: nat,
}

impl DisplayView {
    /// The table before any event, set up at time `now`.
    pub open spec fn initial(now: u64) -> DisplayView {
        DisplayView {
            jobs: Seq::empty(),
            total_jobs: 0,
            start_time: now,
            active_downloads: Set::empty(),
            total_bytes: 0,
            downloaded_bytes: 0,
            last_speed_update: now,
            last_aggregate_bytes_snapshot: 0,
            current_speed_bps: 0,
            header_printed: false,
            last_line_count: 0,
        }
    }

    /// Whether a job of this name is known.
    pub open spec fn knows(self, name: Seq<char>) -> bool {
        exists|i: int| 0 <= i < self.jobs.len() && (#[trigger] self.jobs[i]).name == name
    }

    /// The place of the job of this name, where it is known.
    pub open spec fn index_of(self, name: Seq<char>) -> int {
        choose|i: int| 0 <= i < self.jobs.len() && (#[trigger] self.jobs[i]).name == name
    }

    /// The status of the job of this name, if it is known.
    pub open spec fn status_of(self, name: Seq<char>) -> Option<JobStatus> {
        if self.knows(name) {
            Some(self.jobs[self.index_of(name)].status)
        } else {
            None
        }
    }

    /// What holds of the table at all times: no two jobs share a name, the
    /// display indices count up from one in the order of first sight, the
    /// running total is the sum of the size estimates, and the jobs held as
    /// downloading are exactly those whose status is `Downloading`.
    pub open spec fn wf(self) -> bool {
        &&& distinct_names(self.jobs)
        &&& forall|i: int| 0 <= i < self.jobs.len() ==> (#[trigger] self.jobs[i]).pool_id == i + 1
        &&& self.total_bytes == sum_sizes(self.jobs)
        &&& self.active_downloads =~= downloading(self.jobs)
    }

    /// The table after a job was announced. A job that is known already is
    /// left as it is. A new one goes behind the others with the next display
    /// index; its size joins the running total; it starts its timer unless
    /// it is `Waiting`, and joins the downloading jobs if it is
    /// `Downloading`.
    pub open spec fn add_job(
        self,
        name: Seq<char>,
        status: JobStatus,
        size_bytes: Option<u64>,
        now: u64,
    ) -> DisplayView {
        if self.knows(name) {
            self
        } else {
            let job = JobView {
                name,
                status,
                size_bytes,
                current_bytes_downloaded: if status == JobStatus::Downloading {
                    Some(0u64)
                } else {
                    None
                },
                start_time: if status != JobStatus::Waiting {
                    Some(now)
                } else {
                    None
                },
                pool_id: self.jobs.len() + 1,
            };
            DisplayView {
                jobs: self.jobs.push(job),
                total_bytes: self.total_bytes + job.size_or_zero(),
                active_downloads: if status == JobStatus::Downloading {
                    self.active_downloads.insert(name)
                } else {
                    self.active_downloads
                },
                ..self
            }
        }
    }

    /// The table after a job changed its status. An unknown job changes
    /// nothing. The status is overwritten, whatever it was. The timer starts
    /// at the first status other than `Waiting`. A size that comes with the
    /// change replaces the estimate, and the running total follows by the
    /// difference. A job that leaves `Downloading` leaves the downloading
    /// jobs, and its size, if known, becomes its received bytes and is added
    /// to the downloaded total (which stays at the largest 128-bit value
    /// once there); a job that enters `Downloading` joins the downloading
    /// jobs with no bytes received.
    pub open spec fn update_job_status(
        self,
        name: Seq<char>,
        status: JobStatus,
        size_bytes: Option<u64>,
        now: u64,
    ) -> DisplayView {
        if !self.knows(name) {
            self
        } else {
            let i = self.index_of(name);
            let job = self.jobs[i];
            let leaving = job.status == JobStatus::Downloading && status != JobStatus::Downloading;
            let entering = job.status != JobStatus::Downloading && status == JobStatus::Downloading;
            let size = if size_bytes is Some {
                size_bytes
            } else {
                job.size_bytes
            };
            let changed = JobView {
                status,
                start_time: if job.start_time is None && status != JobStatus::Waiting {
                    Some(now)
                } else {
                    job.start_time
                },
                size_bytes: size,
                current_bytes_downloaded: if leaving && size is Some {
                    size
                } else if entering {
                    Some(0u64)
                } else {
                    job.current_bytes_downloaded
                },
                ..job
            };
            DisplayView {
                jobs: self.jobs.update(i, changed),
                total_bytes: (self.total_bytes - job.size_or_zero() + changed.size_or_zero()) as nat,
                active_downloads: if leaving {
                    self.active_downloads.remove(name)
                } else if entering {
                    self.active_downloads.insert(name)
                } else {
                    self.active_downloads
                },
                downloaded_bytes: if leaving && size is Some {
                    if self.downloaded_bytes + changed.size_or_zero() > u128::MAX {
                        u128::MAX as nat
                    } else {
                        self.downloaded_bytes + changed.size_or_zero()
                    }
                } else {
                    self.downloaded_bytes
                },
                ..self
            }
        }
    }

    /// The table after a progress report. An unknown job changes nothing.
    /// The received bytes are overwritten and the status is kept. A total
    /// that comes with the report replaces the size estimate, and the
    /// running total follows by the difference.
    pub open spec fn update_download_progress(
        self,
        name: Seq<char>,
        bytes_so_far: u64,
        total_size: Option<u64>,
    ) -> DisplayView {
        if !self.knows(name) {
            self
        } else {
            let i = self.index_of(name);
            let job = self.jobs[i];
            let changed = JobView {
                current_bytes_downloaded: Some(bytes_so_far),
                size_bytes: if total_size is Some {
                    total_size
                } else {
                    job.size_bytes
                },
                ..job
            };
            DisplayView {
                jobs: self.jobs.update(i, changed),
                total_bytes: (self.total_bytes - job.size_or_zero() + changed.size_or_zero()) as nat,
                ..self
            }
        }
    }

    /// The table after it was drawn at time `now` on `lines` terminal lines:
    /// the throughput is sampled first.
    pub open spec fn after_render(self, now: u64, lines: nat) -> DisplayView {
        DisplayView { header_printed: true, last_line_count: lines, ..self.update_speed(now) }
    }

    /// The number of jobs that have come to an end, well or badly.
    pub open spec fn done(self) -> nat {
        count_status(self.jobs, JobStatus::Success) + count_status(self.jobs, JobStatus::Failed)
    }

    /// The number of places of a progress bar of `width` places that stand
    /// for the jobs that have come to an end.
    pub open spec fn filled(self, width: nat) -> nat {
        bar_fill(self.done(), self.total_jobs, width)
    }

    /// The table after the throughput was sampled at time `now`. Within the
    /// window after the last sample nothing changes. Else the bytes received
    /// by the downloading jobs are compared with the last sample: a gain
    /// gives a new estimate; without a gain the estimate stays while a job
    /// is downloading, and falls to zero when none is.
    pub open spec fn update_speed(self, now: u64) -> DisplayView {
        if now < self.last_speed_update || now - self.last_speed_update < SPEED_WINDOW_NANOS {
            self
        } else {
            let live = sum_live_bytes(self.jobs);
            let gain = if live > self.last_aggregate_bytes_snapshot {
                (live - self.last_aggregate_bytes_snapshot) as nat
            } else {
                0
            };
            DisplayView {
                current_speed_bps: if gain > 0 {
                    rate(gain, (now - self.last_speed_update) as nat)
                } else if count_status(self.jobs, JobStatus::Downloading) == 0 {
                    0
                } else {
                    self.current_speed_bps
                },
                last_speed_update: now,
                last_aggregate_bytes_snapshot: live,
                ..self
            }
        }
    }
}

/// Adding a job behind the others adds its size to the sum.
pub proof fn lemma_sum_sizes_push(jobs: Seq<JobView>, job: JobView)
    ensures
        sum_sizes(jobs.push(job)) == sum_sizes(jobs) + job.size_or_zero(),
{
    assert(jobs.push(job).drop_last() =~= jobs);
}

/// Replacing one job changes the sum by the difference of the two sizes, and
/// the sum is never less than any one size.
pub proof fn lemma_sum_sizes_update(jobs: Seq<JobView>, i: int, job: JobView)
    requires
        0 <= i < jobs.len(),
    ensures
        sum_sizes(jobs) >= jobs[i].size_or_zero(),
        sum_sizes(jobs.update(i, job)) == sum_sizes(jobs) - jobs[i].size_or_zero()
            + job.size_or_zero(),
    decreases jobs.len(),
{
    if i == jobs.len() - 1 {
        assert(jobs.update(i, job).drop_last() =~= jobs.drop_last());
    } else {
        lemma_sum_sizes_update(jobs.drop_last(), i, job);
        assert(jobs.update(i, job).drop_last() =~= jobs.drop_last().update(i, job));
    }
}

/// The sum of the sizes of `n` jobs is at most `n` times the largest size.
pub proof fn lemma_sum_sizes_bound(jobs: Seq<JobView>)
    ensures
        sum_sizes(jobs) <= jobs.len() * u64::MAX,
    decreases jobs.len(),
{
    if jobs.len() > 0 {
        lemma_sum_sizes_bound(jobs.drop_last());
        assert((jobs.len() - 1) * u64::MAX + u64::MAX == jobs.len() * u64::MAX)
            by (nonlinear_arith);
    }
}

/// The bytes received by `n` downloading jobs are at most `n` times the
/// largest count.
pub proof fn lemma_sum_live_bytes_bound(jobs: Seq<JobView>)
    ensures
        sum_live_bytes(jobs) <= jobs.len() * u64::MAX,
    decreases jobs.len(),
{
    if jobs.len() > 0 {
        lemma_sum_live_bytes_bound(jobs.drop_last());
        assert((jobs.len() - 1) * u64::MAX + u64::MAX == jobs.len() * u64::MAX)
            by (nonlinear_arith);
    }
}

/// No more jobs have a given status than there are jobs.
pub proof fn lemma_count_status_bound(jobs: Seq<JobView>, status: JobStatus)
    ensures
        count_status(jobs, status) <= jobs.len(),
    decreases jobs.len(),
{
    if jobs.len() > 0 {
        lemma_count_status_bound(jobs.drop_last(), status);
    }
}

/// Where no two jobs share a name, a known name has one place only.
pub proof fn lemma_index_of_is_the_place(view: DisplayView, name: Seq<char>, i: int)
    requires
        distinct_names(view.jobs),
        0 <= i < view.jobs.len(),
        view.jobs[i].name == name,
    ensures
        view.knows(name),
        view.index_of(name) == i,
{
}

/// A table that was just set up meets the invariant.
pub proof fn lemma_initial_wf(now: u64)
    ensures
        DisplayView::initial(now).wf(),
{
}

/// Announcing a job keeps the invariant, and leaves every job that was known
/// at its place with its name and display index.
pub proof fn lemma_add_job_preserves_wf(
    view: DisplayView,
    name: Seq<char>,
    status: JobStatus,
    size_bytes: Option<u64>,
    now: u64,
)
    requires
        view.wf(),
    ensures
        view.add_job(name, status, size_bytes, now).wf(),
        view.add_job(name, status, size_bytes, now).knows(name),
        view.add_job(name, status, size_bytes, now).jobs.len() >= view.jobs.len(),
        forall|i: int|
            0 <= i < view.jobs.len() ==> view.add_job(name, status, size_bytes, now).jobs[i]
                == #[trigger] view.jobs[i],
{
    let after = view.add_job(name, status, size_bytes, now);
    if !view.knows(name) {
        lemma_sum_sizes_push(view.jobs, after.jobs[view.jobs.len() as int]);
        assert forall|who: Seq<char>|
            after.active_downloads.contains(who) == downloading(after.jobs).contains(who) by {
            if view.active_downloads.contains(who) {
                let k = choose|k: int|
                    0 <= k < view.jobs.len() && (#[trigger] view.jobs[k]).name == who
                        && view.jobs[k].status == JobStatus::Downloading;
                assert(after.jobs[k].name == who);
            }
        }
    }
}

/// A change of status keeps the invariant, keeps every job at its place with
/// its name and display index, and leaves the job, if it is known, with the
/// status that came.
pub proof fn lemma_update_job_status_preserves_wf(
    view: DisplayView,
    name: Seq<char>,
    status: JobStatus,
    size_bytes: Option<u64>,
    now: u64,
)
    requires
        view.wf(),
    ensures
        view.update_job_status(name, status, size_bytes, now).wf(),
        view.update_job_status(name, status, size_bytes, now).jobs.len() == view.jobs.len(),
        forall|i: int|
            #![trigger view.jobs[i]]
            0 <= i < view.jobs.len() ==> {
                let after = view.update_job_status(name, status, size_bytes, now);
                &&& after.jobs[i].name == view.jobs[i].name
                &&& after.jobs[i].pool_id == view.jobs[i].pool_id
                &&& view.jobs[i].name != name ==> after.jobs[i] == view.jobs[i]
            },
        view.knows(name) ==> view.update_job_status(name, status, size_bytes, now).status_of(name)
            == Some(status),
{
    let after = view.update_job_status(name, status, size_bytes, now);
    if view.knows(name) {
        let i = view.index_of(name);
        lemma_sum_sizes_update(view.jobs, i, after.jobs[i]);
        assert(distinct_names(after.jobs)) by {
            assert forall|a: int, b: int| 0 <= a < b < after.jobs.len() implies (
            #[trigger] after.jobs[a]).name != (#[trigger] after.jobs[b]).name by {
                assert(view.jobs[a].name != view.jobs[b].name);
            }
        }
        lemma_index_of_is_the_place(after, name, i);
        assert forall|who: Seq<char>|
            after.active_downloads.contains(who) == downloading(after.jobs).contains(who) by {
            if who != name && view.active_downloads.contains(who) {
                let k = choose|k: int|
                    0 <= k < view.jobs.len() && (#[trigger] view.jobs[k]).name == who
                        && view.jobs[k].status == JobStatus::Downloading;
                assert(after.jobs[k].name == who);
            }
        }
    }
}

/// A progress report keeps the invariant, and keeps every job at its place
/// with its name, display index and status.
pub proof fn lemma_update_download_progress_preserves_wf(
    view: DisplayView,
    name: Seq<char>,
    bytes_so_far: u64,
    total_size: Option<u64>,
)
    requires
        view.wf(),
    ensures
        view.update_download_progress(name, bytes_so_far, total_size).wf(),
        view.update_download_progress(name, bytes_so_far, total_size).jobs.len()
            == view.jobs.len(),
        forall|i: int|
            #![trigger view.jobs[i]]
            0 <= i < view.jobs.len() ==> {
                let after = view.update_download_progress(name, bytes_so_far, total_size);
                &&& after.jobs[i].name == view.jobs[i].name
                &&& after.jobs[i].pool_id == view.jobs[i].pool_id
                &&& after.jobs[i].status == view.jobs[i].status
                &&& view.jobs[i].name != name ==> after.jobs[i] == view.jobs[i]
            },
{
    let after = view.update_download_progress(name, bytes_so_far, total_size);
    if view.knows(name) {
        let i = view.index_of(name);
        lemma_sum_sizes_update(view.jobs, i, after.jobs[i]);
        assert(distinct_names(after.jobs)) by {
            assert forall|a: int, b: int| 0 <= a < b < after.jobs.len() implies (
            #[trigger] after.jobs[a]).name != (#[trigger] after.jobs[b]).name by {
                assert(view.jobs[a].name != view.jobs[b].name);
            }
        }
        assert forall|who: Seq<char>|
            after.active_downloads.contains(who) == downloading(after.jobs).contains(who) by {
            if view.active_downloads.contains(who) {
                let k = choose|k: int|
                    0 <= k < view.jobs.len() && (#[trigger] view.jobs[k]).name == who
                        && view.jobs[k].status == JobStatus::Downloading;
                assert(after.jobs[k].name == who);
            }
        }
    }
}

/// Sampling the throughput keeps the invariant and every job.
pub proof fn lemma_update_speed_preserves_wf(view: DisplayView, now: u64)
    requires
        view.wf(),
    ensures
        view.update_speed(now).wf(),
        view.update_speed(now).jobs == view.jobs,
{
}

/// Under the invariant the running total is the sum of the size estimates
/// of the known jobs.
pub proof fn lemma_total_bytes_is_the_sum(view: DisplayView)
    requires
        view.wf(),
    ensures
        view.total_bytes == sum_sizes(view.jobs),
{
}

/// Under the invariant a name is held as downloading exactly if the job of
/// that name has the status `Downloading`.
pub proof fn lemma_active_downloads_are_the_downloading_jobs(view: DisplayView, name: Seq<char>)
    requires
        view.wf(),
    ensures
        view.active_downloads.contains(name) <==> view.status_of(name) == Some(
            JobStatus::Downloading,
        ),
{
    if view.active_downloads.contains(name) {
        let k = choose|k: int|
            0 <= k < view.jobs.len() && (#[trigger] view.jobs[k]).name == name
                && view.jobs[k].status == JobStatus::Downloading;
        lemma_index_of_is_the_place(view, name, k);
    }
}

/// Under the invariant the display indices start at one and go up by one
/// from each job to the next, in the order of first sight.
pub proof fn lemma_pool_ids_count_up(view: DisplayView, i: int, j: int)
    requires
        view.wf(),
        0 <= i < j < view.jobs.len(),
    ensures
        view.jobs[0].pool_id == 1,
        view.jobs[i].pool_id < view.jobs[j].pool_id,
        j == i + 1 ==> view.jobs[j].pool_id == view.jobs[i].pool_id + 1,
{
}

/// Whether the event tells of one job.
pub open spec fn is_job_event(event: PipelineEvent) -> bool {
    match event {
        PipelineEvent::DownloadStarted { .. } => true,
        PipelineEvent::DownloadProgressUpdate { .. } => true,
        PipelineEvent::DownloadFinished { .. } => true,
        PipelineEvent::DownloadCached { .. } => true,
        PipelineEvent::DownloadFailed { .. } => true,
        PipelineEvent::JobProcessingStarted { .. } => true,
        PipelineEvent::BuildStarted { .. } => true,
        PipelineEvent::InstallStarted { .. } => true,
        PipelineEvent::LinkStarted { .. } => true,
        PipelineEvent::JobSuccess { .. } => true,
        PipelineEvent::JobFailed { .. } => true,
        _ => false,
    }
}

impl DisplayView {
    /// The table after a job was referred to: a job that was not known
    /// joins the table as `Waiting`.
    pub open spec fn seen(self, name: Seq<char>, now: u64) -> DisplayView {
        self.add_job(name, JobStatus::Waiting, None, now)
    }

    /// The table after a job, known or not, took a status.
    pub open spec fn moved(
        self,
        name: Seq<char>,
        status: JobStatus,
        size_bytes: Option<u64>,
        now: u64,
    ) -> DisplayView {
        self.seen(name, now).update_job_status(name, status, size_bytes, now)
    }

    /// The table after an event that arrived at time `now`.
    pub open spec fn apply(self, event: PipelineEvent, now: u64) -> DisplayView {
        match event {
            PipelineEvent::PipelineStarted { total_jobs } => DisplayView {
                total_jobs: total_jobs as nat,
                ..self
            },
            PipelineEvent::DownloadStarted { target_id, .. } => self.moved(
                target_id@,
                JobStatus::Downloading,
                None,
                now,
            ),
            PipelineEvent::DownloadProgressUpdate {
                target_id,
                bytes_so_far,
                total_size,
            } => self.seen(target_id@, now).update_download_progress(
                target_id@,
                bytes_so_far,
                total_size,
            ),
            PipelineEvent::DownloadFinished { target_id, size_bytes, .. } => self.moved(
                target_id@,
                JobStatus::Downloaded,
                Some(size_bytes),
                now,
            ),
            PipelineEvent::DownloadCached { target_id, size_bytes } => self.moved(
                target_id@,
                JobStatus::Cached,
                Some(size_bytes),
                now,
            ),
            PipelineEvent::DownloadFailed { target_id, .. } => self.moved(
                target_id@,
                JobStatus::Failed,
                None,
                now,
            ),
            PipelineEvent::JobProcessingStarted { target_id } => self.moved(
                target_id@,
                JobStatus::Processing,
                None,
                now,
            ),
            PipelineEvent::BuildStarted { target_id } => self.moved(
                target_id@,
                JobStatus::Processing,
                None,
                now,
            ),
            PipelineEvent::InstallStarted { target_id } => self.moved(
                target_id@,
                JobStatus::Installing,
                None,
                now,
            ),
            PipelineEvent::LinkStarted { target_id } => self.moved(
                target_id@,
                JobStatus::Linking,
                None,
                now,
            ),
            PipelineEvent::JobSuccess { target_id, .. } => self.moved(
                target_id@,
                JobStatus::Success,
                None,
                now,
            ),
            PipelineEvent::JobFailed { target_id, .. } => self.moved(
                target_id@,
                JobStatus::Failed,
                None,
                now,
            ),
            _ => self,
        }
    }
}

/// The job that the event tells of.
pub open spec fn subject(event: PipelineEvent) -> Seq<char> {
    match event {
        PipelineEvent::DownloadStarted { target_id, .. } => target_id@,
        PipelineEvent::DownloadProgressUpdate { target_id, .. } => target_id@,
        PipelineEvent::DownloadFinished { target_id, .. } => target_id@,
        PipelineEvent::DownloadCached { target_id, .. } => target_id@,
        PipelineEvent::DownloadFailed { target_id, .. } => target_id@,
        PipelineEvent::JobProcessingStarted { target_id } => target_id@,
        PipelineEvent::BuildStarted { target_id } => target_id@,
        PipelineEvent::InstallStarted { target_id } => target_id@,
        PipelineEvent::LinkStarted { target_id } => target_id@,
        PipelineEvent::JobSuccess { target_id, .. } => target_id@,
        PipelineEvent::JobFailed { target_id, .. } => target_id@,
        _ => Seq::empty(),
    }
}

/// The status that the event gives its job, if it gives one.
pub open spec fn status_given(event: PipelineEvent) -> Option<JobStatus> {
    match event {
        PipelineEvent::DownloadStarted { .. } => Some(JobStatus::Downloading),
        PipelineEvent::DownloadFinished { .. } => Some(JobStatus::Downloaded),
        PipelineEvent::DownloadCached { .. } => Some(JobStatus::Cached),
        PipelineEvent::DownloadFailed { .. } => Some(JobStatus::Failed),
        PipelineEvent::JobProcessingStarted { .. } => Some(JobStatus::Processing),
        PipelineEvent::BuildStarted { .. } => Some(JobStatus::Processing),
        PipelineEvent::InstallStarted { .. } => Some(JobStatus::Installing),
        PipelineEvent::LinkStarted { .. } => Some(JobStatus::Linking),
        PipelineEvent::JobSuccess { .. } => Some(JobStatus::Success),
        PipelineEvent::JobFailed { .. } => Some(JobStatus::Failed),
        _ => None,
    }
}

/// Whether the jobs of `before` stand in `after` at their places, each with
/// its name and display index.
pub open spec fn keeps_jobs(before: DisplayView, after: DisplayView) -> bool {
    &&& before.jobs.len() <= after.jobs.len()
    &&& forall|i: int|
        #![trigger before.jobs[i]]
        0 <= i < before.jobs.len() ==> after.jobs[i].name == before.jobs[i].name
            && after.jobs[i].pool_id == before.jobs[i].pool_id
}

/// A job that takes a status has it afterwards, whether it was known or
/// not; the invariant holds on, and no job loses its place.
pub proof fn lemma_moved(
    view: DisplayView,
    name: Seq<char>,
    status: JobStatus,
    size_bytes: Option<u64>,
    now: u64,
)
    requires
        view.wf(),
    ensures
        view.moved(name, status, size_bytes, now).wf(),
        view.moved(name, status, size_bytes, now).status_of(name) == Some(status),
        keeps_jobs(view, view.moved(name, status, size_bytes, now)),
{
    lemma_add_job_preserves_wf(view, name, JobStatus::Waiting, None, now);
    lemma_update_job_status_preserves_wf(view.seen(name, now), name, status, size_bytes, now);
}

/// Every event keeps the invariant of the table and leaves each known job
/// at its place with its name and display index.
pub proof fn lemma_apply_preserves_wf(view: DisplayView, event: PipelineEvent, now: u64)
    requires
        view.wf(),
    ensures
        view.apply(event, now).wf(),
        keeps_jobs(view, view.apply(event, now)),
{
    match event {
        PipelineEvent::DownloadProgressUpdate { target_id, bytes_so_far, total_size } => {
            lemma_add_job_preserves_wf(view, target_id@, JobStatus::Waiting, None, now);
            lemma_update_download_progress_preserves_wf(
                view.seen(target_id@, now),
                target_id@,
                bytes_so_far,
                total_size,
            );
        },
        PipelineEvent::DownloadFinished { target_id, size_bytes, .. } => {
            lemma_moved(view, target_id@, JobStatus::Downloaded, Some(size_bytes), now);
        },
        PipelineEvent::DownloadCached { target_id, size_bytes } => {
            lemma_moved(view, target_id@, JobStatus::Cached, Some(size_bytes), now);
        },
        _ => {
            if status_given(event) is Some {
                lemma_moved(view, subject(event), status_given(event)->0, None, now);
            }
        },
    }
}

/// An event that gives its job a status decides that status, whatever the
/// table held before: events that were lost earlier do not show in it.
pub proof fn lemma_event_decides_status(view: DisplayView, event: PipelineEvent, now: u64)
    requires
        view.wf(),
        status_given(event) is Some,
    ensures
        view.apply(event, now).status_of(subject(event)) == status_given(event),
{
    match event {
        PipelineEvent::DownloadFinished { target_id, size_bytes, .. } => {
            lemma_moved(view, target_id@, JobStatus::Downloaded, Some(size_bytes), now);
        },
        PipelineEvent::DownloadCached { target_id, size_bytes } => {
            lemma_moved(view, target_id@, JobStatus::Cached, Some(size_bytes), now);
        },
        _ => {
            lemma_moved(view, subject(event), status_given(event)->0, None, now);
        },
    }
}

} // verus!
