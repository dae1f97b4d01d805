//! The status table of the monitor: the record of every job, kept up to date
//! from the events of a run, and the text that draws it on a terminal.

use crate::event::PipelineEvent;
use crate::job::{job_views, JobInfo};
use crate::model::{
    bar_fill, count_status, downloading, is_job_event, lemma_add_job_preserves_wf, lemma_count_status_bound,
    lemma_index_of_is_the_place, lemma_sum_live_bytes_bound, lemma_sum_sizes_bound,
    lemma_sum_sizes_update, lemma_update_download_progress_preserves_wf,
    lemma_update_job_status_preserves_wf, rate, sum_live_bytes, sum_sizes, DisplayView, JobStatus,
    NANOS_PER_SEC, SPEED_WINDOW_NANOS,
};
use crate::paint::{count_char, occurrences};
use crate::table::{
    bar, concat, erase, erase_text, header_row, is_bar, is_header, is_job_row, is_rows, is_table,
    job_row, lemma_table_lines, plain_names, rule_row, BAR_WIDTH,
};
use crate::units::{format_speed, speed_text};
use vstd::prelude::*;
use vstd::string::*;

verus! {

/// The views of a list of names.
pub open spec fn name_set(names: Seq<String>) -> Set<Seq<char>> {
    Set::new(|name: Seq<char>| exists|k: int| 0 <= k < names.len() && (#[trigger] names[k])@ == name)
}

/// Whether no name stands twice in the list.
pub open spec fn no_repeats(names: Seq<String>) -> bool {
    forall|a: int, b: int|
        0 <= a < b < names.len() ==> (#[trigger] names[a])@ != (#[trigger] names[b])@
}

/// A new name behind the others joins the set of their views, and nothing
/// stands twice.
proof fn lemma_name_set_push(names: Seq<String>, name: String)
    requires
        no_repeats(names),
        !name_set(names).contains(name@),
    ensures
        name_set(names.push(name)) =~= name_set(names).insert(name@),
        no_repeats(names.push(name)),
{
    let longer = names.push(name);
    assert forall|who: Seq<char>|
        name_set(longer).contains(who) == name_set(names).insert(name@).contains(who) by {
        if name_set(names).contains(who) {
            let k = choose|k: int| 0 <= k < names.len() && (#[trigger] names[k])@ == who;
            assert(longer[k]@ == who);
        }
        if who == name@ {
            assert(longer[names.len() as int]@ == who);
        }
    }
}

/// Taking one name out of a list without repeats takes its view out of the
/// set of their views.
proof fn lemma_name_set_remove(names: Seq<String>, k: int)
    requires
        no_repeats(names),
        0 <= k < names.len(),
    ensures
        name_set(names.remove(k)) =~= name_set(names).remove(names[k]@),
        no_repeats(names.remove(k)),
{
    let shorter = names.remove(k);
    assert forall|who: Seq<char>|
        name_set(shorter).contains(who) == name_set(names).remove(names[k]@).contains(who) by {
        if name_set(names).contains(who) && who != names[k]@ {
            let j = choose|j: int| 0 <= j < names.len() && (#[trigger] names[j])@ == who;
            if j < k {
                assert(shorter[j]@ == who);
            } else {
                assert(shorter[j - 1]@ == who);
            }
        }
    }
}

/// Whether `text` draws the table of `before`, where `lines` is the number of
/// terminal lines that the drawing takes: first the control sequence that
/// takes the last drawing off the screen, if there was one, then header,
/// rows and rule.
pub open spec fn draws(text: Seq<char>, before: DisplayView, lines: nat) -> bool {
    exists|body: Seq<char>|
        {
            &&& text == erase_text(
                if before.header_printed {
                    before.last_line_count
                } else {
                    0
                },
            ) + body
            &&& is_table(body, before.jobs)
            &&& lines == occurrences(body, '\n')
        }
}

/// A drawing of jobs with plain names takes one terminal line for each job
/// and two more, so that this is the number of lines that the next drawing
/// takes off the screen.
pub proof fn lemma_drawing_lines(text: Seq<char>, before: DisplayView, lines: nat)
    requires
        draws(text, before, lines),
        plain_names(before.jobs),
    ensures
        lines == before.jobs.len() + 2,
{
    let body = choose|body: Seq<char>|
        {
            &&& text == erase_text(
                if before.header_printed {
                    before.last_line_count
                } else {
                    0
                },
            ) + body
            &&& is_table(body, before.jobs)
            &&& lines == occurrences(body, '\n')
        };
    lemma_table_lines(body, before.jobs);
}

/// What one drawing of the table gives.
pub struct Frame {
    /// What is to be written to the terminal.
    pub text: String,
    /// The progress bar of the run.
    pub progress_bar: String,
    /// The throughput estimate as text.
    pub speed: String,
}

/// The status table.
pub struct StatusDisplay {
    jobs: Vec<JobInfo>,
    total_jobs: usize,
    start_time: u64,
    active_downloads: Vec<String>,
    total_bytes: u128,
    downloaded_bytes: u128,
    last_speed_update: u64,
    last_aggregate_bytes_snapshot: u128,
    current_speed_bps: u64,
    header_printed: bool,
    last_line_count: usize,
}

impl View for StatusDisplay {
    type V = DisplayView;

    closed spec fn view(&self) -> DisplayView {
        DisplayView {
            jobs: job_views(self.jobs@),
            total_jobs: self.total_jobs as nat,
            start_time: self.start_time,
            active_downloads: name_set(self.active_downloads@),
            total_bytes: self.total_bytes as nat,
            downloaded_bytes: self.downloaded_bytes as nat,
            last_speed_update: self.last_speed_update,
            last_aggregate_bytes_snapshot: self.last_aggregate_bytes_snapshot as nat,
            current_speed_bps: self.current_speed_bps as nat,
            header_printed: self.header_printed,
            last_line_count: self.last_line_count as nat,
        }
    }
}

impl StatusDisplay {
    /// What every table meets that this module hands out: the invariant of
    /// its view, and no name twice among the downloading jobs.
    pub closed spec fn wf(&self) -> bool {
        &&& self@.wf()
        &&& no_repeats(self.active_downloads@)
    }

    /// What the invariant of a table says of its view.
    pub proof fn lemma_view_is_wf(&self)
        requires
            self.wf(),
        ensures
            self@.wf(),
    {
    }

    /// A table without jobs, set up at time `now` (nanoseconds on a clock
    /// that never goes back).
    pub fn new(now: u64) -> (display: StatusDisplay)
        ensures
            display.wf(),
            display@ == DisplayView::initial(now),
    {
        let display = StatusDisplay {
            jobs: Vec::new(),
            total_jobs: 0,
            start_time: now,
            active_downloads: Vec::new(),
            total_bytes: 0,
            downloaded_bytes: 0,
            last_speed_update: now,
            last_aggregate_bytes_snapshot: 0,
            current_speed_bps: 0,
            header_printed: false,
            last_line_count: 0,
        };
        display
    }

    /// The place of the job of this name.
    fn find(&self, name: &String) -> (place: Option<usize>)
        ensures
            match place {
                Some(i) => i < self.jobs.len() && self.jobs[i as int].name@ == name@,
                None => !self@.knows(name@),
            },
            self@.wf() ==> match place {
                Some(i) => self@.knows(name@) && self@.index_of(name@) == i,
                None => true,
            },
    {
        let mut i: usize = 0;
        while i < self.jobs.len()
            invariant
                i <= self.jobs.len(),
                forall|k: int| 0 <= k < i ==> (#[trigger] self.jobs[k]).name@ != name@,
            decreases self.jobs.len() - i,
        {
            if self.jobs[i].name == *name {
                proof {
                    if self@.wf() {
                        lemma_index_of_is_the_place(self@, name@, i as int);
                    }
                }
                return Some(i);
            }
            i = i + 1;
        }
        None
    }

    /// The place of this name among the downloading jobs.
    fn find_active(&self, name: &String) -> (place: Option<usize>)
        ensures
            match place {
                Some(k) => k < self.active_downloads.len() && self.active_downloads[k as int]@
                    == name@,
                None => !self@.active_downloads.contains(name@),
            },
    {
        let mut k: usize = 0;
        while k < self.active_downloads.len()
            invariant
                k <= self.active_downloads.len(),
                forall|j: int| 0 <= j < k ==> (#[trigger] self.active_downloads[j])@ != name@,
            decreases self.active_downloads.len() - k,
        {
            if self.active_downloads[k] == *name {
                return Some(k);
            }
            k = k + 1;
        }
        None
    }

    /// Announces a job, see [`DisplayView::add_job`].
    pub fn add_job(
        &mut self,
        target_id: String,
        status: JobStatus,
        size_bytes: Option<u64>,
        now: u64,
    )
        requires
            old(self).wf(),
        ensures
            final(self).wf(),
            final(self)@ == old(self)@.add_job(target_id@, status, size_bytes, now),
    {
        let ghost before = self@;
        let ghost after = before.add_job(target_id@, status, size_bytes, now);
        proof {
            lemma_add_job_preserves_wf(before, target_id@, status, size_bytes, now);
        }
        if self.find(&target_id).is_some() {
            return ;
        }
        proof {
            lemma_sum_sizes_bound(before.jobs);
            assert(before.jobs.len() * u64::MAX + u64::MAX <= u128::MAX) by (nonlinear_arith)
                requires
                    before.jobs.len() <= u64::MAX,
            ;
        }
        let job = JobInfo {
            name: target_id.clone(),
            status,
            size_bytes,
            current_bytes_downloaded: if status == JobStatus::Downloading {
                Some(0)
            } else {
                None
            },
            start_time: if status != JobStatus::Waiting {
                Some(now)
            } else {
                None
            },
            pool_id: 0,
        };
        if let Some(bytes) = size_bytes {
            self.total_bytes = self.total_bytes + bytes as u128;
        }
        if status == JobStatus::Downloading {
            proof {
                lemma_name_set_push(self.active_downloads@, target_id);
            }
            self.active_downloads.push(target_id);
        }
        self.jobs.push(job);
        let count: usize = self.jobs.len();
        self.jobs[count - 1].pool_id = count;
        assert(self@ =~= after);
    }

    /// Changes the status of a job, see [`DisplayView::update_job_status`].
    pub fn update_job_status(
        &mut self,
        target_id: &str,
        status: JobStatus,
        size_bytes: Option<u64>,
        now: u64,
    )
        requires
            old(self).wf(),
        ensures
            final(self).wf(),
            final(self)@ == old(self)@.update_job_status(target_id@, status, size_bytes, now),
    {
        let ghost before = self@;
        let ghost after = before.update_job_status(target_id@, status, size_bytes, now);
        proof {
            lemma_update_job_status_preserves_wf(before, target_id@, status, size_bytes, now);
        }
        let name: String = target_id.to_owned();
        let i: usize = match self.find(&name) {
            Some(i) => i,
            None => {
                return ;
            },
        };
        proof {
            lemma_sum_sizes_update(before.jobs, i as int, after.jobs[i as int]);
            lemma_sum_sizes_bound(before.jobs);
            assert(before.jobs.len() * u64::MAX + u64::MAX <= u128::MAX) by (nonlinear_arith)
                requires
                    before.jobs.len() <= u64::MAX,
            ;
        }
        let was_downloading: bool = self.jobs[i].status == JobStatus::Downloading;
        let is_downloading: bool = status == JobStatus::Downloading;
        self.jobs[i].status = status;
        if self.jobs[i].start_time.is_none() && status != JobStatus::Waiting {
            self.jobs[i].start_time = Some(now);
        }
        if let Some(bytes) = size_bytes {
            let old_size: u128 = match self.jobs[i].size_bytes {
                Some(old_bytes) => old_bytes as u128,
                None => 0,
            };
            self.total_bytes = self.total_bytes - old_size + bytes as u128;
            self.jobs[i].size_bytes = Some(bytes);
        }
        if was_downloading && !is_downloading {
            match self.find_active(&name) {
                Some(k) => {
                    proof {
                        lemma_name_set_remove(self.active_downloads@, k as int);
                    }
                    let _ = self.active_downloads.remove(k);
                },
                None => {},
            }
            if let Some(bytes) = self.jobs[i].size_bytes {
                self.jobs[i].current_bytes_downloaded = Some(bytes);
                self.downloaded_bytes = self.downloaded_bytes.saturating_add(bytes as u128);
            }
        } else if !was_downloading && is_downloading {
            proof {
                if downloading(before.jobs).contains(name@) {
                    let k = choose|k: int|
                        0 <= k < before.jobs.len() && (#[trigger] before.jobs[k]).name == name@
                            && before.jobs[k].status == JobStatus::Downloading;
                    lemma_index_of_is_the_place(before, name@, k);
                }
                lemma_name_set_push(self.active_downloads@, name);
            }
            self.active_downloads.push(name);
            self.jobs[i].current_bytes_downloaded = Some(0);
        }
        assert(self@ =~= after);
    }

    /// Takes a progress report, see [`DisplayView::update_download_progress`].
    pub fn update_download_progress(
        &mut self,
        target_id: &str,
        bytes_so_far: u64,
        total_size: Option<u64>,
    )
        requires
            old(self).wf(),
        ensures
            final(self).wf(),
            final(self)@ == old(self)@.update_download_progress(
                target_id@,
                bytes_so_far,
                total_size,
            ),
    {
        let ghost before = self@;
        let ghost after = before.update_download_progress(target_id@, bytes_so_far, total_size);
        proof {
            lemma_update_download_progress_preserves_wf(
                before,
                target_id@,
                bytes_so_far,
                total_size,
            );
        }
        let name: String = target_id.to_owned();
        let i: usize = match self.find(&name) {
            Some(i) => i,
            None => {
                return ;
            },
        };
        proof {
            lemma_sum_sizes_update(before.jobs, i as int, after.jobs[i as int]);
            lemma_sum_sizes_bound(before.jobs);
            assert(before.jobs.len() * u64::MAX + u64::MAX <= u128::MAX) by (nonlinear_arith)
                requires
                    before.jobs.len() <= u64::MAX,
            ;
        }
        self.jobs[i].current_bytes_downloaded = Some(bytes_so_far);
        if let Some(total) = total_size {
            let old_size: u128 = match self.jobs[i].size_bytes {
                Some(old_bytes) => old_bytes as u128,
                None => 0,
            };
            self.total_bytes = self.total_bytes - old_size + total as u128;
            self.jobs[i].size_bytes = Some(total);
        }
        assert(self@ =~= after);
    }

    /// The bytes received by the downloading jobs, and the number of those
    /// jobs.
    fn live_bytes(&self) -> (live: (u128, usize))
        ensures
            live.0 == sum_live_bytes(self@.jobs),
            live.1 == count_status(self@.jobs, JobStatus::Downloading),
    {
        let mut sum: u128 = 0;
        let mut busy: usize = 0;
        let mut i: usize = 0;
        while i < self.jobs.len()
            invariant
                i <= self.jobs.len(),
                sum == sum_live_bytes(self@.jobs.take(i as int)),
                busy == count_status(self@.jobs.take(i as int), JobStatus::Downloading),
            decreases self.jobs.len() - i,
        {
            proof {
                let next = self@.jobs.take(i + 1);
                assert(next.drop_last() =~= self@.jobs.take(i as int));
                lemma_sum_live_bytes_bound(next);
                lemma_count_status_bound(next, JobStatus::Downloading);
                assert(next.len() * u64::MAX <= u128::MAX) by (nonlinear_arith)
                    requires
                        next.len() <= u64::MAX,
                ;
            }
            if self.jobs[i].status == JobStatus::Downloading {
                busy = busy + 1;
                if let Some(bytes) = self.jobs[i].current_bytes_downloaded {
                    sum = sum + bytes as u128;
                }
            }
            i = i + 1;
        }
        assert(self@.jobs.take(i as int) =~= self@.jobs);
        (sum, busy)
    }

    /// Samples the throughput, see [`DisplayView::update_speed`].
    pub fn update_speed(&mut self, now: u64)
        requires
            old(self).wf(),
        ensures
            final(self).wf(),
            final(self)@ == old(self)@.update_speed(now),
    {
        if now < self.last_speed_update || now - self.last_speed_update < SPEED_WINDOW_NANOS {
            return ;
        }
        let elapsed: u64 = now - self.last_speed_update;
        let (live, busy) = self.live_bytes();
        let gain: u128 = if live > self.last_aggregate_bytes_snapshot {
            live - self.last_aggregate_bytes_snapshot
        } else {
            0
        };
        if gain > 0 {
            self.current_speed_bps = throughput(gain, elapsed);
        } else if busy == 0 {
            self.current_speed_bps = 0;
        }
        self.last_speed_update = now;
        self.last_aggregate_bytes_snapshot = live;
    }

    /// The records of the known jobs, in the order of first sight.
    pub fn jobs(&self) -> (jobs: &Vec<JobInfo>)
        ensures
            job_views(jobs@) == self@.jobs,
    {
        &self.jobs
    }

    /// The names of the jobs held as downloading.
    pub fn active_downloads(&self) -> (names: &Vec<String>)
        ensures
            name_set(names@) == self@.active_downloads,
            self.wf() ==> no_repeats(names@),
    {
        &self.active_downloads
    }

    /// The status of the job of this name, if it is known.
    pub fn status_of(&self, target_id: &str) -> (status: Option<JobStatus>)
        requires
            self.wf(),
        ensures
            status == self@.status_of(target_id@),
    {
        let name: String = target_id.to_owned();
        match self.find(&name) {
            Some(i) => Some(self.jobs[i].status),
            None => None,
        }
    }

    /// When the table was set up, in nanoseconds.
    pub fn start_time(&self) -> (start: u64)
        ensures
            start == self@.start_time,
    {
        self.start_time
    }

    /// The number of jobs that the run announced.
    pub fn total_jobs(&self) -> (n: usize)
        ensures
            n == self@.total_jobs,
    {
        self.total_jobs
    }

    /// Takes the number of jobs that the run announces.
    pub fn set_total_jobs(&mut self, total_jobs: usize)
        requires
            old(self).wf(),
        ensures
            final(self).wf(),
            final(self)@ == (DisplayView { total_jobs: total_jobs as nat, ..old(self)@ }),
    {
        self.total_jobs = total_jobs;
    }

    /// The running total of the size estimates.
    pub fn total_bytes(&self) -> (bytes: u128)
        ensures
            bytes == self@.total_bytes,
            self.wf() ==> bytes == sum_sizes(self@.jobs),
    {
        self.total_bytes
    }

    /// The sizes of the jobs that have left `Downloading`, added up.
    pub fn downloaded_bytes(&self) -> (bytes: u128)
        ensures
            bytes == self@.downloaded_bytes,
    {
        self.downloaded_bytes
    }

    /// The throughput estimate, in bytes per second.
    pub fn current_speed_bps(&self) -> (speed: u64)
        ensures
            speed == self@.current_speed_bps,
    {
        self.current_speed_bps
    }

    /// Whether the table has been drawn.
    pub fn header_printed(&self) -> (drawn: bool)
        ensures
            drawn == self@.header_printed,
    {
        self.header_printed
    }

    /// The number of terminal lines that the last drawing took.
    pub fn last_line_count(&self) -> (lines: usize)
        ensures
            lines == self@.last_line_count,
    {
        self.last_line_count
    }

    /// The number of jobs that have the status `status`.
    pub fn count_with(&self, status: JobStatus) -> (n: usize)
        ensures
            n == count_status(self@.jobs, status),
    {
        let mut n: usize = 0;
        let mut i: usize = 0;
        while i < self.jobs.len()
            invariant
                i <= self.jobs.len(),
                n == count_status(self@.jobs.take(i as int), status),
                n <= i,
            decreases self.jobs.len() - i,
        {
            assert(self@.jobs.take(i + 1).drop_last() =~= self@.jobs.take(i as int));
            if self.jobs[i].status == status {
                n = n + 1;
            }
            i = i + 1;
        }
        assert(self@.jobs.take(i as int) =~= self@.jobs);
        n
    }

    /// The text of the header line.
    pub fn print_header(&self) -> (line: String)
        ensures
            is_header(line@),
    {
        header_row()
    }

    /// The text of the rows, one for each job in the order of first sight.
    pub fn build_job_rows(&self) -> (output: String)
        ensures
            is_rows(output@, self@.jobs),
    {
        let mut output: String = String::new();
        let ghost mut rows: Seq<Seq<char>> = Seq::empty();
        let mut i: usize = 0;
        while i < self.jobs.len()
            invariant
                i <= self.jobs.len(),
                rows.len() == i,
                forall|k: int| 0 <= k < i ==> is_job_row(#[trigger] rows[k], self.jobs[k]@),
                output@ == concat(rows),
            decreases self.jobs.len() - i,
        {
            let line: String = job_row(&self.jobs[i]);
            output.append(line.as_str());
            proof {
                assert(rows.push(line@).drop_last() =~= rows);
                rows = rows.push(line@);
            }
            i = i + 1;
        }
        output
    }

    /// The control sequence that takes the last drawing off the screen.
    pub fn clear_previous_output(&self) -> (text: String)
        ensures
            text@ == erase_text(self@.last_line_count),
    {
        erase(self.last_line_count)
    }

    /// The progress bar of the run: empty while no job was announced, else
    /// eight places of which as many are filled as the share of the jobs
    /// that have ended makes, rounded down; all of them where more jobs have
    /// ended than were announced.
    pub fn generate_progress_bar(&self, completed: usize, failed: usize) -> (text: String)
        ensures
            self@.total_jobs == 0 ==> text@ == Seq::<char>::empty(),
            self@.total_jobs > 0 ==> is_bar(
                text@,
                bar_fill((completed + failed) as nat, self@.total_jobs, BAR_WIDTH as nat),
            ),
    {
        if self.total_jobs == 0 {
            return String::new();
        }
        let total_done: u128 = completed as u128 + failed as u128;
        let total: u128 = self.total_jobs as u128;
        if total_done >= total {
            return bar(BAR_WIDTH);
        }
        let scaled: u128 = total_done * BAR_WIDTH as u128;
        let filled: u128 = scaled / total;
        assert(filled <= BAR_WIDTH) by (nonlinear_arith)
            requires
                filled == scaled / total,
                scaled == total_done * BAR_WIDTH,
                total_done < total,
        ;
        bar(filled as usize)
    }

    /// Draws the table at time `now`: samples the throughput and gives the
    /// text that replaces the last drawing on the terminal, with the
    /// progress bar and the throughput of the run. The drawing takes one
    /// line for each job and two more, unless a name holds a line end or the
    /// reset code.
    pub fn render(&mut self, now: u64) -> (frame: Frame)
        requires
            old(self).wf(),
        ensures
            final(self).wf(),
            final(self)@ == old(self)@.after_render(now, final(self)@.last_line_count),
            draws(frame.text@, old(self)@, final(self)@.last_line_count),
            plain_names(old(self)@.jobs) ==> final(self)@.last_line_count == old(self)@.jobs.len()
                + 2,
            frame.speed@ == speed_text(final(self)@.current_speed_bps),
            old(self)@.total_jobs == 0 ==> frame.progress_bar@ == Seq::<char>::empty(),
            old(self)@.total_jobs > 0 ==> is_bar(
                frame.progress_bar@,
                old(self)@.filled(BAR_WIDTH as nat),
            ),
    {
        self.update_speed(now);
        let mut text: String = if self.header_printed {
            self.clear_previous_output()
        } else {
            String::new()
        };
        let header: String = self.print_header();
        let rows: String = self.build_job_rows();
        let rule: String = rule_row();
        let mut body: String = header.clone();
        body.append(rows.as_str());
        body.append(rule.as_str());
        let lines: usize = count_char(body.as_str(), '\n');
        text.append(body.as_str());
        self.header_printed = true;
        self.last_line_count = lines;
        let completed: usize = self.count_with(JobStatus::Success);
        let failed: usize = self.count_with(JobStatus::Failed);
        let progress_bar: String = self.generate_progress_bar(completed, failed);
        let speed: String = format_speed(self.current_speed_bps);
        proof {
            if plain_names(old(self)@.jobs) {
                lemma_drawing_lines(text@, old(self)@, lines as nat);
            }
        }
        Frame { text, progress_bar, speed }
    }
}

/// The throughput of `gain` bytes over `nanos` nanoseconds, see [`rate`].
fn throughput(gain: u128, nanos: u64) -> (speed: u64)
    requires
        nanos > 0,
    ensures
        speed == rate(gain as nat, nanos as nat),
{
    match gain.checked_mul(NANOS_PER_SEC as u128) {
        Some(scaled) => {
            let exact: u128 = scaled / (nanos as u128);
            if exact > u64::MAX as u128 {
                u64::MAX
            } else {
                exact as u64
            }
        },
        None => {
            assert(gain * NANOS_PER_SEC / (nanos as int) > u64::MAX) by (nonlinear_arith)
                requires
                    gain * NANOS_PER_SEC > u128::MAX,
                    0 < nanos <= u64::MAX,
            ;
            u64::MAX
        },
    }
}

/// Whether the event tells of one job.
pub fn tells_of_a_job(event: &PipelineEvent) -> (yes: bool)
    ensures
        yes == is_job_event(*event),
{
    match event {
        PipelineEvent::DownloadStarted { .. } => true,
        PipelineEvent::DownloadProgressUpdate { .. } => true,
        PipelineEvent::DownloadFinished { .. } => true,
        PipelineEvent::DownloadCached { .. } => true,
        PipelineEvent::DownloadFailed { .. } => true,
        PipelineEvent::JobProcessingStarted { .. } => true,
        PipelineEvent::BuildStarted { .. } => true,
        PipelineEvent::InstallStarted { .. } => true,
        PipelineEvent::LinkStarted { .. } => true,
        PipelineEvent::JobSuccess { .. } => true,
        PipelineEvent::JobFailed { .. } => true,
        _ => false,
    }
}

impl StatusDisplay {
    /// Takes an event into the table, see [`DisplayView::apply`].
    pub fn apply(&mut self, event: &PipelineEvent, now: u64)
        requires
            old(self).wf(),
        ensures
            final(self).wf(),
            final(self)@ == old(self)@.apply(*event, now),
    {
        match event {
            PipelineEvent::PipelineStarted { total_jobs } => {
                self.set_total_jobs(*total_jobs);
            },
            PipelineEvent::DownloadStarted { target_id, .. } => {
                self.add_job(target_id.clone(), JobStatus::Waiting, None, now);
                self.update_job_status(target_id.as_str(), JobStatus::Downloading, None, now);
            },
            PipelineEvent::DownloadProgressUpdate { target_id, bytes_so_far, total_size } => {
                self.add_job(target_id.clone(), JobStatus::Waiting, None, now);
                self.update_download_progress(target_id.as_str(), *bytes_so_far, *total_size);
            },
            PipelineEvent::DownloadFinished { target_id, size_bytes, .. } => {
                self.add_job(target_id.clone(), JobStatus::Waiting, None, now);
                self.update_job_status(
                    target_id.as_str(),
                    JobStatus::Downloaded,
                    Some(*size_bytes),
                    now,
                );
            },
            PipelineEvent::DownloadCached { target_id, size_bytes } => {
                self.add_job(target_id.clone(), JobStatus::Waiting, None, now);
                self.update_job_status(
                    target_id.as_str(),
                    JobStatus::Cached,
                    Some(*size_bytes),
                    now,
                );
            },
            PipelineEvent::DownloadFailed { target_id, .. } => {
                self.add_job(target_id.clone(), JobStatus::Waiting, None, now);
                self.update_job_status(target_id.as_str(), JobStatus::Failed, None, now);
            },
            PipelineEvent::JobProcessingStarted { target_id } => {
                self.add_job(target_id.clone(), JobStatus::Waiting, None, now);
                self.update_job_status(target_id.as_str(), JobStatus::Processing, None, now);
            },
            PipelineEvent::BuildStarted { target_id } => {
                self.add_job(target_id.clone(), JobStatus::Waiting, None, now);
                self.update_job_status(target_id.as_str(), JobStatus::Processing, None, now);
            },
            PipelineEvent::InstallStarted { target_id } => {
                self.add_job(target_id.clone(), JobStatus::Waiting, None, now);
                self.update_job_status(target_id.as_str(), JobStatus::Installing, None, now);
            },
            PipelineEvent::LinkStarted { target_id } => {
                self.add_job(target_id.clone(), JobStatus::Waiting, None, now);
                self.update_job_status(target_id.as_str(), JobStatus::Linking, None, now);
            },
            PipelineEvent::JobSuccess { target_id, .. } => {
                self.add_job(target_id.clone(), JobStatus::Waiting, None, now);
                self.update_job_status(target_id.as_str(), JobStatus::Success, None, now);
            },
            PipelineEvent::JobFailed { target_id, .. } => {
                self.add_job(target_id.clone(), JobStatus::Waiting, None, now);
                self.update_job_status(target_id.as_str(), JobStatus::Failed, None, now);
            },
            _ => {},
        }
    }
}

} // verus!
