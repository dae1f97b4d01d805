//! The monitor over a whole stream of wake-ups: the loop that takes them
//! one after the other, and what holds of its result. The status that the
//! table shows for a job is the one that the last event about that job gave
//! it, so that events lost on the way do not show once a later one has
//! arrived.

use crate::event::PipelineEvent;
use crate::model::{
    distinct_names, is_job_event, lemma_add_job_preserves_wf, lemma_apply_preserves_wf,
    lemma_event_decides_status, lemma_index_of_is_the_place,
    lemma_update_download_progress_preserves_wf, lemma_update_job_status_preserves_wf,
    status_given, subject, DisplayView, JobStatus,
};
use crate::monitor::{ends_loop, lemma_steps_preserve_wf, Monitor, MonitorView, Reaction, Wake};
use vstd::prelude::*;
use vstd::string::*;

verus! {

/// The status of a job after an event, from its status before: an event
/// about the job that gives a status decides it; a progress report about the
/// job leaves it, and finds an unknown job `Waiting`; any other event leaves
/// it as it was.
pub open spec fn status_after_event(
    before: Option<JobStatus>,
    event: PipelineEvent,
    name: Seq<char>,
) -> Option<JobStatus> {
    if is_job_event(event) && subject(event) == name {
        if status_given(event) is Some {
            status_given(event)
        } else if before is Some {
            before
        } else {
            Some(JobStatus::Waiting)
        }
    } else {
        before
    }
}

/// The status of a job after a wake-up, from its status before: only an
/// event can change it.
pub open spec fn status_after_wake(
    before: Option<JobStatus>,
    wake: Wake,
    name: Seq<char>,
) -> Option<JobStatus> {
    match wake {
        Wake::Event { event, .. } => status_after_event(before, event, name),
        _ => before,
    }
}

/// The status of a job after a stream of wake-ups, from its status before.
pub open spec fn status_after_stream(
    before: Option<JobStatus>,
    wakes: Seq<Wake>,
    name: Seq<char>,
) -> Option<JobStatus>
    decreases wakes.len(),
{
    if wakes.len() == 0 {
        before
    } else {
        status_after_wake(status_after_stream(before, wakes.drop_last(), name), wakes.last(), name)
    }
}

/// Whether the stream of wake-ups can take the monitor from `before` to
/// `after`, one step after the other, with `output` written on the way.
pub open spec fn runs(
    before: MonitorView,
    wakes: Seq<Wake>,
    after: MonitorView,
    output: Seq<char>,
) -> bool
    decreases wakes.len(),
{
    if wakes.len() == 0 {
        after == before && output == Seq::<char>::empty()
    } else {
        exists|mid: MonitorView, earlier: Seq<char>, last: Seq<char>, finished: bool|
            #![trigger mid.steps(wakes.last(), after, last, finished), earlier + last]
            {
                &&& runs(before, wakes.drop_last(), mid, earlier)
                &&& mid.steps(wakes.last(), after, last, finished)
                &&& output == earlier + last
            }
    }
}

/// Whether `taken` is the number of wake-ups that the loop of the monitor
/// takes from the stream: all of them, or those up to the first that ends
/// the loop.
pub open spec fn is_taken(wakes: Seq<Wake>, taken: int) -> bool {
    &&& 0 <= taken <= wakes.len()
    &&& forall|k: int| 0 <= k < taken - 1 ==> !ends_loop(#[trigger] wakes[k])
    &&& taken < wakes.len() ==> taken > 0 && ends_loop(wakes[taken - 1])
}

/// Whether the loop of the monitor, given the stream of wake-ups, takes the
/// first `taken` of them and so goes from `before` to `after` with `output`
/// written, and has `finished` or not.
pub open spec fn loops(
    before: MonitorView,
    wakes: Seq<Wake>,
    taken: int,
    after: MonitorView,
    output: Seq<char>,
    finished: bool,
) -> bool {
    &&& is_taken(wakes, taken)
    &&& runs(before, wakes.take(taken), after, output)
    &&& finished == (taken > 0 && ends_loop(wakes[taken - 1]))
}

/// Two tables with the same jobs show the same status for every name.
pub proof fn lemma_status_of_depends_on_jobs(a: DisplayView, b: DisplayView, name: Seq<char>)
    requires
        a.jobs == b.jobs,
    ensures
        a.status_of(name) == b.status_of(name),
        a.knows(name) == b.knows(name),
{
}

/// A change to a job of another name leaves the status of this one.
proof fn lemma_other_job_keeps_status(
    before: DisplayView,
    after: DisplayView,
    other: Seq<char>,
    name: Seq<char>,
)
    requires
        distinct_names(before.jobs),
        distinct_names(after.jobs),
        other != name,
        before.jobs.len() <= after.jobs.len() <= before.jobs.len() + 1,
        after.jobs.len() > before.jobs.len() ==> after.jobs[before.jobs.len() as int].name
            == other,
        forall|i: int|
            #![trigger before.jobs[i]]
            0 <= i < before.jobs.len() ==> after.jobs[i].name == before.jobs[i].name && (
            before.jobs[i].name != other ==> after.jobs[i] == before.jobs[i]),
    ensures
        after.status_of(name) == before.status_of(name),
{
    if before.knows(name) {
        lemma_index_of_is_the_place(after, name, before.index_of(name));
    } else if after.knows(name) {
        let k = after.index_of(name);
        if k < before.jobs.len() {
            assert(before.jobs[k].name == name);
        }
    }
}

/// What an event does to the status of any one job.
pub proof fn lemma_status_after_event(
    view: DisplayView,
    event: PipelineEvent,
    now: u64,
    name: Seq<char>,
)
    requires
        view.wf(),
    ensures
        view.apply(event, now).wf(),
        view.apply(event, now).status_of(name) == status_after_event(
            view.status_of(name),
            event,
            name,
        ),
{
    lemma_apply_preserves_wf(view, event, now);
    let after = view.apply(event, now);
    if !is_job_event(event) {
        lemma_status_of_depends_on_jobs(view, after, name);
    } else {
        let who = subject(event);
        let seen = view.seen(who, now);
        lemma_add_job_preserves_wf(view, who, JobStatus::Waiting, None, now);
        if who == name {
            if status_given(event) is Some {
                lemma_event_decides_status(view, event, now);
            } else {
                match event {
                    PipelineEvent::DownloadProgressUpdate { target_id, bytes_so_far, total_size } => {
                        lemma_update_download_progress_preserves_wf(
                            seen,
                            name,
                            bytes_so_far,
                            total_size,
                        );
                        lemma_index_of_is_the_place(after, name, seen.index_of(name));
                        if view.knows(name) {
                            lemma_index_of_is_the_place(seen, name, view.index_of(name));
                        } else {
                            lemma_index_of_is_the_place(seen, name, view.jobs.len() as int);
                        }
                    },
                    _ => {},
                }
            }
        } else {
            match event {
                PipelineEvent::DownloadProgressUpdate { target_id, bytes_so_far, total_size } => {
                    lemma_update_download_progress_preserves_wf(
                        seen,
                        who,
                        bytes_so_far,
                        total_size,
                    );
                },
                PipelineEvent::DownloadFinished { target_id, size_bytes, .. } => {
                    lemma_update_job_status_preserves_wf(
                        seen,
                        who,
                        JobStatus::Downloaded,
                        Some(size_bytes),
                        now,
                    );
                },
                PipelineEvent::DownloadCached { target_id, size_bytes } => {
                    lemma_update_job_status_preserves_wf(
                        seen,
                        who,
                        JobStatus::Cached,
                        Some(size_bytes),
                        now,
                    );
                },
                _ => {
                    lemma_update_job_status_preserves_wf(
                        seen,
                        who,
                        status_given(event)->0,
                        None,
                        now,
                    );
                },
            }
            lemma_other_job_keeps_status(view, after, who, name);
        }
    }
}

/// What one step of the monitor does to the status of any one job.
pub proof fn lemma_status_after_wake(
    before: MonitorView,
    wake: Wake,
    after: MonitorView,
    output: Seq<char>,
    finished: bool,
    name: Seq<char>,
)
    requires
        before.display.wf(),
        before.steps(wake, after, output, finished),
    ensures
        after.display.wf(),
        after.display.status_of(name) == status_after_wake(
            before.display.status_of(name),
            wake,
            name,
        ),
{
    match wake {
        Wake::Event { event, now } => {
            lemma_status_after_event(before.display, event, now, name);
            lemma_status_of_depends_on_jobs(after.display, before.display.apply(event, now), name);
        },
        _ => {
            lemma_status_of_depends_on_jobs(after.display, before.display, name);
        },
    }
}

/// After any stream of wake-ups the table keeps its invariant, and the
/// status that it shows for a job is the one that the stream gives it.
pub proof fn lemma_status_after_stream(
    before: MonitorView,
    wakes: Seq<Wake>,
    after: MonitorView,
    output: Seq<char>,
    name: Seq<char>,
)
    requires
        before.display.wf(),
        runs(before, wakes, after, output),
    ensures
        after.display.wf(),
        after.display.status_of(name) == status_after_stream(
            before.display.status_of(name),
            wakes,
            name,
        ),
    decreases wakes.len(),
{
    if wakes.len() > 0 {
        let (mid, earlier, last, finished) = choose|
            mid: MonitorView,
            earlier: Seq<char>,
            last: Seq<char>,
            finished: bool,
        |
            #![trigger mid.steps(wakes.last(), after, last, finished), earlier + last]
            {
                &&& runs(before, wakes.drop_last(), mid, earlier)
                &&& mid.steps(wakes.last(), after, last, finished)
                &&& output == earlier + last
            };
        lemma_status_after_stream(before, wakes.drop_last(), mid, earlier, name);
        lemma_status_after_wake(mid, wakes.last(), after, last, finished, name);
    }
}

/// A lag of the event stream, wherever it falls, leaves the status of every
/// job as the stream without it gives it.
pub proof fn lemma_lag_leaves_statuses(
    before: Option<JobStatus>,
    earlier: Seq<Wake>,
    missed: u64,
    later: Seq<Wake>,
    name: Seq<char>,
)
    ensures
        status_after_stream(before, earlier + seq![Wake::Lagged { missed }] + later, name)
            == status_after_stream(before, earlier + later, name),
    decreases later.len(),
{
    let lag = Wake::Lagged { missed };
    if later.len() == 0 {
        assert(earlier + seq![lag] + later =~= earlier.push(lag));
        assert(earlier.push(lag).drop_last() =~= earlier);
    } else {
        lemma_lag_leaves_statuses(before, earlier, missed, later.drop_last(), name);
        assert((earlier + seq![lag] + later).drop_last() =~= earlier + seq![lag]
            + later.drop_last());
        assert((earlier + later).drop_last() =~= earlier + later.drop_last());
    }
}

/// Once an event has given a job a status, nothing that came before it
/// matters to that status: whatever was lost earlier, and whatever follows
/// the event, the job ends with the same status.
pub proof fn lemma_status_forgets_what_came_before(
    one: Option<JobStatus>,
    other: Option<JobStatus>,
    lossless: Seq<Wake>,
    lossy: Seq<Wake>,
    event: PipelineEvent,
    now: u64,
    later: Seq<Wake>,
    name: Seq<char>,
)
    requires
        is_job_event(event),
        subject(event) == name,
        status_given(event) is Some,
    ensures
        status_after_stream(one, lossless.push(Wake::Event { event, now }) + later, name)
            == status_after_stream(other, lossy.push(Wake::Event { event, now }) + later, name),
    decreases later.len(),
{
    let wake = Wake::Event { event, now };
    if later.len() > 0 {
        lemma_status_forgets_what_came_before(
            one,
            other,
            lossless,
            lossy,
            event,
            now,
            later.drop_last(),
            name,
        );
        assert((lossless.push(wake) + later).drop_last() =~= lossless.push(wake)
            + later.drop_last());
        assert((lossy.push(wake) + later).drop_last() =~= lossy.push(wake) + later.drop_last());
    }
}

/// The loop of the monitor over a stream of wake-ups that is at hand: takes
/// them in turn until one ends the loop or none is left, and gives what was
/// written and whether the loop has ended.
pub fn handle_events(monitor: &mut Monitor, wakes: &Vec<Wake>) -> (reaction: Reaction)
    requires
        old(monitor).wf(),
    ensures
        final(monitor).wf(),
        exists|taken: int|
            loops(
                old(monitor)@,
                wakes@,
                taken,
                final(monitor)@,
                reaction.output@,
                reaction.finished,
            ),
{
    let ghost before = monitor@;
    let mut output: String = String::new();
    let mut finished: bool = false;
    let mut i: usize = 0;
    while i < wakes.len() && !finished
        invariant
            monitor.wf(),
            i <= wakes.len(),
            forall|k: int| 0 <= k < i - 1 ==> !ends_loop(#[trigger] wakes[k]),
            finished == (i > 0 && ends_loop(wakes[i - 1])),
            runs(before, wakes@.take(i as int), monitor@, output@),
        decreases wakes.len() - i,
    {
        let ghost mid = monitor@;
        let ghost earlier = output@;
        proof {
            monitor.lemma_view_is_wf();
        }
        let reaction = monitor.handle_event(&wakes[i]);
        output.append(reaction.output.as_str());
        finished = reaction.finished;
        proof {
            let next = wakes@.take(i + 1);
            assert(next.drop_last() =~= wakes@.take(i as int));
            lemma_steps_preserve_wf(mid, wakes[i as int], monitor@, reaction.output@, finished);
            assert(runs(before, next.drop_last(), mid, earlier) && mid.steps(
                next.last(),
                monitor@,
                reaction.output@,
                finished,
            ));
        }
        i = i + 1;
    }
    let reaction = Reaction { output, finished };
    assert(loops(before, wakes@, i as int, monitor@, reaction.output@, reaction.finished));
    reaction
}

} // verus!
