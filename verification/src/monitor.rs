//! The monitor of a pipeline run: one step for every wake-up of its loop,
//! from the state it holds and what woke it to the state it holds next and
//! the text it writes.

use crate::event::{JobAction, PipelineEvent, PipelinePackageType, Seconds};
use crate::model::{
    count_status, is_job_event, keeps_jobs, lemma_apply_preserves_wf,
    lemma_event_decides_status, status_given, subject, DisplayView, JobStatus,
};
use crate::paint::{
    bold, holds_reset, shown, shows, tint_style, tinted, unstyled, with_bold, Tint,
};
use crate::status::{draws, tells_of_a_job, StatusDisplay};
use crate::units::{decimal, decimal_text, digit_char, round_div, round_half_even};
use vstd::prelude::*;
use vstd::string::*;

verus! {

/// What wakes the monitor.
#[derive(Debug)]
pub enum Wake {
    /// The refresh timer fired at time `now`.
    Tick { now: u64 },
    /// An event arrived at time `now`.
    Event { event: PipelineEvent, now: u64 },
    /// The event stream dropped `missed` events that the monitor was too
    /// slow to take.
    Lagged { missed: u64 },
    /// The event stream has no sender left; this was found at time `now`.
    Closed { now: u64 },
}

/// What the monitor asks of its caller after a step.
#[derive(Debug)]
pub struct Reaction {
    /// What is to be written to the terminal; the caller flushes it.
    pub output: String,
    /// Whether the loop is over.
    pub finished: bool,
}

/// The state of the monitor.
#[verifier::ext_equal]
pub struct MonitorView {
    pub display: DisplayView,
    /// The log lines that wait for the end of the run.
    pub logs: Seq<Seq<char>>,
    /// Whether the start of the run has been seen.
    pub pipeline_active: bool,
}

/// The word for what a successful job did.
pub open spec fn action_word(action: JobAction) -> Seq<char> {
    match action {
        JobAction::Install => "Installed"@,
        JobAction::Upgrade => "Upgraded"@,
        JobAction::Reinstall => "Reinstalled"@,
    }
}

/// The word for the kind of a package.
pub open spec fn kind_word(kind: PipelinePackageType) -> Seq<char> {
    match kind {
        PipelinePackageType::Formula => "Formula"@,
        PipelinePackageType::Cask => "Cask"@,
    }
}

/// Whether the event leaves a log line for the end of the run.
pub open spec fn is_logged(event: PipelineEvent) -> bool {
    match event {
        PipelineEvent::DownloadFailed { .. } => true,
        PipelineEvent::JobSuccess { .. } => true,
        PipelineEvent::JobFailed { .. } => true,
        PipelineEvent::LogInfo { .. } => true,
        PipelineEvent::LogWarn { .. } => true,
        PipelineEvent::LogError { .. } => true,
        _ => false,
    }
}

/// Whether `line` is the log line of the event.
pub open spec fn is_log_line(event: PipelineEvent, line: Seq<char>) -> bool {
    match event {
        PipelineEvent::DownloadFailed { target_id, error, .. } => exists|
            a: Seq<char>,
            b: Seq<char>,
            c: Seq<char>,
        |
            #![trigger a + " "@ + b + ": "@ + c]
            {
                &&& shows(a, tint_style(Tint::Red), "Download failed:"@)
                &&& !holds_reset(target_id@) ==> shows(b, tint_style(Tint::Cyan), target_id@)
                &&& !holds_reset(error@) ==> shows(c, tint_style(Tint::Red), error@)
                &&& line == a + " "@ + b + ": "@ + c
            },
        PipelineEvent::JobSuccess { target_id, action, pkg_type } => exists|
            a: Seq<char>,
            b: Seq<char>,
        |
            #![trigger a + ": "@ + b]
            {
                &&& shows(a, tint_style(Tint::Green), action_word(action))
                &&& !holds_reset(target_id@) ==> shows(b, tint_style(Tint::Cyan), target_id@)
                &&& line == a + ": "@ + b + " ("@ + kind_word(pkg_type) + ")"@
            },
        PipelineEvent::JobFailed { target_id, error } => exists|
            a: Seq<char>,
            b: Seq<char>,
            c: Seq<char>,
        |
            #![trigger a + " "@ + b + ": "@ + c]
            {
                &&& shows(a, with_bold(tint_style(Tint::Red)), "✗"@)
                &&& !holds_reset(target_id@) ==> shows(b, tint_style(Tint::Cyan), target_id@)
                &&& !holds_reset(error@) ==> shows(c, tint_style(Tint::Red), error@)
                &&& line == a + " "@ + b + ": "@ + c
            },
        PipelineEvent::LogInfo { message } => line == message@,
        PipelineEvent::LogWarn { message } => !holds_reset(message@) ==> shows(
            line,
            tint_style(Tint::Yellow),
            message@,
        ),
        PipelineEvent::LogError { message } => !holds_reset(message@) ==> shows(
            line,
            tint_style(Tint::Red),
            message@,
        ),
        _ => false,
    }
}

/// A number of hundredths with two digits behind the point.
pub open spec fn two_decimals(hundredths: nat) -> Seq<char> {
    decimal(hundredths / 100) + seq![
        '.',
        digit_char((hundredths / 10 % 10) as int),
        digit_char((hundredths % 10) as int),
    ]
}

/// A span of time in seconds with two decimal digits, rounded half to
/// even.
pub open spec fn seconds_text(span: Seconds) -> Seq<char> {
    two_decimals(round_half_even(span.millis as nat, 10))
}

/// The log lines, each with the end of its line.
pub open spec fn log_lines(logs: Seq<Seq<char>>) -> Seq<char>
    decreases logs.len(),
{
    if logs.len() == 0 {
        Seq::empty()
    } else {
        log_lines(logs.drop_last()) + logs.last() + "\n"@
    }
}

/// What follows the summary of the run: nothing where no log line waits,
/// else an empty line and the log lines.
pub open spec fn log_tail(logs: Seq<Seq<char>>) -> Seq<char> {
    if logs.len() == 0 {
        Seq::empty()
    } else {
        "\n"@ + log_lines(logs)
    }
}

/// Whether `text` is what the event makes the monitor write besides the
/// table, with `logs` the log lines that wait.
pub open spec fn is_notice(event: PipelineEvent, logs: Seq<Seq<char>>, text: Seq<char>) -> bool {
    match event {
        PipelineEvent::PipelineStarted { .. } => exists|a: Seq<char>|
            #![trigger a + "\n"@]
            shows(a, with_bold(tint_style(Tint::Cyan)), "Starting pipeline."@) && text == a
                + "\n"@,
        PipelineEvent::DependencyResolutionStarted => exists|a: Seq<char>|
            #![trigger a + "\n"@]
            shows(a, tint_style(Tint::Cyan), "Resolving dependencies"@) && text == a + "\n"@,
        PipelineEvent::PlanningFinished { job_count } => exists|a: Seq<char>|
            #![trigger a + " "@]
            shows(a, with_bold(Seq::empty()), "Planning finished. Jobs:"@) && text == a + " "@
                + decimal(job_count as nat)
                + "\n\n"@,
        PipelineEvent::PipelineFinished { duration_secs, success_count, fail_count } => exists|
            a: Seq<char>,
        |
            #![trigger "\n"@ + a]
            shows(a, with_bold(Seq::empty()), "Pipeline finished"@) && text == "\n"@ + a + " in "@
                + seconds_text(
                duration_secs,
            ) + "s ("@ + decimal(success_count as nat) + " succeeded, "@ + decimal(
                fail_count as nat,
            ) + " failed)\n"@ + log_tail(logs),
        _ => text == Seq::<char>::empty(),
    }
}

impl MonitorView {
    /// The monitor before any wake-up, set up at time `now`.
    pub open spec fn initial(now: u64) -> MonitorView {
        MonitorView {
            display: DisplayView::initial(now),
            logs: Seq::empty(),
            pipeline_active: false,
        }
    }

    /// Whether the wake-up makes the monitor draw the table: a tick once
    /// the run has started and the table has been drawn before; an event
    /// that tells of a job once the run has started; the end of the run
    /// if the table has been drawn before.
    pub open spec fn redraws(self, wake: Wake) -> bool {
        match wake {
            Wake::Tick { .. } => self.pipeline_active && self.display.header_printed,
            Wake::Event { event, .. } => if is_job_event(event) {
                self.pipeline_active
            } else {
                event is PipelineFinished && self.display.header_printed
            },
            _ => false,
        }
    }

    /// The end of the run as the monitor itself knows it when the event
    /// stream closes at time `now`: the time since the monitor was set up,
    /// and the numbers of jobs that it has seen succeed and fail.
    pub open spec fn closing_event(self, now: u64) -> PipelineEvent {
        PipelineEvent::PipelineFinished {
            duration_secs: elapsed(self.display.start_time, now),
            success_count: count_status(self.display.jobs, JobStatus::Success) as usize,
            fail_count: count_status(self.display.jobs, JobStatus::Failed) as usize,
        }
    }

    /// Whether an event that arrives at time `now` takes the monitor from
    /// `self` to `after` with `output` written and the loop `finished` or
    /// not.
    ///
    /// The event is taken into the table; it may leave a log line; the
    /// table is drawn where [`MonitorView::redraws`] says so, from the state
    /// that the event left; and what the event announces is written behind
    /// the drawing. The end of the run ends the loop.
    pub open spec fn event_steps(
        self,
        event: PipelineEvent,
        now: u64,
        after: MonitorView,
        output: Seq<char>,
        finished: bool,
    ) -> bool {
        let applied = self.display.apply(event, now);
        let redraw = self.redraws(Wake::Event { event, now });
        &&& finished == (event is PipelineFinished)
        &&& after.pipeline_active == (self.pipeline_active || event is PipelineStarted)
        &&& if is_logged(event) {
            &&& after.logs.len() == self.logs.len() + 1
            &&& after.logs.drop_last() == self.logs
            &&& is_log_line(event, after.logs.last())
        } else {
            after.logs == self.logs
        }
        &&& exists|frame: Seq<char>, notice: Seq<char>|
            #![trigger frame + notice]
            {
                &&& output == frame + notice
                &&& is_notice(event, self.logs, notice)
                &&& if redraw {
                    &&& after.display == applied.after_render(now, after.display.last_line_count)
                    &&& draws(frame, applied, after.display.last_line_count)
                } else {
                    &&& after.display == applied
                    &&& frame == Seq::<char>::empty()
                }
            }
    }

    /// Whether the wake-up takes the monitor from `self` to `after` with
    /// `output` written and the loop `finished` or not.
    ///
    /// A lag of the event stream changes nothing and writes nothing. A tick
    /// draws the table or does nothing. An event does what
    /// [`MonitorView::event_steps`] says. The closing of the stream ends the
    /// loop as the end of the run does, with the summary that
    /// [`MonitorView::closing_event`] gives.
    pub open spec fn steps(
        self,
        wake: Wake,
        after: MonitorView,
        output: Seq<char>,
        finished: bool,
    ) -> bool {
        match wake {
            Wake::Lagged { .. } => after == self && output == Seq::<char>::empty() && !finished,
            Wake::Closed { now } => self.event_steps(
                self.closing_event(now),
                now,
                after,
                output,
                finished,
            ),
            Wake::Tick { now } => {
                &&& !finished
                &&& after.logs == self.logs
                &&& after.pipeline_active == self.pipeline_active
                &&& if self.redraws(wake) {
                    &&& after.display == self.display.after_render(
                        now,
                        after.display.last_line_count,
                    )
                    &&& draws(output, self.display, after.display.last_line_count)
                } else {
                    &&& after.display == self.display
                    &&& output == Seq::<char>::empty()
                }
            },
            Wake::Event { event, now } => self.event_steps(event, now, after, output, finished),
        }
    }
}

/// Whether the wake-up ends the loop of the monitor: the end of the run
/// does, and the closing of the event stream.
pub open spec fn ends_loop(wake: Wake) -> bool {
    match wake {
        Wake::Event { event, .. } => event is PipelineFinished,
        Wake::Closed { .. } => true,
        _ => false,
    }
}

/// Nanoseconds in a millisecond.
pub const NANOS_PER_MILLI: u64 = 1_000_000;

/// The time from `start` to `now`, both in nanoseconds, in whole
/// milliseconds; none where the clock went back.
pub open spec fn elapsed(start: u64, now: u64) -> Seconds {
    Seconds {
        millis: if now > start {
            ((now - start) / (NANOS_PER_MILLI as int)) as u64
        } else {
            0
        },
    }
}

/// No step of the monitor breaks the invariant of the table or moves a
/// known job; a lag of the event stream changes nothing at all; and after
/// an event that gives its job a status, the job has that status.
pub proof fn lemma_steps_preserve_wf(
    before: MonitorView,
    wake: Wake,
    after: MonitorView,
    output: Seq<char>,
    finished: bool,
)
    requires
        before.display.wf(),
        before.steps(wake, after, output, finished),
    ensures
        after.display.wf(),
        keeps_jobs(before.display, after.display),
        finished == ends_loop(wake),
        wake is Lagged ==> after == before,
        wake matches Wake::Event { event, .. } ==> (status_given(event) is Some
            ==> after.display.status_of(subject(event)) == status_given(event)),
{
    match wake {
        Wake::Event { event, now } => {
            lemma_apply_preserves_wf(before.display, event, now);
            if status_given(event) is Some {
                lemma_event_decides_status(before.display, event, now);
            }
        },
        _ => {},
    }
}

/// The views of the log lines.
pub open spec fn line_views(lines: Seq<String>) -> Seq<Seq<char>> {
    Seq::new(lines.len(), |i: int| lines[i]@)
}

/// The monitor of one pipeline run.
pub struct Monitor {
    display: StatusDisplay,
    logs_buffer: Vec<String>,
    pipeline_active: bool,
}

impl View for Monitor {
    type V = MonitorView;

    closed spec fn view(&self) -> MonitorView {
        MonitorView {
            display: self.display@,
            logs: line_views(self.logs_buffer@),
            pipeline_active: self.pipeline_active,
        }
    }
}

/// Writes a number of hundredths with two digits behind the point.
pub fn two_decimals_text(hundredths: u128) -> (text: String)
    ensures
        text@ == two_decimals(hundredths as nat),
{
    let mut text: String = decimal_text(hundredths / 100);
    let tens: String = decimal_text(hundredths / 10 % 10);
    let ones: String = decimal_text(hundredths % 10);
    proof {
        reveal_strlit(".");
    }
    text.append(".");
    text.append(tens.as_str());
    text.append(ones.as_str());
    text
}

/// The log line that the event leaves for the end of the run, if it leaves
/// one.
pub fn log_line(event: &PipelineEvent) -> (line: Option<String>)
    ensures
        line is Some == is_logged(*event),
        line matches Some(text) ==> is_log_line(*event, text@),
{
    proof {
        reveal_strlit("Download failed:");
        reveal_strlit("Installed");
        reveal_strlit("Upgraded");
        reveal_strlit("Reinstalled");
        reveal_strlit("✗");
    }
    match event {
        PipelineEvent::DownloadFailed { target_id, error, .. } => {
            let mut line: String = shown(&tinted("Download failed:", Tint::Red));
            let b: String = shown(&tinted(target_id.as_str(), Tint::Cyan));
            let c: String = shown(&tinted(error.as_str(), Tint::Red));
            line.append(" ");
            line.append(b.as_str());
            line.append(": ");
            line.append(c.as_str());
            Some(line)
        },
        PipelineEvent::JobSuccess { target_id, action, pkg_type } => {
            let word: &'static str = match action {
                JobAction::Install => "Installed",
                JobAction::Upgrade => "Upgraded",
                JobAction::Reinstall => "Reinstalled",
            };
            let kind: &'static str = match pkg_type {
                PipelinePackageType::Formula => "Formula",
                PipelinePackageType::Cask => "Cask",
            };
            let mut line: String = shown(&tinted(word, Tint::Green));
            let b: String = shown(&tinted(target_id.as_str(), Tint::Cyan));
            line.append(": ");
            line.append(b.as_str());
            line.append(" (");
            line.append(kind);
            line.append(")");
            Some(line)
        },
        PipelineEvent::JobFailed { target_id, error } => {
            let mut line: String = shown(&bold(tinted("✗", Tint::Red)));
            let b: String = shown(&tinted(target_id.as_str(), Tint::Cyan));
            let c: String = shown(&tinted(error.as_str(), Tint::Red));
            line.append(" ");
            line.append(b.as_str());
            line.append(": ");
            line.append(c.as_str());
            Some(line)
        },
        PipelineEvent::LogInfo { message } => Some(message.clone()),
        PipelineEvent::LogWarn { message } => Some(shown(&tinted(message.as_str(), Tint::Yellow))),
        PipelineEvent::LogError { message } => Some(shown(&tinted(message.as_str(), Tint::Red))),
        _ => None,
    }
}

/// What follows the summary of the run, see [`log_tail`].
pub fn log_tail_text(logs: &Vec<String>) -> (text: String)
    ensures
        text@ == log_tail(line_views(logs@)),
{
    let mut text: String = String::new();
    if logs.len() == 0 {
        return text;
    }
    text.append("\n");
    let ghost views = line_views(logs@);
    let mut i: usize = 0;
    while i < logs.len()
        invariant
            i <= logs.len(),
            views == line_views(logs@),
            text@ == "\n"@ + log_lines(views.take(i as int)),
        decreases logs.len() - i,
    {
        assert(views.take(i + 1).drop_last() =~= views.take(i as int));
        text.append(logs[i].as_str());
        text.append("\n");
        i = i + 1;
    }
    assert(views.take(i as int) =~= views);
    text
}

/// What the event makes the monitor write besides the table, see
/// [`is_notice`].
pub fn notice(event: &PipelineEvent, logs: &Vec<String>) -> (text: String)
    ensures
        is_notice(*event, line_views(logs@), text@),
{
    proof {
        reveal_strlit("Starting pipeline.");
        reveal_strlit("Resolving dependencies");
        reveal_strlit("Planning finished. Jobs:");
        reveal_strlit("Pipeline finished");
    }
    match event {
        PipelineEvent::PipelineStarted { .. } => {
            let mut text: String = shown(&bold(tinted("Starting pipeline.", Tint::Cyan)));
            text.append("\n");
            text
        },
        PipelineEvent::DependencyResolutionStarted => {
            let mut text: String = shown(&tinted("Resolving dependencies", Tint::Cyan));
            text.append("\n");
            text
        },
        PipelineEvent::PlanningFinished { job_count } => {
            let mut text: String = shown(&bold(unstyled("Planning finished. Jobs:")));
            let count: String = decimal_text(*job_count as u128);
            text.append(" ");
            text.append(count.as_str());
            text.append("\n\n");
            text
        },
        PipelineEvent::PipelineFinished { duration_secs, success_count, fail_count } => {
            let a: String = shown(&bold(unstyled("Pipeline finished")));
            let seconds: String = two_decimals_text(round_div(duration_secs.millis as u128, 10));
            let succeeded: String = decimal_text(*success_count as u128);
            let failed: String = decimal_text(*fail_count as u128);
            let tail: String = log_tail_text(logs);
            let mut text: String = String::from_str("\n");
            text.append(a.as_str());
            text.append(" in ");
            text.append(seconds.as_str());
            text.append("s (");
            text.append(succeeded.as_str());
            text.append(" succeeded, ");
            text.append(failed.as_str());
            text.append(" failed)\n");
            text.append(tail.as_str());
            assert(text@ == "\n"@ + a@ + " in "@ + seconds_text(*duration_secs) + "s ("@
                + decimal(*success_count as nat) + " succeeded, "@ + decimal(*fail_count as nat)
                + " failed)\n"@ + log_tail(line_views(logs@)));
            text
        },
        _ => String::new(),
    }
}

impl Monitor {
    /// What every monitor meets that this module hands out.
    pub closed spec fn wf(&self) -> bool {
        self.display.wf()
    }

    /// What the invariant of a monitor says of its view.
    pub proof fn lemma_view_is_wf(&self)
        requires
            self.wf(),
        ensures
            self@.display.wf(),
    {
        self.display.lemma_view_is_wf();
    }

    /// A monitor that has seen nothing, set up at time `now` (nanoseconds
    /// on a clock that never goes back).
    pub fn new(now: u64) -> (monitor: Monitor)
        ensures
            monitor.wf(),
            monitor@ == MonitorView::initial(now),
    {
        Monitor { display: StatusDisplay::new(now), logs_buffer: Vec::new(), pipeline_active: false }
    }

    /// The status table.
    pub fn display(&self) -> (display: &StatusDisplay)
        ensures
            display@ == self@.display,
            self.wf() ==> display.wf(),
    {
        &self.display
    }

    /// The log lines that wait for the end of the run.
    pub fn logs(&self) -> (logs: &Vec<String>)
        ensures
            line_views(logs@) == self@.logs,
    {
        &self.logs_buffer
    }

    /// Whether the start of the run has been seen.
    pub fn pipeline_active(&self) -> (active: bool)
        ensures
            active == self@.pipeline_active,
    {
        self.pipeline_active
    }

    /// One step of the monitor for an event that arrived at time `now`,
    /// see [`MonitorView::event_steps`].
    pub fn on_event(&mut self, event: &PipelineEvent, now: u64) -> (reaction: Reaction)
        requires
            old(self).wf(),
        ensures
            final(self).wf(),
            old(self)@.event_steps(*event, now, final(self)@, reaction.output@, reaction.finished),
    {
        let ghost before = self@;
        let redraw: bool = if tells_of_a_job(event) {
            self.pipeline_active
        } else {
            match event {
                PipelineEvent::PipelineFinished { .. } => self.display.header_printed(),
                _ => false,
            }
        };
        let finished: bool = match event {
            PipelineEvent::PipelineFinished { .. } => true,
            _ => false,
        };
        let text: String = notice(event, &self.logs_buffer);
        self.display.apply(event, now);
        if let PipelineEvent::PipelineStarted { .. } = event {
            self.pipeline_active = true;
        }
        if let Some(line) = log_line(event) {
            self.logs_buffer.push(line);
            assert(self@.logs.drop_last() =~= before.logs);
        }
        let mut output: String = if redraw {
            self.display.render(now).text
        } else {
            String::new()
        };
        output.append(text.as_str());
        Reaction { output, finished }
    }

    /// One step of the monitor, see [`MonitorView::steps`].
    pub fn handle_event(&mut self, wake: &Wake) -> (reaction: Reaction)
        requires
            old(self).wf(),
        ensures
            final(self).wf(),
            old(self)@.steps(*wake, final(self)@, reaction.output@, reaction.finished),
    {
        match wake {
            Wake::Lagged { .. } => Reaction { output: String::new(), finished: false },
            Wake::Closed { now } => {
                let start: u64 = self.display.start_time();
                let millis: u64 = if *now > start {
                    (*now - start) / NANOS_PER_MILLI
                } else {
                    0
                };
                let event = PipelineEvent::PipelineFinished {
                    duration_secs: Seconds { millis },
                    success_count: self.display.count_with(JobStatus::Success),
                    fail_count: self.display.count_with(JobStatus::Failed),
                };
                self.on_event(&event, *now)
            },
            Wake::Tick { now } => {
                if self.pipeline_active && self.display.header_printed() {
                    let frame = self.display.render(*now);
                    Reaction { output: frame.text, finished: false }
                } else {
                    Reaction { output: String::new(), finished: false }
                }
            },
            Wake::Event { event, now } => self.on_event(event, *now),
        }
    }
}

} // verus!
