//! The record of one job and the texts of its cells in the status table.

use crate::model::{JobStatus, JobView};
use crate::paint::{
    bold, dimmed, escape_free, free_of, lemma_escape_free_holds_no_reset, shown, shows, style_params,
    styled_text, tint_style, tinted, unstyled, with_bold, with_dimmed, Tint,
};
use crate::units::{
    format_bytes, lemma_size_text_on_one_line, one_decimal, one_decimal_text, round_div,
    round_half_even, size_text,
};
use colored::ColoredString;
use vstd::prelude::*;
use vstd::string::*;

verus! {

impl JobStatus {
    /// The name of the status as the table shows it.
    pub open spec fn label(self) -> Seq<char> {
        match self {
            JobStatus::Waiting => "waiting"@,
            JobStatus::Downloading => "downloading"@,
            JobStatus::Downloaded => "downloaded"@,
            JobStatus::Cached => "cached"@,
            JobStatus::Processing => "processing"@,
            JobStatus::Installing => "installing"@,
            JobStatus::Linking => "linking"@,
            JobStatus::Success => "success"@,
            JobStatus::Failed => "failed"@,
        }
    }

    /// The sign of the status in the last column: a blank and one symbol.
    pub open spec fn glyph(self) -> Seq<char> {
        match self {
            JobStatus::Waiting => " ⧗"@,
            JobStatus::Downloading => " ⬇"@,
            JobStatus::Downloaded => " ✓"@,
            JobStatus::Cached => " ⌂"@,
            JobStatus::Processing => " ⚙"@,
            JobStatus::Installing => " ⚙"@,
            JobStatus::Linking => " →"@,
            JobStatus::Success => " ✓"@,
            JobStatus::Failed => " ✗"@,
        }
    }

    /// The style of the name of the status: dimmed while the job waits,
    /// blue while it downloads, green once it has its artifact or has
    /// succeeded, cyan for a cache hit, yellow on the way from there, red
    /// for a failure.
    pub open spec fn label_style(self) -> Seq<nat> {
        match self {
            JobStatus::Waiting => with_dimmed(Seq::empty()),
            JobStatus::Downloading => tint_style(Tint::Blue),
            JobStatus::Downloaded => tint_style(Tint::Green),
            JobStatus::Cached => tint_style(Tint::Cyan),
            JobStatus::Processing => tint_style(Tint::Yellow),
            JobStatus::Installing => tint_style(Tint::Yellow),
            JobStatus::Linking => tint_style(Tint::Yellow),
            JobStatus::Success => tint_style(Tint::Green),
            JobStatus::Failed => tint_style(Tint::Red),
        }
    }

    /// The style of the sign of the status; the signs of the two last
    /// statuses are bold.
    pub open spec fn glyph_style(self) -> Seq<nat> {
        match self {
            JobStatus::Waiting => tint_style(Tint::Yellow),
            JobStatus::Downloading => tint_style(Tint::Blue),
            JobStatus::Downloaded => tint_style(Tint::Green),
            JobStatus::Cached => tint_style(Tint::Cyan),
            JobStatus::Processing => tint_style(Tint::Yellow),
            JobStatus::Installing => tint_style(Tint::Cyan),
            JobStatus::Linking => tint_style(Tint::Magenta),
            JobStatus::Success => with_bold(tint_style(Tint::Green)),
            JobStatus::Failed => with_bold(tint_style(Tint::Red)),
        }
    }

    /// Neither a label nor a sign holds an escape character or a line end,
    /// and every label fits its column.
    pub proof fn lemma_texts_are_plain(self)
        ensures
            escape_free(self.label()),
            escape_free(self.glyph()),
            free_of(self.label(), '\n'),
            free_of(self.glyph(), '\n'),
            1 <= self.label().len() <= 12,
            self.glyph().len() == 2,
    {
        reveal_strlit("waiting");
        reveal_strlit("downloading");
        reveal_strlit("downloaded");
        reveal_strlit("cached");
        reveal_strlit("processing");
        reveal_strlit("installing");
        reveal_strlit("linking");
        reveal_strlit("success");
        reveal_strlit("failed");
        reveal_strlit(" ⧗");
        reveal_strlit(" ⬇");
        reveal_strlit(" ✓");
        reveal_strlit(" ⌂");
        reveal_strlit(" ⚙");
        reveal_strlit(" →");
        reveal_strlit(" ✗");
    }

    /// The name of the status.
    pub fn display_state(&self) -> (text: &'static str)
        ensures
            text@ == self.label(),
    {
        match self {
            JobStatus::Waiting => "waiting",
            JobStatus::Downloading => "downloading",
            JobStatus::Downloaded => "downloaded",
            JobStatus::Cached => "cached",
            JobStatus::Processing => "processing",
            JobStatus::Installing => "installing",
            JobStatus::Linking => "linking",
            JobStatus::Success => "success",
            JobStatus::Failed => "failed",
        }
    }

    /// The sign of the status, in its colour.
    pub fn slot_indicator(&self) -> (text: String)
        ensures
            shows(text@, self.glyph_style(), self.glyph()),
    {
        let styled: ColoredString = match self {
            JobStatus::Waiting => tinted(" ⧗", Tint::Yellow),
            JobStatus::Downloading => tinted(" ⬇", Tint::Blue),
            JobStatus::Downloaded => tinted(" ✓", Tint::Green),
            JobStatus::Cached => tinted(" ⌂", Tint::Cyan),
            JobStatus::Processing => tinted(" ⚙", Tint::Yellow),
            JobStatus::Installing => tinted(" ⚙", Tint::Cyan),
            JobStatus::Linking => tinted(" →", Tint::Magenta),
            JobStatus::Success => bold(tinted(" ✓", Tint::Green)),
            JobStatus::Failed => bold(tinted(" ✗", Tint::Red)),
        };
        proof {
            self.lemma_texts_are_plain();
            lemma_escape_free_holds_no_reset(self.glyph());
        }
        shown(&styled)
    }

    /// The name of the status, in its colour.
    pub fn colored_state(&self) -> (styled: ColoredString)
        ensures
            styled_text(styled) == self.label(),
            style_params(styled) == self.label_style(),
    {
        match self {
            JobStatus::Waiting => dimmed(unstyled(self.display_state())),
            JobStatus::Downloading => tinted(self.display_state(), Tint::Blue),
            JobStatus::Downloaded => tinted(self.display_state(), Tint::Green),
            JobStatus::Cached => tinted(self.display_state(), Tint::Cyan),
            JobStatus::Processing => tinted(self.display_state(), Tint::Yellow),
            JobStatus::Installing => tinted(self.display_state(), Tint::Yellow),
            JobStatus::Linking => tinted(self.display_state(), Tint::Yellow),
            JobStatus::Success => tinted(self.display_state(), Tint::Green),
            JobStatus::Failed => tinted(self.display_state(), Tint::Red),
        }
    }
}

/// The text that stands for a figure that is not known.
pub open spec fn unknown_mark() -> Seq<char> {
    "–"@
}

/// A tenth of a second, in nanoseconds.
pub const TENTH_NANOS: u64 = 100_000_000;

impl JobView {
    /// The size of the job as text, a dash while it is unknown.
    pub open spec fn size_label(self) -> Seq<char> {
        match self.size_bytes {
            Some(bytes) => size_text(bytes as nat),
            None => unknown_mark(),
        }
    }

    /// The size column: the bytes received so far while the job is
    /// downloading and they are known, else the size.
    pub open spec fn progress_label(self) -> Seq<char> {
        if self.status == JobStatus::Downloading && self.current_bytes_downloaded is Some {
            size_text(self.current_bytes_downloaded->0 as nat)
        } else {
            self.size_label()
        }
    }

    /// The size column stands on one line.
    pub proof fn lemma_progress_label_on_one_line(self)
        ensures
            free_of(self.progress_label(), '\n'),
    {
        reveal_strlit("–");
        if self.size_bytes is Some {
            lemma_size_text_on_one_line(self.size_bytes->0 as nat);
        }
        if self.current_bytes_downloaded is Some {
            lemma_size_text_on_one_line(self.current_bytes_downloaded->0 as nat);
        }
    }

    /// The time since the job started, at time `now`: seconds with one
    /// decimal digit, rounded half to even, and `s`; a dash before the start.
    pub open spec fn elapsed_label(self, now: u64) -> Seq<char> {
        match self.start_time {
            Some(start) => {
                let nanos = if now > start {
                    (now - start) as nat
                } else {
                    0
                };
                one_decimal(round_half_even(nanos, TENTH_NANOS as nat)) + seq!['s']
            },
            None => unknown_mark(),
        }
    }
}

/// The record of one job.
#[derive(Debug)]
pub struct JobInfo {
    pub name: String,
    pub status: JobStatus,
    pub size_bytes: Option<u64>,
    pub current_bytes_downloaded: Option<u64>,
    pub start_time: Option<u64>,
    pub pool_id: usize,
}

impl View for JobInfo {
    type V = JobView;

    open spec fn view(&self) -> JobView {
        JobView {
            name: self.name@,
            status: self.status,
            size_bytes: self.size_bytes,
            current_bytes_downloaded: self.current_bytes_downloaded,
            start_time: self.start_time,
            pool_id: self.pool_id as nat,
        }
    }
}

/// The views of a list of job records.
pub open spec fn job_views(jobs: Seq<JobInfo>) -> Seq<JobView> {
    Seq::new(jobs.len(), |i: int| jobs[i]@)
}

impl JobInfo {
    /// The time since the job started, see [`JobView::elapsed_label`].
    pub fn elapsed_str(&self, now: u64) -> (text: String)
        ensures
            text@ == self@.elapsed_label(now),
    {
        match self.start_time {
            Some(start) => {
                let nanos: u64 = if now > start {
                    now - start
                } else {
                    0
                };
                let mut text: String = one_decimal_text(
                    round_div(nanos as u128, TENTH_NANOS as u128),
                );
                proof {
                    reveal_strlit("s");
                }
                text.append("s");
                text
            },
            None => String::from_str("–"),
        }
    }

    /// The size of the job as text, see [`JobView::size_label`].
    pub fn size_str(&self) -> (text: String)
        ensures
            text@ == self@.size_label(),
    {
        match self.size_bytes {
            Some(bytes) => format_bytes(bytes),
            None => String::from_str("–"),
        }
    }

    /// The size column of the job, see [`JobView::progress_label`].
    pub fn progress_str(&self) -> (text: String)
        ensures
            text@ == self@.progress_label(),
    {
        if self.status == JobStatus::Downloading {
            match self.current_bytes_downloaded {
                Some(downloaded) => format_bytes(downloaded),
                None => self.size_str(),
            }
        } else {
            self.size_str()
        }
    }
}

} // verus!
