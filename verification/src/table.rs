//! The text of the status table: its header, one row for each job, the rule
//! below them, and the control sequence that takes a drawing off the screen.

use crate::job::JobInfo;
use crate::model::JobView;
use crate::paint::{
    bold, dimmed, escape, escape_free, fit_left, fit_right, free_of, holds_reset,
    lemma_escape_free_holds_no_reset, lemma_free_of_occurs_nowhere, lemma_occurrences_add,
    lemma_repeated_is_free_of, lemma_shown_on_one_line,
    occurrences, pad_left, pad_left_text, pad_right, repeat, repeated, shown, shows, tint_style,
    tinted, unstyled, with_bold, with_dimmed, Tint,
};
use crate::units::{decimal, decimal_text, lemma_decimal_is_digits};
use vstd::prelude::*;
use vstd::string::*;

verus! {

/// The display index as the table shows it: `#` and the number with two
/// digits at least.
pub open spec fn id_text(pool_id: nat) -> Seq<char> {
    if pool_id < 10 {
        seq!['#', '0'] + decimal(pool_id)
    } else {
        seq!['#'] + decimal(pool_id)
    }
}

/// Five cells with a blank between each two, and the end of the line.
pub open spec fn row_text(
    a: Seq<char>,
    b: Seq<char>,
    c: Seq<char>,
    d: Seq<char>,
    e: Seq<char>,
) -> Seq<char> {
    a + seq![' '] + b + seq![' '] + c + seq![' '] + d + seq![' '] + e + seq!['\n']
}

/// The style of the column titles: bold and dimmed.
pub open spec fn title_style() -> Seq<nat> {
    with_dimmed(with_bold(Seq::empty()))
}

/// The style of the rule and of the open places of the progress bar:
/// dimmed.
pub open spec fn faint_style() -> Seq<nat> {
    with_dimmed(Seq::empty())
}

/// Whether `line` is the header of the table: the five column titles, each
/// shown in its field, bold and dimmed.
pub open spec fn is_header(line: Seq<char>) -> bool {
    exists|a: Seq<char>, b: Seq<char>, c: Seq<char>, d: Seq<char>, e: Seq<char>|
        #![trigger row_text(a, b, c, d, e)]
        {
            &&& shows(a, title_style(), pad_right("IID"@, 6))
            &&& shows(b, title_style(), pad_right("STATE"@, 12))
            &&& shows(c, title_style(), pad_right("PKG"@, 15))
            &&& shows(d, title_style(), pad_left("SIZE"@, 8))
            &&& shows(e, title_style(), "SLOT"@)
            &&& line == row_text(a, b, c, d, e)
        }
}

/// Whether `line` is the row of `job`: its display index in cyan, the name
/// of its status in the colour of the status and its own name in cyan, each
/// padded behind to the width of its column; its size column, padded in
/// front and plain; and the sign of its status. Of a name that holds the
/// reset code nothing is said.
pub open spec fn is_job_row(line: Seq<char>, job: JobView) -> bool {
    exists|a: Seq<char>, b: Seq<char>, c: Seq<char>, e: Seq<char>|
        #![trigger row_text(a, b, c, pad_left(job.progress_label(), 8), e)]
        {
            &&& shows(a, tint_style(Tint::Cyan), pad_right(id_text(job.pool_id), 6))
            &&& shows(b, job.status.label_style(), pad_right(job.status.label(), 12))
            &&& !holds_reset(job.name) ==> shows(c, tint_style(Tint::Cyan), pad_right(job.name, 15))
            &&& shows(e, job.status.glyph_style(), job.status.glyph())
            &&& line == row_text(a, b, c, pad_left(job.progress_label(), 8), e)
        }
}

/// The lines one after the other.
pub open spec fn concat(lines: Seq<Seq<char>>) -> Seq<char>
    decreases lines.len(),
{
    if lines.len() == 0 {
        Seq::empty()
    } else {
        concat(lines.drop_last()) + lines.last()
    }
}

/// Whether `text` is the rows of `jobs`, one for each job and in their
/// order.
pub open spec fn is_rows(text: Seq<char>, jobs: Seq<JobView>) -> bool {
    exists|rows: Seq<Seq<char>>|
        {
            &&& rows.len() == jobs.len()
            &&& forall|i: int| 0 <= i < jobs.len() ==> is_job_row(#[trigger] rows[i], jobs[i])
            &&& text == concat(rows)
        }
}

/// The width of the rule below the rows.
pub const RULE_WIDTH: usize = 49;

/// Whether `line` is the rule below the rows.
pub open spec fn is_rule(line: Seq<char>) -> bool {
    exists|a: Seq<char>|
        shows(a, faint_style(), repeated("─"@, RULE_WIDTH as nat)) && line == a + seq!['\n']
}

/// Whether `body` draws the table of `jobs`: header, rows, rule.
pub open spec fn is_table(body: Seq<char>, jobs: Seq<JobView>) -> bool {
    exists|header: Seq<char>, rows: Seq<char>, rule: Seq<char>|
        #![trigger header + rows + rule]
        {
            &&& is_header(header)
            &&& is_rows(rows, jobs)
            &&& is_rule(rule)
            &&& body == header + rows + rule
        }
}

/// The control sequence that takes `lines` lines off the screen: for each,
/// cursor up by one line and clear that line.
pub open spec fn erase_text(lines: nat) -> Seq<char> {
    repeated("\x1b[1A\x1b[2K"@, lines)
}

/// The width of the progress bar.
pub const BAR_WIDTH: usize = 8;

/// Whether `bar` is a progress bar with `filled` of its places filled.
pub open spec fn is_bar(bar: Seq<char>, filled: nat) -> bool {
    exists|a: Seq<char>, b: Seq<char>|
        #![trigger a + b]
        {
            &&& shows(a, tint_style(Tint::Green), repeated("▍"@, filled))
            &&& shows(b, faint_style(), repeated("·"@, (BAR_WIDTH - filled) as nat))
            &&& bar == a + b
        }
}

/// Whether every name is fit to stand in a row of its own: it holds no line
/// end, nor the reset code.
pub open spec fn plain_names(jobs: Seq<JobView>) -> bool {
    forall|i: int|
        0 <= i < jobs.len() ==> !holds_reset((#[trigger] jobs[i]).name) && free_of(
            jobs[i].name,
            '\n',
        )
}

/// Five cells without line end make one line.
pub proof fn lemma_row_text_is_one_line(
    a: Seq<char>,
    b: Seq<char>,
    c: Seq<char>,
    d: Seq<char>,
    e: Seq<char>,
)
    requires
        free_of(a, '\n'),
        free_of(b, '\n'),
        free_of(c, '\n'),
        free_of(d, '\n'),
        free_of(e, '\n'),
    ensures
        occurrences(row_text(a, b, c, d, e), '\n') == 1,
{
    let cells = a + seq![' '] + b + seq![' '] + c + seq![' '] + d + seq![' '] + e;
    assert(row_text(a, b, c, d, e).drop_last() =~= cells);
    lemma_free_of_occurs_nowhere(cells, '\n');
}

/// The header takes one line.
pub proof fn lemma_header_is_one_line(line: Seq<char>)
    requires
        is_header(line),
    ensures
        occurrences(line, '\n') == 1,
{
    let (a, b, c, d, e) = choose|
        a: Seq<char>,
        b: Seq<char>,
        c: Seq<char>,
        d: Seq<char>,
        e: Seq<char>,
    |
        #![trigger row_text(a, b, c, d, e)]
        {
            &&& shows(a, title_style(), pad_right("IID"@, 6))
            &&& shows(b, title_style(), pad_right("STATE"@, 12))
            &&& shows(c, title_style(), pad_right("PKG"@, 15))
            &&& shows(d, title_style(), pad_left("SIZE"@, 8))
            &&& shows(e, title_style(), "SLOT"@)
            &&& line == row_text(a, b, c, d, e)
        };
    reveal_strlit("IID");
    reveal_strlit("STATE");
    reveal_strlit("PKG");
    reveal_strlit("SIZE");
    reveal_strlit("SLOT");
    lemma_shown_on_one_line(a, title_style(), pad_right("IID"@, 6));
    lemma_shown_on_one_line(b, title_style(), pad_right("STATE"@, 12));
    lemma_shown_on_one_line(c, title_style(), pad_right("PKG"@, 15));
    lemma_shown_on_one_line(d, title_style(), pad_left("SIZE"@, 8));
    lemma_shown_on_one_line(e, title_style(), "SLOT"@);
    lemma_row_text_is_one_line(a, b, c, d, e);
}

/// The row of a job takes one line, unless the name of the job holds a line
/// end or the reset code.
pub proof fn lemma_job_row_is_one_line(line: Seq<char>, job: JobView)
    requires
        is_job_row(line, job),
        !holds_reset(job.name),
        free_of(job.name, '\n'),
    ensures
        occurrences(line, '\n') == 1,
{
    let size = pad_left(job.progress_label(), 8);
    let (a, b, c, e) = choose|a: Seq<char>, b: Seq<char>, c: Seq<char>, e: Seq<char>|
        #![trigger row_text(a, b, c, pad_left(job.progress_label(), 8), e)]
        {
            &&& shows(a, tint_style(Tint::Cyan), pad_right(id_text(job.pool_id), 6))
            &&& shows(b, job.status.label_style(), pad_right(job.status.label(), 12))
            &&& !holds_reset(job.name) ==> shows(c, tint_style(Tint::Cyan), pad_right(job.name, 15))
            &&& shows(e, job.status.glyph_style(), job.status.glyph())
            &&& line == row_text(a, b, c, pad_left(job.progress_label(), 8), e)
        };
    lemma_decimal_is_digits(job.pool_id);
    job.status.lemma_texts_are_plain();
    job.lemma_progress_label_on_one_line();
    assert(free_of(id_text(job.pool_id), '\n'));
    lemma_shown_on_one_line(a, tint_style(Tint::Cyan), pad_right(id_text(job.pool_id), 6));
    lemma_shown_on_one_line(b, job.status.label_style(), pad_right(job.status.label(), 12));
    lemma_shown_on_one_line(c, tint_style(Tint::Cyan), pad_right(job.name, 15));
    lemma_shown_on_one_line(e, job.status.glyph_style(), job.status.glyph());
    lemma_row_text_is_one_line(a, b, c, size, e);
}

/// The rule takes one line.
pub proof fn lemma_rule_is_one_line(line: Seq<char>)
    requires
        is_rule(line),
    ensures
        occurrences(line, '\n') == 1,
{
    let dashes = repeated("─"@, RULE_WIDTH as nat);
    let a = choose|a: Seq<char>| shows(a, faint_style(), dashes) && line == a + seq!['\n'];
    reveal_strlit("─");
    lemma_repeated_is_free_of("─"@, RULE_WIDTH as nat, '\n');
    lemma_shown_on_one_line(a, faint_style(), dashes);
    assert(line.drop_last() =~= a);
    lemma_free_of_occurs_nowhere(a, '\n');
}

/// Rows of jobs with plain names take one line each.
pub proof fn lemma_concat_of_rows(rows: Seq<Seq<char>>, jobs: Seq<JobView>)
    requires
        rows.len() == jobs.len(),
        forall|i: int| 0 <= i < jobs.len() ==> is_job_row(#[trigger] rows[i], jobs[i]),
        plain_names(jobs),
    ensures
        occurrences(concat(rows), '\n') == jobs.len(),
    decreases rows.len(),
{
    if rows.len() > 0 {
        let n = rows.len() - 1;
        assert forall|i: int| 0 <= i < n implies is_job_row(
            #[trigger] rows.drop_last()[i],
            jobs.drop_last()[i],
        ) by {
            assert(is_job_row(rows[i], jobs[i]));
        }
        assert(plain_names(jobs.drop_last())) by {
            assert forall|i: int| 0 <= i < n implies !holds_reset(
                (#[trigger] jobs.drop_last()[i]).name,
            ) && free_of(jobs.drop_last()[i].name, '\n') by {
                assert(jobs[i].name == jobs.drop_last()[i].name);
            }
        }
        lemma_concat_of_rows(rows.drop_last(), jobs.drop_last());
        assert(is_job_row(rows[n], jobs[n]));
        lemma_job_row_is_one_line(rows.last(), jobs[n]);
        lemma_occurrences_add(concat(rows.drop_last()), rows.last(), '\n');
    }
}

/// The table of jobs with plain names takes one line for each job and two
/// more, for its header and its rule.
pub proof fn lemma_table_lines(body: Seq<char>, jobs: Seq<JobView>)
    requires
        is_table(body, jobs),
        plain_names(jobs),
    ensures
        occurrences(body, '\n') == jobs.len() + 2,
{
    let (header, rows, rule) = choose|header: Seq<char>, rows: Seq<char>, rule: Seq<char>|
        #![trigger header + rows + rule]
        {
            &&& is_header(header)
            &&& is_rows(rows, jobs)
            &&& is_rule(rule)
            &&& body == header + rows + rule
        };
    let lines = choose|lines: Seq<Seq<char>>|
        {
            &&& lines.len() == jobs.len()
            &&& forall|i: int| 0 <= i < jobs.len() ==> is_job_row(#[trigger] lines[i], jobs[i])
            &&& rows == concat(lines)
        };
    lemma_header_is_one_line(header);
    lemma_concat_of_rows(lines, jobs);
    lemma_rule_is_one_line(rule);
    lemma_occurrences_add(header, rows, '\n');
    lemma_occurrences_add(header + rows, rule, '\n');
}

/// The display index as text.
pub fn id_label(pool_id: usize) -> (text: String)
    ensures
        text@ == id_text(pool_id as nat),
        escape_free(text@),
{
    proof {
        reveal_strlit("#0");
        reveal_strlit("#");
        lemma_decimal_is_digits(pool_id as nat);
    }
    let mut text: String = if pool_id < 10 {
        String::from_str("#0")
    } else {
        String::from_str("#")
    };
    let digits: String = decimal_text(pool_id as u128);
    text.append(digits.as_str());
    text
}

/// Joins five cells to a line.
pub fn join_row(a: &str, b: &str, c: &str, d: &str, e: &str) -> (line: String)
    ensures
        line@ == row_text(a@, b@, c@, d@, e@),
{
    proof {
        reveal_strlit(" ");
        reveal_strlit("\n");
    }
    let mut line: String = String::from_str(a);
    line.append(" ");
    line.append(b);
    line.append(" ");
    line.append(c);
    line.append(" ");
    line.append(d);
    line.append(" ");
    line.append(e);
    line.append("\n");
    line
}

/// The header of the table.
pub fn header_row() -> (line: String)
    ensures
        is_header(line@),
{
    proof {
        reveal_strlit("IID");
        reveal_strlit("STATE");
        reveal_strlit("PKG");
        reveal_strlit("SIZE");
        reveal_strlit("SLOT");
        lemma_escape_free_holds_no_reset("IID"@);
        lemma_escape_free_holds_no_reset("STATE"@);
        lemma_escape_free_holds_no_reset("PKG"@);
        lemma_escape_free_holds_no_reset("SIZE"@);
        lemma_escape_free_holds_no_reset("SLOT"@);
    }
    let a: String = fit_left(&dimmed(bold(unstyled("IID"))), 6);
    let b: String = fit_left(&dimmed(bold(unstyled("STATE"))), 12);
    let c: String = fit_left(&dimmed(bold(unstyled("PKG"))), 15);
    let d: String = fit_right(&dimmed(bold(unstyled("SIZE"))), 8);
    let e: String = shown(&dimmed(bold(unstyled("SLOT"))));
    join_row(a.as_str(), b.as_str(), c.as_str(), d.as_str(), e.as_str())
}

/// The row of one job.
pub fn job_row(job: &JobInfo) -> (line: String)
    ensures
        is_job_row(line@, job@),
{
    let id: String = id_label(job.pool_id);
    proof {
        job.status.lemma_texts_are_plain();
        lemma_escape_free_holds_no_reset(id@);
        lemma_escape_free_holds_no_reset(job.status.label());
    }
    let a: String = fit_left(&tinted(id.as_str(), Tint::Cyan), 6);
    let b: String = fit_left(&job.status.colored_state(), 12);
    let c: String = fit_left(&tinted(job.name.as_str(), Tint::Cyan), 15);
    let size: String = job.progress_str();
    let d: String = pad_left_text(size.as_str(), 8);
    let e: String = job.status.slot_indicator();
    join_row(a.as_str(), b.as_str(), c.as_str(), d.as_str(), e.as_str())
}

/// The rule below the rows.
pub fn rule_row() -> (line: String)
    ensures
        is_rule(line@),
{
    proof {
        reveal_strlit("─");
        reveal_strlit("\n");
        lemma_repeated_is_free_of("─"@, RULE_WIDTH as nat, escape());
        lemma_escape_free_holds_no_reset(repeated("─"@, RULE_WIDTH as nat));
    }
    let dashes: String = repeat("─", RULE_WIDTH);
    let mut line: String = shown(&dimmed(unstyled(dashes.as_str())));
    let ghost a = line@;
    line.append("\n");
    assert(line@ =~= a + seq!['\n']);
    line
}

/// The control sequence that takes `lines` lines off the screen.
pub fn erase(lines: usize) -> (text: String)
    ensures
        text@ == erase_text(lines as nat),
{
    repeat("\x1b[1A\x1b[2K", lines)
}

/// A progress bar with `filled` of its places filled, all of them where
/// `filled` is more than the bar has.
pub fn bar(filled: usize) -> (text: String)
    ensures
        is_bar(
            text@,
            if filled <= BAR_WIDTH {
                filled as nat
            } else {
                BAR_WIDTH as nat
            },
        ),
{
    let filled: usize = if filled <= BAR_WIDTH {
        filled
    } else {
        BAR_WIDTH
    };
    proof {
        reveal_strlit("▍");
        reveal_strlit("·");
        lemma_repeated_is_free_of("▍"@, filled as nat, escape());
        lemma_repeated_is_free_of("·"@, (BAR_WIDTH - filled) as nat, escape());
        lemma_escape_free_holds_no_reset(repeated("▍"@, filled as nat));
        lemma_escape_free_holds_no_reset(repeated("·"@, (BAR_WIDTH - filled) as nat));
    }
    let full: String = repeat("▍", filled);
    let rest: String = repeat("·", BAR_WIDTH - filled);
    let mut text: String = shown(&tinted(full.as_str(), Tint::Green));
    let b: String = shown(&dimmed(unstyled(rest.as_str())));
    text.append(b.as_str());
    text
}

} // verus!
