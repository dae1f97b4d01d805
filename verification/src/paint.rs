//! Colour and padding of the cells of the status table.

use crate::units::{decimal, lemma_decimal_is_digits};
use colored::{Color, ColoredString, Colorize};
use vstd::prelude::*;
use vstd::string::*;

verus! {

/// A string with a colour and a style, as `colored` holds it.
#[verifier::external_type_specification]
#[verifier::external_body]
pub struct ExColoredString(ColoredString);

/// The characters that a styled string carries, without any colour code.
pub uninterp spec fn styled_text(styled: ColoredString) -> Seq<char>;

/// The parameters of the style code of a styled string, in the order in
/// which `colored` writes them: first those of its style (1 for bold, 2 for
/// dimmed), then that of its background, then that of its foreground
/// colour, a true colour written in full. A string without colour and
/// style has none.
pub uninterp spec fn style_params(styled: ColoredString) -> Seq<nat>;

/// The foreground colours of the table.
#[derive(Clone, Copy, Debug, PartialEq, Eq)]
pub enum Tint {
    Red,
    Green,
    Yellow,
    Blue,
    Magenta,
    Cyan,
}

/// The widest field that the formatter of the standard library takes.
pub const MAX_FIELD_WIDTH: usize = 65535;

/// The parameter that selects a foreground colour.
pub open spec fn colour_param(tint: Tint) -> nat {
    match tint {
        Tint::Red => 31,
        Tint::Green => 32,
        Tint::Yellow => 33,
        Tint::Blue => 34,
        Tint::Magenta => 35,
        Tint::Cyan => 36,
    }
}

/// The style of a text in a foreground colour and nothing else.
pub open spec fn tint_style(tint: Tint) -> Seq<nat> {
    seq![colour_param(tint)]
}

/// The style with bold added: bold is written first of all.
pub open spec fn with_bold(params: Seq<nat>) -> Seq<nat> {
    if params.len() > 0 && params[0] == 1 {
        params
    } else {
        seq![1nat] + params
    }
}

/// The style with dimmed added: dimmed is written behind bold and in front
/// of everything else.
pub open spec fn with_dimmed(params: Seq<nat>) -> Seq<nat> {
    let k: int = if params.len() > 0 && params[0] == 1 {
        1
    } else {
        0
    };
    if params.len() > k && params[k] == 2 {
        params
    } else {
        params.insert(k, 2nat)
    }
}

/// Whether the style has a style of the text and one of the eight plain
/// foreground colours at most: no background, no bright and no extended
/// colour.
pub open spec fn is_basic_style(params: Seq<nat>) -> bool {
    forall|i: int| 0 <= i < params.len() ==> #[trigger] params[i] <= 37
}

/// The character that opens a terminal control sequence.
pub open spec fn escape() -> char {
    '\x1b'
}

/// The control sequence that ends all colour and style.
pub open spec fn reset_code() -> Seq<char> {
    seq![escape(), '[', '0', 'm']
}

/// The parameters as decimal numerals with a semicolon between each two.
pub open spec fn joined(params: Seq<nat>) -> Seq<char>
    decreases params.len(),
{
    if params.len() == 0 {
        Seq::empty()
    } else if params.len() == 1 {
        decimal(params[0])
    } else {
        joined(params.drop_last()) + seq![';'] + decimal(params.last())
    }
}

/// The control sequence that selects a style: the escape character and `[`,
/// the parameters, and `m`.
pub open spec fn style_code(params: Seq<nat>) -> Seq<char> {
    seq![escape(), '['] + joined(params) + seq!['m']
}

/// `n` blanks.
pub open spec fn blanks(n: nat) -> Seq<char> {
    Seq::new(n, |i: int| ' ')
}

/// `text` filled with blanks behind it up to `width` characters; a longer
/// text is left as it is.
pub open spec fn pad_right(text: Seq<char>, width: nat) -> Seq<char> {
    if text.len() >= width {
        text
    } else {
        text + blanks((width - text.len()) as nat)
    }
}

/// `text` filled with blanks in front of it up to `width` characters; a
/// longer text is left as it is.
pub open spec fn pad_left(text: Seq<char>, width: nat) -> Seq<char> {
    if text.len() >= width {
        text
    } else {
        blanks((width - text.len()) as nat) + text
    }
}

/// What a terminal is sent for `body` in the style `params`. A body
/// without style is sent alone. One with a style is sent alone where
/// colours are switched off, and between its style code and the reset code
/// where they are on; where colours are switched off while the text is
/// written, the style code is missing in front of the body.
pub open spec fn shows(out: Seq<char>, params: Seq<nat>, body: Seq<char>) -> bool {
    ||| out == body
    ||| params.len() > 0 && out == body + reset_code()
    ||| params.len() > 0 && out == style_code(params) + body + reset_code()
}


/// Whether `c` stands nowhere in `text`.
pub open spec fn free_of(text: Seq<char>, c: char) -> bool {
    forall|i: int| 0 <= i < text.len() ==> #[trigger] text[i] != c
}

/// Whether `text` holds no escape character.
pub open spec fn escape_free(text: Seq<char>) -> bool {
    free_of(text, escape())
}

/// Whether the reset code stands somewhere in `text`.
pub open spec fn holds_reset(text: Seq<char>) -> bool {
    exists|i: int|
        0 <= i && i + 4 <= text.len() && #[trigger] text.subrange(i, i + 4) == reset_code()
}

/// What is known of a painted cell with the text `text` in the style
/// `params`, which is to read `body`: unless the text holds the reset code
/// or the style goes beyond the plain colours, the cell shows the body.
pub open spec fn paints(
    out: Seq<char>,
    text: Seq<char>,
    params: Seq<nat>,
    body: Seq<char>,
) -> bool {
    !holds_reset(text) && is_basic_style(params) ==> shows(out, params, body)
}

/// `unit` written `n` times in a row.
pub open spec fn repeated(unit: Seq<char>, n: nat) -> Seq<char>
    decreases n,
{
    if n == 0 {
        Seq::empty()
    } else {
        repeated(unit, (n - 1) as nat) + unit
    }
}

/// How often `c` stands in `text`.
pub open spec fn occurrences(text: Seq<char>, c: char) -> nat
    decreases text.len(),
{
    if text.len() == 0 {
        0
    } else {
        occurrences(text.drop_last(), c) + if text.last() == c {
            1nat
        } else {
            0nat
        }
    }
}


/// A character that stands nowhere in a text occurs no times in it.
pub proof fn lemma_free_of_occurs_nowhere(text: Seq<char>, c: char)
    requires
        free_of(text, c),
    ensures
        occurrences(text, c) == 0,
    decreases text.len(),
{
    if text.len() > 0 {
        lemma_free_of_occurs_nowhere(text.drop_last(), c);
    }
}

/// A character occurs in two texts in a row as often as in both together.
pub proof fn lemma_occurrences_add(a: Seq<char>, b: Seq<char>, c: char)
    ensures
        occurrences(a + b, c) == occurrences(a, c) + occurrences(b, c),
    decreases b.len(),
{
    if b.len() == 0 {
        assert(a + b =~= a);
    } else {
        lemma_occurrences_add(a, b.drop_last(), c);
        assert((a + b).drop_last() =~= a + b.drop_last());
    }
}

/// The parameters of a style code are written with digits and semicolons.
pub proof fn lemma_joined_is_plain(params: Seq<nat>)
    ensures
        forall|i: int|
            0 <= i < joined(params).len() ==> ('0' <= #[trigger] joined(params)[i] <= '9'
                || joined(params)[i] == ';'),
    decreases params.len(),
{
    if params.len() > 0 {
        let last = decimal(params.last());
        lemma_decimal_is_digits(params.last());
        if params.len() == 1 {
            assert forall|i: int| 0 <= i < joined(params).len() implies '0' <= #[trigger] joined(
                params,
            )[i] <= '9' by {
                assert(joined(params)[i] == last[i]);
            }
        } else {
            let front = joined(params.drop_last());
            lemma_joined_is_plain(params.drop_last());
            assert forall|i: int| 0 <= i < joined(params).len() implies ('0' <= #[trigger] joined(
                params,
            )[i] <= '9' || joined(params)[i] == ';') by {
                if i < front.len() {
                    assert(joined(params)[i] == front[i]);
                } else if i > front.len() {
                    assert(joined(params)[i] == last[i - front.len() - 1]);
                }
            }
        }
    }
}

/// What a terminal is sent for a body without line end holds no line end:
/// neither a style code nor the reset code has one.
pub proof fn lemma_shown_on_one_line(out: Seq<char>, params: Seq<nat>, body: Seq<char>)
    requires
        shows(out, params, body),
        free_of(body, '\n'),
    ensures
        free_of(out, '\n'),
{
    lemma_joined_is_plain(params);
}

/// A text without escape character does not hold the reset code.
pub proof fn lemma_escape_free_holds_no_reset(text: Seq<char>)
    requires
        escape_free(text),
    ensures
        !holds_reset(text),
{
    if holds_reset(text) {
        let i = choose|i: int|
            0 <= i && i + 4 <= text.len() && #[trigger] text.subrange(i, i + 4) == reset_code();
        assert(text.subrange(i, i + 4)[0] == text[i]);
    }
}

/// A character that stands nowhere in a text stands nowhere in its
/// repetition.
pub proof fn lemma_repeated_is_free_of(unit: Seq<char>, n: nat, c: char)
    requires
        free_of(unit, c),
    ensures
        free_of(repeated(unit, n), c),
    decreases n,
{
    if n > 0 {
        lemma_repeated_is_free_of(unit, (n - 1) as nat, c);
    }
}

/// `ColoredString::from` for a `&str`: the text with no colour and no style.
#[verifier::external_body]
pub(crate) fn unstyled(text: &str) -> (styled: ColoredString)
    ensures
        styled_text(styled) == text@,
        style_params(styled) == Seq::<nat>::empty(),
{
    ColoredString::from(text)
}

/// `Colorize::color` for a `&str`: the text in the foreground colour, with
/// no other style. The parameter of each colour is the one that
/// `Color::to_fg_str` gives.
#[verifier::external_body]
pub(crate) fn tinted(text: &str, tint: Tint) -> (styled: ColoredString)
    ensures
        styled_text(styled) == text@,
        style_params(styled) == tint_style(tint),
{
    text.color(
        match tint {
            Tint::Red => Color::Red,
            Tint::Green => Color::Green,
            Tint::Yellow => Color::Yellow,
            Tint::Blue => Color::Blue,
            Tint::Magenta => Color::Magenta,
            Tint::Cyan => Color::Cyan,
        },
    )
}

/// `Colorize::bold` for a `ColoredString`: the same text, bold added to its
/// style. `colored` writes the styles in a fixed order, bold first, and the
/// colours behind them.
#[verifier::external_body]
pub(crate) fn bold(styled: ColoredString) -> (bolder: ColoredString)
    ensures
        styled_text(bolder) == styled_text(styled),
        style_params(bolder) == with_bold(style_params(styled)),
{
    styled.bold()
}

/// `Colorize::dimmed` for a `ColoredString`: the same text, dimmed added to
/// its style. In the order of `colored`, dimmed is the second style, behind
/// bold.
#[verifier::external_body]
pub(crate) fn dimmed(styled: ColoredString) -> (dimmer: ColoredString)
    ensures
        styled_text(dimmer) == styled_text(styled),
        style_params(dimmer) == with_dimmed(style_params(styled)),
{
    styled.dimmed()
}

/// `Display` of a `ColoredString`, through `format!` with a left-aligned
/// field: the text is padded behind to `width` characters, and where colours
/// are switched on and the string has a colour or style, the padded text
/// stands between the style code and the reset code. Whether colours are on
/// is a matter of the process's environment and may change at any moment,
/// so every outcome is allowed for. A text that holds the reset code itself
/// is rewritten by `colored`, and a true colour is written as the terminal
/// takes it; of neither anything is claimed. The formatter panics on a
/// wider field than `MAX_FIELD_WIDTH`.
#[verifier::external_body]
pub(crate) fn fit_left(styled: &ColoredString, width: usize) -> (out: String)
    requires
        width <= MAX_FIELD_WIDTH,
    ensures
        paints(
            out@,
            styled_text(*styled),
            style_params(*styled),
            pad_right(styled_text(*styled), width as nat),
        ),
{
    format!("{:<width$}", styled)
}

/// `Display` of a `ColoredString`, through `format!` with a right-aligned
/// field: as [`fit_left`], with the blanks in front of the text.
#[verifier::external_body]
pub(crate) fn fit_right(styled: &ColoredString, width: usize) -> (out: String)
    requires
        width <= MAX_FIELD_WIDTH,
    ensures
        paints(
            out@,
            styled_text(*styled),
            style_params(*styled),
            pad_left(styled_text(*styled), width as nat),
        ),
{
    format!("{:>width$}", styled)
}

/// The text of a styled string as a terminal is to get it, without
/// padding.
pub fn shown(styled: &ColoredString) -> (out: String)
    ensures
        paints(out@, styled_text(*styled), style_params(*styled), styled_text(*styled)),
{
    fit_left(styled, 0)
}

/// `unit` written `n` times in a row.
pub fn repeat(unit: &str, n: usize) -> (out: String)
    ensures
        out@ == repeated(unit@, n as nat),
{
    let mut out: String = String::new();
    let mut i: usize = 0;
    while i < n
        invariant
            i <= n,
            out@ == repeated(unit@, i as nat),
        decreases n - i,
    {
        out.append(unit);
        i = i + 1;
    }
    out
}

/// `text` with blanks in front of it up to `width` characters.
pub fn pad_left_text(text: &str, width: usize) -> (out: String)
    ensures
        out@ == pad_left(text@, width as nat),
{
    let len: usize = text.unicode_len();
    let mut out: String = String::new();
    if len < width {
        let missing: usize = width - len;
        let mut i: usize = 0;
        proof {
            reveal_strlit(" ");
        }
        while i < missing
            invariant
                i <= missing,
                out@ == blanks(i as nat),
                " "@ == seq![' '],
            decreases missing - i,
        {
            out.append(" ");
            i = i + 1;
        }
    }
    out.append(text);
    out
}

/// How often `c` stands in `text`.
pub fn count_char(text: &str, c: char) -> (n: usize)
    ensures
        n == occurrences(text@, c),
{
    let len: usize = text.unicode_len();
    let mut n: usize = 0;
    for x in it: text.chars()
        invariant
            it.seq() == text@,
            n <= it.index() <= len,
            len == text@.len(),
            n == occurrences(text@.take(it.index()), c),
    {
        assert(text@.take(it.index() + 1).drop_last() =~= text@.take(it.index()));
        if x == c {
            n = n + 1;
        }
    }
    assert(text@.take(text@.len() as int) =~= text@);
    n
}

} // verus!
