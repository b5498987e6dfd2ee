//! How errors are reported: a header, the place, the source line with the
//! culprit underlined, and a suggestion. Headers, the arrow, the gutter and
//! the underline are coloured when the terminal takes colours.
use vstd::prelude::*;
use colored::Colorize;
use crate::text::{push_char, push_decimal, decimal, str_chars, get_nth_line, nth_line, start_search};

verus! {

/// `n` copies of `c`.
pub open spec fn repeat_char(c: char, n: int) -> Seq<char> {
    Seq::new(if n > 0 { n as nat } else { 0 }, |i: int| c)
}

// ----- Colours -----

/// The styles the reports use.
pub enum Paint {
    RedBold,
    Blue,
    BrightRedBold,
    CyanBold,
    Yellow,
}

/// Which parts of a report came out coloured.
pub struct Coloring {
    pub header: bool,
    pub arrow: bool,
    pub gutter: bool,
    pub underline: bool,
    pub listing: bool,
    pub note: bool,
    pub note_gutter: bool,
    pub suggestion: bool,
}

/// The escape sequence that starts style `p`.
pub open spec fn escape_code(p: Paint) -> Seq<char> {
    match p {
        Paint::RedBold => seq!['\x1B', '[', '1', ';', '3', '1', 'm'],
        Paint::Blue => seq!['\x1B', '[', '3', '4', 'm'],
        Paint::BrightRedBold => seq!['\x1B', '[', '1', ';', '9', '1', 'm'],
        Paint::CyanBold => seq!['\x1B', '[', '1', ';', '3', '6', 'm'],
        Paint::Yellow => seq!['\x1B', '[', '3', '3', 'm'],
    }
}

/// The escape sequence that ends every style.
pub open spec fn reset_code() -> Seq<char> {
    seq!['\x1B', '[', '0', 'm']
}

/// `t` with `code` put back after each reset sequence in it, so that a
/// coloured text inside keeps the outer style after its own end.
pub open spec fn restyled(t: Seq<char>, code: Seq<char>) -> Seq<char>
    decreases t.len(),
{
    if t.len() >= 4 && t.take(4) == reset_code() {
        reset_code() + code + restyled(t.skip(4), code)
    } else if t.len() == 0 {
        t
    } else {
        seq![t[0]] + restyled(t.skip(1), code)
    }
}

/// `t` in style `p`.
#[verifier::opaque]
pub open spec fn painted(p: Paint, t: Seq<char>) -> Seq<char> {
    escape_code(p) + restyled(t, escape_code(p)) + reset_code()
}

/// `t` in style `p` when `on`, else `t` itself.
pub open spec fn shown(on: bool, p: Paint, t: Seq<char>) -> Seq<char> {
    if on { painted(p, t) } else { t }
}

/// `text.red().bold()` of `colored`, as a string: `text` itself when
/// colouring is off (no terminal, `NO_COLOR`, an override), else `text`
/// between the escape sequence of bold red and the reset sequence, any reset
/// inside it followed by the style again. Which of the two comes out depends
/// on the environment, so the contract gives both.
#[verifier::external_body]
pub(crate) fn paint_red_bold(text: &str) -> (r: String)
    ensures
        r@ == text@ || r@ == painted(Paint::RedBold, text@),
{
    text.red().bold().to_string()
}

/// `text.blue()` of `colored`, as a string: `text` itself, or `text` in
/// blue (see `paint_red_bold`).
#[verifier::external_body]
pub(crate) fn paint_blue(text: &str) -> (r: String)
    ensures
        r@ == text@ || r@ == painted(Paint::Blue, text@),
{
    text.blue().to_string()
}

/// `text.bright_red().bold()` of `colored`, as a string: `text` itself, or
/// `text` in bold bright red (see `paint_red_bold`).
#[verifier::external_body]
pub(crate) fn paint_bright_red_bold(text: &str) -> (r: String)
    ensures
        r@ == text@ || r@ == painted(Paint::BrightRedBold, text@),
{
    text.bright_red().bold().to_string()
}

/// `text.cyan().bold()` of `colored`, as a string: `text` itself, or `text`
/// in bold cyan (see `paint_red_bold`).
#[verifier::external_body]
pub(crate) fn paint_cyan_bold(text: &str) -> (r: String)
    ensures
        r@ == text@ || r@ == painted(Paint::CyanBold, text@),
{
    text.cyan().bold().to_string()
}

/// `text.yellow()` of `colored`, as a string: `text` itself, or `text` in
/// yellow (see `paint_red_bold`).
#[verifier::external_body]
pub(crate) fn paint_yellow(text: &str) -> (r: String)
    ensures
        r@ == text@ || r@ == painted(Paint::Yellow, text@),
{
    text.yellow().to_string()
}

/// Appends `text` in style `p` to `s`; tells whether it came out coloured.
pub(crate) fn push_painted(s: &mut String, text: &str, p: Paint) -> (on: Ghost<bool>)
    ensures
        final(s)@ == old(s)@ + shown(on@, p, text@),
{
    let t = match p {
        Paint::RedBold => paint_red_bold(text),
        Paint::Blue => paint_blue(text),
        Paint::BrightRedBold => paint_bright_red_bold(text),
        Paint::CyanBold => paint_cyan_bold(text),
        Paint::Yellow => paint_yellow(text),
    };
    let ghost on = t@ != text@;
    s.append(t.as_str());
    Ghost(on)
}

/// The source line, then a line that points at `column` (from 1) with a `^`
/// followed by `~` up to the length of the token. The first gutter may be
/// blue and the pointer bold bright red.
pub open spec fn code_context(line: Seq<char>, column: int, token_length: int, gutter: bool, underline: bool) -> Seq<char> {
    shown(gutter, Paint::Blue, seq![' ', '|', ' ']) + line + seq!['\n'] + seq![' ', '|', ' ']
        + repeat_char(' ', column - 1)
        + shown(
            underline,
            Paint::BrightRedBold,
            seq!['^'] + repeat_char('~', (if token_length > 1 { token_length } else { 1 }) - 1),
        ) + seq!['\n']
}

/// `--> line L, column C` and a line feed; the arrow may be blue.
pub open spec fn location_line(line: int, column: int, arrow: bool) -> Seq<char> {
    shown(arrow, Paint::Blue, "-->"@) + " line "@ + decimal(line as nat) + ", column "@ + decimal(column as nat)
        + seq!['\n']
}

/// Appends `n` copies of `c` to `s`.
pub fn push_repeated(s: &mut String, c: char, n: usize)
    ensures
        final(s)@ == old(s)@ + repeat_char(c, n as int),
{
    let mut i: usize = 0;
    while i < n
        invariant
            i <= n,
            s@ == old(s)@ + repeat_char(c, i as int),
        decreases n - i,
    {
        push_char(s, c);
        assert(old(s)@ + repeat_char(c, i + 1) =~= (old(s)@ + repeat_char(c, i as int)).push(c));
        i = i + 1;
    }
}

/// Appends `--> line L, column C` and a line feed to `s`; tells whether
/// the arrow came out coloured.
pub(crate) fn push_location(s: &mut String, line: usize, column: usize) -> (arrow: Ghost<bool>)
    ensures
        final(s)@ == old(s)@ + location_line(line as int, column as int, arrow@),
{
    let arrow = push_painted(s, "-->", Paint::Blue);
    s.append(" line ");
    push_decimal(s, line);
    s.append(", column ");
    push_decimal(s, column);
    push_char(s, '\n');
    assert(final(s)@ =~= old(s)@ + location_line(line as int, column as int, arrow@));
    arrow
}

/// Appends the source line with the token at `column` (from 1) underlined
/// over `token_length` bytes (at least one); tells which parts came out
/// coloured.
pub(crate) fn push_code_context(s: &mut String, source_line: &str, column: usize, token_length: usize) -> (c: Ghost<(bool, bool)>)
    ensures
        final(s)@ == old(s)@ + code_context(source_line@, column as int, token_length as int, c@.0, c@.1),
{
    proof {
        reveal_strlit(" | ");
        assert(" | "@ =~= seq![' ', '|', ' ']);
    }
    let gutter = push_painted(s, " | ", Paint::Blue);
    let ghost after_gutter = s@;
    s.append(source_line);
    push_char(s, '\n');
    s.append(" | ");
    let pad = if column >= 1 { column - 1 } else { 0 };
    push_repeated(s, ' ', pad);
    let mut pointer = String::new();
    push_char(&mut pointer, '^');
    let length = if token_length > 1 { token_length } else { 1 };
    push_repeated(&mut pointer, '~', length - 1);
    let ghost before_pointer = s@;
    let underline = push_painted(s, pointer.as_str(), Paint::BrightRedBold);
    push_char(s, '\n');
    proof {
        assert(repeat_char(' ', column - 1) =~= repeat_char(' ', pad as int));
        assert(pointer@ =~= seq!['^'] + repeat_char('~', (if token_length > 1 { token_length as int } else { 1 }) - 1));
        assert(after_gutter =~= old(s)@ + shown(gutter@, Paint::Blue, seq![' ', '|', ' ']));
        assert(before_pointer =~= after_gutter + source_line@ + seq!['\n'] + seq![' ', '|', ' '] + repeat_char(' ', column - 1));
    }
    assert(final(s)@ =~= old(s)@ + code_context(source_line@, column as int, token_length as int, gutter@, underline@));
    Ghost((gutter@, underline@))
}

/// The source line with the token at `column` (from 1) underlined over
/// `token_length` bytes (at least one); the gutter and the pointer are
/// coloured when the terminal takes colours.
pub fn format_code_context(source_line: &str, column: usize, token_length: usize) -> (r: String)
    ensures
        exists|gutter: bool, underline: bool|
            r@ == code_context(source_line@, column as int, token_length as int, gutter, underline),
{
    let mut result = String::new();
    let c = push_code_context(&mut result, source_line, column, token_length);
    assert(result@ =~= code_context(source_line@, column as int, token_length as int, c@.0, c@.1));
    result
}

/// What every error of this crate can tell about itself.
pub trait ErrorReporter {
    /// The full report, with the source line when `source_code` is given.
    fn report(&self, source_code: Option<&str>) -> String;

    /// A hint on how to fix the error.
    fn get_suggestion(&self) -> Option<String>;

    /// The kind of error, as the report's header names it.
    fn get_error_name(&self) -> String;

    /// Line and column of the error.
    fn get_location_info(&self) -> (usize, usize);
}

/// Lays out a list of error reports.
pub struct ErrorReportFormatter;

proof fn lemma_start_search_far(s: Seq<char>, k: int, n: int)
    requires
        0 <= k,
        0 <= n,
    ensures
        start_search(s, k, n) == -1 || start_search(s, k, n) >= k + n,
    decreases s.len() - k,
{
    if n > 0 && k < s.len() {
        if s[k] == '\n' {
            lemma_start_search_far(s, k + 1, n - 1);
        } else {
            lemma_start_search_far(s, k + 1, n);
        }
    }
}

impl ErrorReportFormatter {
    /// The lines of a report, as `str::lines` splits them: the first `n`
    /// lines of the text, where line `n` is past its end.
    pub fn report_lines(report: &str) -> (r: Vec<String>)
        ensures
            nth_line(report@, r@.len() as int) is None,
            forall|i: int| 0 <= i < r@.len() ==> nth_line(report@, i) == Some((#[trigger] r@[i])@),
    {
        let cs = str_chars(report);
        let mut r: Vec<String> = Vec::new();
        let mut i: usize = 0;
        while i < cs.len()
            invariant
                cs@ == report@,
                r@.len() == i,
                forall|k: int| 0 <= k < i ==> nth_line(report@, k) == Some((#[trigger] r@[k])@),
            decreases cs@.len() - i,
        {
            match get_nth_line(&cs, i) {
                Some(line) => {
                    r.push(line);
                },
                None => {
                    return r;
                },
            }
            i = i + 1;
        }
        proof {
            lemma_start_search_far(report@, 0, i as int);
        }
        r
    }
}

} // verus!
