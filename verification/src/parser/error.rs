//! Syntax errors, and how a failed reading becomes one.
use vstd::prelude::*;
use crate::lexer::token::{fixed_text, fixed_texts, num_fixed};
use crate::lexer::lexer_core::{TokenWithMetaData, TokenMeta, metas};
use crate::parser::grammar::{Expect, Fail};
use crate::text::{
    chars_to_string, position_info, position_of, get_nth_line, nth_line, byte_pos, push_char, str_chars, join,
    join_strings, occurs_in, contains_text, trim_quotes, trim_quote_marks,
};
use crate::error_reporter::{ErrorReporter, code_context, push_location, location_line, push_code_context, push_painted, Paint, Coloring, shown};
use crate::semantics::error::{quoted, str_opt_view};

verus! {

/// A syntax error, with the place in the source where it was found. Lines and
/// columns count from 1; a column counts bytes.
#[derive(Debug)]
#[allow(inconsistent_fields)]
pub enum SyntaxError {
    InvalidToken {
        position: usize,
        message: String,
        source_line: Option<String>,
        line: usize,
        column: usize,
    },
    UnexpectedEOF {
        position: usize,
        expected: Vec<String>,
        line: usize,
        column: usize,
    },
    UnexpectedToken {
        token: String,
        position: (usize, usize),
        expected: Vec<String>,
        source_line: Option<String>,
        line: usize,
        column: usize,
    },
    ExtraToken {
        token: String,
        position: (usize, usize),
        source_line: Option<String>,
        line: usize,
        column: usize,
    },
    Custom(String),
}

#[allow(inconsistent_fields)]
pub enum SyntaxErrorV {
    InvalidToken {
        position: int,
        message: Seq<char>,
        source_line: Option<Seq<char>>,
        line: int,
        column: int,
    },
    UnexpectedEOF { position: int, expected: Seq<Seq<char>>, line: int, column: int },
    UnexpectedToken {
        token: Seq<char>,
        position: (int, int),
        expected: Seq<Seq<char>>,
        source_line: Option<Seq<char>>,
        line: int,
        column: int,
    },
    ExtraToken {
        token: Seq<char>,
        position: (int, int),
        source_line: Option<Seq<char>>,
        line: int,
        column: int,
    },
    Custom(Seq<char>),
}

pub open spec fn opt_view(o: Option<String>) -> Option<Seq<char>> {
    match o {
        Some(s) => Some(s@),
        None => None,
    }
}

pub open spec fn strings_view(v: Seq<String>) -> Seq<Seq<char>> {
    v.map_values(|s: String| s@)
}

impl View for SyntaxError {
    type V = SyntaxErrorV;

    open spec fn view(&self) -> SyntaxErrorV {
        match self {
            SyntaxError::InvalidToken { position, message, source_line, line, column } =>
                SyntaxErrorV::InvalidToken {
                    position: *position as int,
                    message: message@,
                    source_line: opt_view(*source_line),
                    line: *line as int,
                    column: *column as int,
                },
            SyntaxError::UnexpectedEOF { position, expected, line, column } =>
                SyntaxErrorV::UnexpectedEOF {
                    position: *position as int,
                    expected: strings_view(expected@),
                    line: *line as int,
                    column: *column as int,
                },
            SyntaxError::UnexpectedToken { token, position, expected, source_line, line, column } =>
                SyntaxErrorV::UnexpectedToken {
                    token: token@,
                    position: (position.0 as int, position.1 as int),
                    expected: strings_view(expected@),
                    source_line: opt_view(*source_line),
                    line: *line as int,
                    column: *column as int,
                },
            SyntaxError::ExtraToken { token, position, source_line, line, column } =>
                SyntaxErrorV::ExtraToken {
                    token: token@,
                    position: (position.0 as int, position.1 as int),
                    source_line: opt_view(*source_line),
                    line: *line as int,
                    column: *column as int,
                },
            SyntaxError::Custom(m) => SyntaxErrorV::Custom(m@),
        }
    }
}

/// How an expected token class is named in a message: a fixed token by its
/// text in single quotes.
pub open spec fn expect_name(e: Expect) -> Seq<char> {
    match e {
        Expect::Fixed(k) => if k < num_fixed() {
            seq!['\''] + fixed_text(k as int) + seq!['\'']
        } else {
            seq!['\'', '\'']
        },
        Expect::Identifier => "identifier"@,
        Expect::Integer => "integer"@,
        Expect::Float => "float"@,
        Expect::Str => "string"@,
        Expect::End => "end of input"@,
    }
}

pub open spec fn expect_names(v: Seq<Expect>) -> Seq<Seq<char>> {
    v.map_values(|e: Expect| expect_name(e))
}

/// Where the input ends: after the last token, or 0 without tokens.
pub open spec fn end_position(ts: Seq<TokenMeta>) -> int {
    if ts.len() == 0 {
        0
    } else {
        ts[ts.len() - 1].end
    }
}

/// The syntax error for a reading that failed as `f`, over the tokens `ts`
/// of the source `src`: past the last token the input ended too early; a
/// token where nothing more was accepted is one too many; any other token
/// was not one of those expected. The line and column are those of the
/// token's first byte (of the end of the input), the source line is that line.
pub open spec fn syntax_error_of(f: Fail, ts: Seq<TokenMeta>, src: Seq<char>) -> SyntaxErrorV {
    if f.at < 0 || f.at >= ts.len() {
        let pos = end_position(ts);
        let lc = position_of(src, pos);
        SyntaxErrorV::UnexpectedEOF {
            position: pos,
            expected: expect_names(f.expected),
            line: lc.0,
            column: lc.1,
        }
    } else {
        let t = ts[f.at];
        let lc = position_of(src, t.start);
        if f.expected.len() == 0 {
            SyntaxErrorV::ExtraToken {
                token: t.value,
                position: (t.start, t.end),
                source_line: nth_line(src, lc.0 - 1),
                line: lc.0,
                column: lc.1,
            }
        } else {
            SyntaxErrorV::UnexpectedToken {
                token: t.value,
                position: (t.start, t.end),
                expected: expect_names(f.expected),
                source_line: nth_line(src, lc.0 - 1),
                line: lc.0,
                column: lc.1,
            }
        }
    }
}

/// The name of an expected token class.
pub fn expect_name_string(e: Expect) -> (r: String)
    ensures
        r@ == expect_name(e),
{
    match e {
        Expect::Fixed(k) => {
            let mut r = String::new();
            crate::text::push_char(&mut r, '\'');
            if k < 44 {
                let table = fixed_texts();
                let t = &table[k];
                let mut i: usize = 0;
                while i < t.len()
                    invariant
                        i <= t.len(),
                        r@ == seq!['\''] + t@.take(i as int),
                    decreases t.len() - i,
                {
                    crate::text::push_char(&mut r, t[i]);
                    assert(t@.take(i + 1) =~= t@.take(i as int).push(t@[i as int]));
                    i = i + 1;
                }
                assert(t@.take(t@.len() as int) =~= t@);
            }
            crate::text::push_char(&mut r, '\'');
            proof {
                if k < 44 {
                    assert(r@ =~= seq!['\''] + fixed_text(k as int) + seq!['\'']);
                } else {
                    assert(r@ =~= seq!['\'', '\'']);
                }
            }
            r
        },
        Expect::Identifier => String::from_str("identifier"),
        Expect::Integer => String::from_str("integer"),
        Expect::Float => String::from_str("float"),
        Expect::Str => String::from_str("string"),
        Expect::End => String::from_str("end of input"),
    }
}

/// The names of the expected token classes, in order.
pub fn expect_name_strings(v: &Vec<Expect>) -> (r: Vec<String>)
    ensures
        strings_view(r@) == expect_names(v@),
{
    let mut r: Vec<String> = Vec::new();
    let mut i: usize = 0;
    while i < v.len()
        invariant
            i <= v.len(),
            strings_view(r@) == expect_names(v@.take(i as int)),
        decreases v.len() - i,
    {
        let ghost old_r = r@;
        r.push(expect_name_string(v[i]));
        assert(strings_view(r@) =~= strings_view(old_r).push(expect_name(v@[i as int])));
        assert(expect_names(v@.take(i + 1)) =~= expect_names(v@.take(i as int)).push(expect_name(v@[i as int])));
        i = i + 1;
    }
    assert(v@.take(v@.len() as int) =~= v@);
    r
}

/// Turns a failed reading into the syntax error it reports.
pub fn syntax_error_from(f: &crate::parser::parser_core::ParseFailure, ts: &Vec<TokenWithMetaData>, src: &Vec<char>) -> (r: SyntaxError)
    requires
        byte_pos(src@, src@.len() as int) <= usize::MAX,
        forall|j: int| 0 <= j < ts@.len() ==> (#[trigger] ts@[j]).span.start < usize::MAX
            && ts@[j].span.end < usize::MAX,
    ensures
        r@ == syntax_error_of(f@, metas(ts@), src@),
{
    let ghost v = metas(ts@);
    let expected = expect_name_strings(&f.expected);
    if f.at >= ts.len() {
        let pos = if ts.len() == 0 {
            0
        } else {
            assert(v[ts.len() - 1] == ts@[ts.len() - 1]@);
            ts[ts.len() - 1].span.end
        };
        let (line, column) = position_info(src, pos);
        SyntaxError::UnexpectedEOF { position: pos, expected, line, column }
    } else {
        let t = &ts[f.at];
        assert(v[f.at as int] == ts@[f.at as int]@);
        let (line, column) = position_info(src, t.span.start);
        let source_line = get_nth_line(src, line - 1);
        if f.expected.len() == 0 {
            SyntaxError::ExtraToken {
                token: t.value.clone(),
                position: (t.span.start, t.span.end),
                source_line,
                line,
                column,
            }
        } else {
            SyntaxError::UnexpectedToken {
                token: t.value.clone(),
                position: (t.span.start, t.span.end),
                expected,
                source_line,
                line,
                column,
            }
        }
    }
}

// ----- Reports -----

/// The source line to quote: the one the error carries, else line `line` of
/// the source (empty when the source has no such line).
pub open spec fn quoted_line(carried: Option<Seq<char>>, source: Option<Seq<char>>, line: int) -> Option<Seq<char>> {
    match carried {
        Some(t) => Some(t),
        None => match source {
            Some(src) => if line >= 1 && nth_line(src, line - 1) is Some {
                Some(nth_line(src, line - 1)->0)
            } else {
                Some(Seq::empty())
            },
            None => None,
        },
    }
}

pub open spec fn context_of(text: Option<Seq<char>>, column: int, gutter: bool, underline: bool) -> Seq<char> {
    match text {
        Some(t) => code_context(t, column, 1, gutter, underline),
        None => Seq::empty(),
    }
}

pub open spec fn expected_part(expected: Seq<Seq<char>>, listing: bool) -> Seq<char> {
    if expected.len() == 0 {
        Seq::empty()
    } else {
        "Expected one of: "@ + shown(listing, Paint::Yellow, join(expected, ", "@)) + seq!['\n']
    }
}

/// The hint that goes with a syntax error, if any.
pub open spec fn syntax_suggestion(e: SyntaxErrorV) -> Option<Seq<char>> {
    match e {
        SyntaxErrorV::InvalidToken { message, .. } => if occurs_in(message, "invalid character"@) {
            Some("Check for invalid characters or symbols in your code"@)
        } else {
            Some("Review the syntax at this location"@)
        },
        SyntaxErrorV::UnexpectedEOF { expected, .. } => if expected.len() == 1 {
            Some("Add a "@ + quoted(expected[0]) + " to complete the statement"@)
        } else if expected.len() > 0 {
            Some("File ends abruptly. Complete the code with one of: "@ + join(expected, ", "@))
        } else {
            Some("Code ends unexpectedly. Check for unclosed blocks or missing tokens"@)
        },
        SyntaxErrorV::UnexpectedToken { token, expected, .. } => if token == ";"@ && expected.contains("')'"@) {
            Some("You may have an unbalanced parenthesis before this semicolon"@)
        } else if token == "}"@ && expected.contains("';'"@) {
            Some("Missing semicolon at the end of statement before this closing brace"@)
        } else if expected.len() == 1 {
            Some("Replace "@ + quoted(token) + " with "@ + quoted(trim_quotes(expected[0])))
        } else {
            Some("Expected one of ["@ + join(expected.map_values(|x: Seq<char>| trim_quotes(x)), ", "@)
                + "] instead of "@ + quoted(token))
        },
        SyntaxErrorV::ExtraToken { token, .. } => Some("Remove the extra token "@ + quoted(token)),
        SyntaxErrorV::Custom(_) => None,
    }
}

pub open spec fn suggestion_part(s: Option<Seq<char>>, on: bool) -> Seq<char> {
    match s {
        Some(t) => shown(on, Paint::CyanBold, "Suggestion"@) + ": "@ + t + seq!['\n'],
        None => Seq::empty(),
    }
}

/// The full report of a syntax error.
/// What a syntax report says after its header and before its suggestion.
pub open spec fn syntax_body(e: SyntaxErrorV, source: Option<Seq<char>>, c: Coloring) -> Seq<char> {
    match e {
        SyntaxErrorV::InvalidToken { message, source_line, line, column, .. } =>
            message + seq!['\n'] + location_line(line, column, c.arrow)
                + context_of(quoted_line(source_line, source, line), column, c.gutter, c.underline),
        SyntaxErrorV::UnexpectedEOF { expected, line, column, .. } =>
            "Unexpected end of file\n"@ + location_line(line, column, c.arrow)
                + match source {
                    Some(src) => if line >= 1 && nth_line(src, line - 1) is Some {
                        code_context(nth_line(src, line - 1)->0, column, 1, c.gutter, c.underline)
                    } else {
                        Seq::empty()
                    },
                    None => Seq::empty(),
                } + expected_part(expected, c.listing),
        SyntaxErrorV::UnexpectedToken { token, expected, source_line, line, column, .. } =>
            "Unexpected token "@ + quoted(token) + seq!['\n'] + location_line(line, column, c.arrow)
                + context_of(quoted_line(source_line, source, line), column, c.gutter, c.underline)
                + expected_part(expected, c.listing),
        SyntaxErrorV::ExtraToken { token, source_line, line, column, .. } =>
            "Extra token "@ + quoted(token) + " found\n"@ + location_line(line, column, c.arrow)
                + context_of(quoted_line(source_line, source, line), column, c.gutter, c.underline),
        SyntaxErrorV::Custom(m) => m + seq!['\n'],
    }
}

/// The full report of a syntax error.
pub open spec fn syntax_report(e: SyntaxErrorV, source: Option<Seq<char>>, c: Coloring) -> Seq<char> {
    shown(c.header, Paint::RedBold, "Syntax Error"@) + ": "@ + syntax_body(e, source, c)
        + suggestion_part(syntax_suggestion(e), c.suggestion)
}

fn push_quoted_text(s: &mut String, n: &String)
    ensures
        final(s)@ == old(s)@ + quoted(n@),
{
    push_char(s, '\'');
    s.append(n.as_str());
    push_char(s, '\'');
    assert(final(s)@ =~= old(s)@ + quoted(n@));
}

/// Line `line` (from 1) of `source`, or an empty text when there is none.
fn line_or_empty(source: &str, line: usize) -> (r: String)
    ensures
        quoted_line(None, Some(source@), line as int) == Some(r@),
{
    let src = str_chars(source);
    if line >= 1 {
        match get_nth_line(&src, line - 1) {
            Some(t) => t,
            None => String::new(),
        }
    } else {
        String::new()
    }
}

fn push_context(r: &mut String, carried: &Option<String>, source: Option<&str>, line: usize, column: usize) -> (c: Ghost<(bool, bool)>)
    ensures
        final(r)@ == old(r)@ + context_of(
            quoted_line(crate::semantics::error::opt_string_view(*carried), str_opt_view(source), line as int),
            column as int,
            c@.0,
            c@.1,
        ),
{
    let text: Option<String> = match carried {
        Some(t) => Some(t.clone()),
        None => match source {
            Some(code) => Some(line_or_empty(code, line)),
            None => None,
        },
    };
    match text {
        Some(t) => push_code_context(r, t.as_str(), column, 1),
        None => {
            assert(final(r)@ =~= old(r)@ + Seq::<char>::empty());
            Ghost((false, false))
        },
    }
}

fn push_expected(r: &mut String, expected: &Vec<String>) -> (listing: Ghost<bool>)
    ensures
        final(r)@ == old(r)@ + expected_part(strings_view(expected@), listing@),
{
    if expected.len() > 0 {
        r.append("Expected one of: ");
        let j = join_strings(expected, ", ");
        let listing = push_painted(r, j.as_str(), Paint::Yellow);
        push_char(r, '\n');
        assert(final(r)@ =~= old(r)@ + expected_part(strings_view(expected@), listing@));
        listing
    } else {
        assert(final(r)@ =~= old(r)@ + expected_part(strings_view(expected@), false));
        Ghost(false)
    }
}

pub fn contains_string(v: &Vec<String>, t: &str) -> (r: bool)
    ensures
        r == strings_view(v@).contains(t@),
{
    let key = String::from_str(t);
    let mut i: usize = 0;
    while i < v.len()
        invariant
            i <= v@.len(),
            key@ == t@,
            forall|k: int| 0 <= k < i ==> (#[trigger] v@[k])@ != t@,
        decreases v@.len() - i,
    {
        if v[i] == key {
            assert(strings_view(v@)[i as int] == t@);
            return true;
        }
        i = i + 1;
    }
    assert(!strings_view(v@).contains(t@)) by {
        if strings_view(v@).contains(t@) {
            let k = choose|k: int| 0 <= k < strings_view(v@).len() && strings_view(v@)[k] == t@;
            assert(v@[k]@ == t@);
        }
    }
    false
}

impl SyntaxError {
    fn suggestion_text(&self) -> (r: Option<String>)
        ensures
            match r {
                Some(t) => syntax_suggestion(self@) == Some(t@),
                None => syntax_suggestion(self@) is None,
            },
    {
        let mut r = String::new();
        match self {
            SyntaxError::InvalidToken { message, .. } => {
                if contains_text(message.as_str(), "invalid character") {
                    r.append("Check for invalid characters or symbols in your code");
                } else {
                    r.append("Review the syntax at this location");
                }
            },
            SyntaxError::UnexpectedEOF { expected, .. } => {
                if expected.len() == 1 {
                    r.append("Add a ");
                    push_quoted_text(&mut r, &expected[0]);
                    r.append(" to complete the statement");
                } else if expected.len() > 0 {
                    r.append("File ends abruptly. Complete the code with one of: ");
                    let j = join_strings(expected, ", ");
                    r.append(j.as_str());
                } else {
                    r.append("Code ends unexpectedly. Check for unclosed blocks or missing tokens");
                }
            },
            SyntaxError::UnexpectedToken { token, expected, .. } => {
                let semi = String::from_str(";");
                let brace = String::from_str("}");
                if *token == semi && contains_string(expected, "')'") {
                    r.append("You may have an unbalanced parenthesis before this semicolon");
                } else if *token == brace && contains_string(expected, "';'") {
                    r.append("Missing semicolon at the end of statement before this closing brace");
                } else if expected.len() == 1 {
                    r.append("Replace ");
                    push_quoted_text(&mut r, token);
                    r.append(" with ");
                    let t = trim_quote_marks(&expected[0]);
                    push_quoted_text(&mut r, &t);
                } else {
                    let mut trimmed: Vec<String> = Vec::new();
                    let mut i: usize = 0;
                    while i < expected.len()
                        invariant
                            i <= expected@.len(),
                            trimmed@.len() == i,
                            forall|k: int| 0 <= k < i ==> (#[trigger] trimmed@[k])@ == trim_quotes(expected@[k]@),
                        decreases expected@.len() - i,
                    {
                        trimmed.push(trim_quote_marks(&expected[i]));
                        i = i + 1;
                    }
                    assert(strings_view(trimmed@) =~= strings_view(expected@).map_values(|x: Seq<char>| trim_quotes(x)));
                    r.append("Expected one of [");
                    let j = join_strings(&trimmed, ", ");
                    r.append(j.as_str());
                    r.append("] instead of ");
                    push_quoted_text(&mut r, token);
                }
            },
            SyntaxError::ExtraToken { token, .. } => {
                r.append("Remove the extra token ");
                push_quoted_text(&mut r, token);
            },
            SyntaxError::Custom(_) => {
                return None;
            },
        }
        proof {
            reveal_strlit(";");
            reveal_strlit("}");
        }
        assert(syntax_suggestion(self@) == Some(r@));
        Some(r)
    }

    fn location(&self) -> (r: (usize, usize))
        ensures
            (r.0 as int, r.1 as int) == syntax_location(self@),
    {
        match self {
            SyntaxError::InvalidToken { line, column, .. } => (*line, *column),
            SyntaxError::UnexpectedEOF { line, column, .. } => (*line, *column),
            SyntaxError::UnexpectedToken { line, column, .. } => (*line, *column),
            SyntaxError::ExtraToken { line, column, .. } => (*line, *column),
            SyntaxError::Custom(_) => (0, 0),
        }
    }
}

/// Where a syntax error is: its line and column, or (0, 0) for a custom one.
pub open spec fn syntax_location(e: SyntaxErrorV) -> (int, int) {
    match e {
        SyntaxErrorV::InvalidToken { line, column, .. } => (line, column),
        SyntaxErrorV::UnexpectedEOF { line, column, .. } => (line, column),
        SyntaxErrorV::UnexpectedToken { line, column, .. } => (line, column),
        SyntaxErrorV::ExtraToken { line, column, .. } => (line, column),
        SyntaxErrorV::Custom(_) => (0, 0),
    }
}

impl SyntaxError {
    /// Appends what the report says after its header and before its
    /// suggestion; tells which parts came out coloured.
    fn push_body(&self, r: &mut String, source_code: Option<&str>) -> (c: Ghost<Coloring>)
        ensures
            final(r)@ == old(r)@ + syntax_body(self@, str_opt_view(source_code), c@),
    {
        match self {
            SyntaxError::InvalidToken { .. } => self.push_invalid_body(r, source_code),
            SyntaxError::UnexpectedEOF { .. } => self.push_end_body(r, source_code),
            SyntaxError::UnexpectedToken { .. } => self.push_unexpected_body(r, source_code),
            SyntaxError::ExtraToken { .. } => self.push_extra_body(r, source_code),
            SyntaxError::Custom(m) => {
                r.append(m.as_str());
                push_char(r, '\n');
                let ghost c = Coloring {
                    header: false,
                    arrow: false,
                    gutter: false,
                    underline: false,
                    listing: false,
                    note: false,
                    note_gutter: false,
                    suggestion: false,
                };
                assert(r@ =~= old(r)@ + syntax_body(self@, str_opt_view(source_code), c));
                Ghost(c)
            },
        }
    }

    fn push_invalid_body(&self, r: &mut String, source_code: Option<&str>) -> (c: Ghost<Coloring>)
        requires
            self is InvalidToken,
        ensures
            final(r)@ == old(r)@ + syntax_body(self@, str_opt_view(source_code), c@),
    {
        let (message, source_line, line, column) = match self {
            SyntaxError::InvalidToken { message, source_line, line, column, .. } => (message, source_line, *line, *column),
            _ => {
                return Ghost(arbitrary());
            },
        };
        r.append(message.as_str());
        push_char(r, '\n');
        let c = push_place(r, source_line, source_code, line, column);
        assert(r@ =~= old(r)@ + syntax_body(self@, str_opt_view(source_code), c@));
        c
    }

    fn push_end_body(&self, r: &mut String, source_code: Option<&str>) -> (c: Ghost<Coloring>)
        requires
            self is UnexpectedEOF,
        ensures
            final(r)@ == old(r)@ + syntax_body(self@, str_opt_view(source_code), c@),
    {
        let (expected, line, column) = match self {
            SyntaxError::UnexpectedEOF { expected, line, column, .. } => (expected, *line, *column),
            _ => {
                return Ghost(arbitrary());
            },
        };
        r.append("Unexpected end of file\n");
        let c = push_end_place(r, source_code, line, column, expected);
        assert(r@ =~= old(r)@ + syntax_body(self@, str_opt_view(source_code), c@));
        c
    }

    fn push_unexpected_body(&self, r: &mut String, source_code: Option<&str>) -> (c: Ghost<Coloring>)
        requires
            self is UnexpectedToken,
        ensures
            final(r)@ == old(r)@ + syntax_body(self@, str_opt_view(source_code), c@),
    {
        let (token, expected, source_line, line, column) = match self {
            SyntaxError::UnexpectedToken { token, expected, source_line, line, column, .. } =>
                (token, expected, source_line, *line, *column),
            _ => {
                return Ghost(arbitrary());
            },
        };
        r.append("Unexpected token ");
        push_quoted_text(r, token);
        push_char(r, '\n');
        let ghost a = r@;
        let c0 = push_place(r, source_line, source_code, line, column);
        let ghost b = r@;
        let l = push_expected(r, expected);
        let ghost c = Coloring { listing: l@, ..c0@ };
        let ghost place = location_line(line as int, column as int, c0@.arrow) + context_of(
            quoted_line(crate::semantics::error::opt_string_view(*source_line), str_opt_view(source_code), line as int),
            column as int,
            c0@.gutter,
            c0@.underline,
        );
        assert(a =~= old(r)@ + "Unexpected token "@ + quoted(token@) + seq!['\n']);
        assert(b =~= a + place);
        assert(r@ =~= b + expected_part(strings_view(expected@), l@));
        assert(c.arrow == c0@.arrow && c.gutter == c0@.gutter && c.underline == c0@.underline && c.listing == l@);
        assert(r@ =~= old(r)@ + syntax_body(self@, str_opt_view(source_code), c));
        Ghost(c)
    }

    fn push_extra_body(&self, r: &mut String, source_code: Option<&str>) -> (c: Ghost<Coloring>)
        requires
            self is ExtraToken,
        ensures
            final(r)@ == old(r)@ + syntax_body(self@, str_opt_view(source_code), c@),
    {
        let (token, source_line, line, column) = match self {
            SyntaxError::ExtraToken { token, source_line, line, column, .. } => (token, source_line, *line, *column),
            _ => {
                return Ghost(arbitrary());
            },
        };
        r.append("Extra token ");
        push_quoted_text(r, token);
        r.append(" found\n");
        let c = push_place(r, source_line, source_code, line, column);
        assert(r@ =~= old(r)@ + syntax_body(self@, str_opt_view(source_code), c@));
        c
    }
}

/// Appends the place of an error and the source line to quote.
fn push_place(r: &mut String, carried: &Option<String>, source: Option<&str>, line: usize, column: usize) -> (c: Ghost<Coloring>)
    ensures
        final(r)@ == old(r)@ + location_line(line as int, column as int, c@.arrow) + context_of(
            quoted_line(crate::semantics::error::opt_string_view(*carried), str_opt_view(source), line as int),
            column as int,
            c@.gutter,
            c@.underline,
        ),
        !c@.listing,
{
    let a = push_location(r, line, column);
    let ghost mid = r@;
    let ctx = push_context(r, carried, source, line, column);
    let ghost c = Coloring {
        header: false,
        arrow: a@,
        gutter: ctx@.0,
        underline: ctx@.1,
        listing: false,
        note: false,
        note_gutter: false,
        suggestion: false,
    };
    assert(r@ =~= old(r)@ + location_line(line as int, column as int, a@) + (r@.skip(mid.len() as int)));
    Ghost(c)
}

/// Appends the place of an end-of-input error, the source line and the
/// tokens expected.
fn push_end_place(r: &mut String, source: Option<&str>, line: usize, column: usize, expected: &Vec<String>) -> (c: Ghost<Coloring>)
    ensures
        final(r)@ == old(r)@ + location_line(line as int, column as int, c@.arrow) + match str_opt_view(source) {
            Some(src) => if line >= 1 && nth_line(src, line - 1) is Some {
                code_context(nth_line(src, line - 1)->0, column as int, 1, c@.gutter, c@.underline)
            } else {
                Seq::empty()
            },
            None => Seq::empty(),
        } + expected_part(strings_view(expected@), c@.listing),
{
    let a = push_location(r, line, column);
    let ghost mid = r@;
    let ghost mut g = false;
    let ghost mut u = false;
    match source {
        Some(code) => {
            let text = str_chars(code);
            if line >= 1 {
                match get_nth_line(&text, line - 1) {
                    Some(t) => {
                        let ctx = push_code_context(r, t.as_str(), column, 1);
                        proof {
                            g = ctx@.0;
                            u = ctx@.1;
                        }
                    },
                    None => {},
                }
            }
        },
        None => {},
    }
    let ghost ctx_text = match str_opt_view(source) {
        Some(t) => if line >= 1 && nth_line(t, line - 1) is Some {
            code_context(nth_line(t, line - 1)->0, column as int, 1, g, u)
        } else {
            Seq::<char>::empty()
        },
        None => Seq::<char>::empty(),
    };
    assert(r@ =~= mid + ctx_text);
    let ghost mid2 = r@;
    let l = push_expected(r, expected);
    let ghost c = Coloring {
        header: false,
        arrow: a@,
        gutter: g,
        underline: u,
        listing: l@,
        note: false,
        note_gutter: false,
        suggestion: false,
    };
    assert(r@ =~= old(r)@ + location_line(line as int, column as int, a@) + ctx_text
        + expected_part(strings_view(expected@), l@));
    Ghost(c)
}

impl ErrorReporter for SyntaxError {
    /// The report: the message, the place, the source line (the one the
    /// error carries, else the one of `source_code`), the tokens expected
    /// and the suggestion.
    fn report(&self, source_code: Option<&str>) -> (r: String)
        ensures
            exists|c: Coloring| r@ == syntax_report(self@, str_opt_view(source_code), c),
    {
        let mut r = String::new();
        let header = push_painted(&mut r, "Syntax Error", Paint::RedBold);
        r.append(": ");
        let body = self.push_body(&mut r, source_code);
        let ghost mut hint = false;
        match self.suggestion_text() {
            Some(t) => {
                let h = push_painted(&mut r, "Suggestion", Paint::CyanBold);
                r.append(": ");
                r.append(t.as_str());
                push_char(&mut r, '\n');
                proof {
                    hint = h@;
                }
            },
            None => {},
        }
        let ghost c = Coloring { header: header@, suggestion: hint, ..body@ };
        assert(r@ =~= syntax_report(self@, str_opt_view(source_code), c));
        r
    }

    fn get_suggestion(&self) -> (r: Option<String>)
        ensures
            match r {
                Some(t) => syntax_suggestion(self@) == Some(t@),
                None => syntax_suggestion(self@) is None,
            },
    {
        self.suggestion_text()
    }

    fn get_error_name(&self) -> (r: String)
        ensures
            r@ == "Syntax Error"@,
    {
        String::from_str("Syntax Error")
    }

    fn get_location_info(&self) -> (r: (usize, usize))
        ensures
            (r.0 as int, r.1 as int) == syntax_location(self@),
    {
        self.location()
    }
}

} // verus!
