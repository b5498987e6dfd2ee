use vstd::prelude::*;
use crate::lexer::lexer_core::TokenWithMetaData;
use crate::lexer::patterns::{is_digit, is_upper};
use crate::lexer::lexeme::{has_double_underscore, has_upper_after_first};
use vstd::utf8::encode_utf8;
use crate::text::{push_char, str_chars, get_nth_line, nth_line, chars_to_string};
use crate::error_reporter::{ErrorReporter, code_context, push_location, location_line, push_code_context, push_painted, Paint, Coloring, shown};
use crate::semantics::error::{quoted, str_opt_view};

verus! {

/// The kinds of lexical errors.
#[derive(Debug, Clone, PartialEq, Eq, Structural)]
pub enum LexicalErrorType {
    UnterminatedString,
    NonAsciiCharacters,
    IdentifierTooLong,
    InvalidIdentifier,
    ConsecutiveUnderscores,
    TrailingUnderscore,
    IdentifierStartsWithNumber,
    IntegerOutOfRange,
    SignedNumberNotParenthesized,
    InvalidToken,
}

/// A text the lexer could not turn into a token.
#[derive(Debug)]
pub struct LexicalError {
    pub invalid_token: String,
    pub line: usize,
    pub column: usize,
    pub error_type: LexicalErrorType,
}

pub struct LexicalErrorV {
    pub invalid_token: Seq<char>,
    pub line: int,
    pub column: int,
    pub error_type: LexicalErrorType,
}

impl View for LexicalError {
    type V = LexicalErrorV;

    open spec fn view(&self) -> LexicalErrorV {
        LexicalErrorV {
            invalid_token: self.invalid_token@,
            line: self.line as int,
            column: self.column as int,
            error_type: self.error_type,
        }
    }
}

pub open spec fn is_ascii_char(c: char) -> bool {
    (c as u32) < 128
}

pub open spec fn has_non_ascii(v: Seq<char>) -> bool {
    exists|k: int| 0 <= k < v.len() && !is_ascii_char(#[trigger] v[k])
}

pub open spec fn all_ascii_digits(v: Seq<char>) -> bool {
    forall|k: int| 0 <= k < v.len() ==> is_digit(#[trigger] v[k])
}

pub open spec fn has_digit(v: Seq<char>) -> bool {
    exists|k: int| 0 <= k < v.len() && is_digit(#[trigger] v[k])
}

pub open spec fn starts_with(v: Seq<char>, c: char) -> bool {
    v.len() > 0 && v[0] == c
}

pub open spec fn ends_with(v: Seq<char>, c: char) -> bool {
    v.len() > 0 && v[v.len() - 1] == c
}

/// What went wrong with the text `v`, judged in this order.
pub open spec fn error_type_of(v: Seq<char>) -> LexicalErrorType {
    if starts_with(v, '"') && !ends_with(v, '"') {
        LexicalErrorType::UnterminatedString
    } else if has_non_ascii(v) {
        LexicalErrorType::NonAsciiCharacters
    } else if all_ascii_digits(v) || (starts_with(v, '(') && ends_with(v, ')') && has_digit(
        v.subrange(1, v.len() - 1),
    )) {
        LexicalErrorType::IntegerOutOfRange
    } else if (starts_with(v, '-') || starts_with(v, '+')) && has_digit(v.skip(1)) {
        LexicalErrorType::SignedNumberNotParenthesized
    } else if v.len() > 14 {
        LexicalErrorType::IdentifierTooLong
    } else if has_double_underscore(v) {
        LexicalErrorType::ConsecutiveUnderscores
    } else if ends_with(v, '_') {
        LexicalErrorType::TrailingUnderscore
    } else if v.len() > 0 && is_digit(v[0]) {
        LexicalErrorType::IdentifierStartsWithNumber
    } else if has_upper_after_first(v) {
        LexicalErrorType::InvalidIdentifier
    } else {
        LexicalErrorType::InvalidToken
    }
}

fn has_non_ascii_exec(v: &Vec<char>) -> (r: bool)
    ensures
        r == has_non_ascii(v@),
{
    let mut k: usize = 0;
    while k < v.len()
        invariant
            0 <= k <= v.len(),
            forall|q: int| 0 <= q < k ==> is_ascii_char(#[trigger] v@[q]),
        decreases v.len() - k,
    {
        if (v[k] as u32) >= 128 {
            return true;
        }
        k = k + 1;
    }
    false
}

/// Are all of `v[a..b]` digits / is one of them a digit?
fn digits_in(v: &Vec<char>, a: usize, b: usize) -> (r: (bool, bool))
    requires
        a <= b <= v.len(),
    ensures
        r.0 == all_ascii_digits(v@.subrange(a as int, b as int)),
        r.1 == has_digit(v@.subrange(a as int, b as int)),
{
    let ghost w = v@.subrange(a as int, b as int);
    let mut all = true;
    let mut some = false;
    let mut k = a;
    while k < b
        invariant
            a <= k <= b <= v.len(),
            w == v@.subrange(a as int, b as int),
            all == (forall|q: int| 0 <= q < k - a ==> is_digit(#[trigger] w[q])),
            some == (exists|q: int| 0 <= q < k - a && is_digit(#[trigger] w[q])),
        decreases b - k,
    {
        let d = '0' <= v[k] && v[k] <= '9';
        assert(w[k - a] == v@[k as int]);
        if d {
            some = true;
        } else {
            all = false;
        }
        k = k + 1;
    }
    (all, some)
}

fn has_double_underscore_exec(v: &Vec<char>) -> (r: bool)
    ensures
        r == has_double_underscore(v@),
{
    let mut k: usize = 0;
    while v.len() > 0 && k < v.len() - 1
        invariant
            0 <= k,
            k <= v.len(),
            forall|q: int| 0 <= q < k && q < v@.len() - 1 ==> !(#[trigger] v@[q] == '_' && v@[q + 1] == '_'),
        decreases v.len() - k,
    {
        if v[k] == '_' && v[k + 1] == '_' {
            return true;
        }
        k = k + 1;
    }
    false
}

fn has_upper_after_first_exec(v: &Vec<char>) -> (r: bool)
    ensures
        r == has_upper_after_first(v@),
{
    let mut k: usize = 1;
    while k < v.len()
        invariant
            1 <= k,
            forall|q: int| 1 <= q < k && q < v@.len() ==> !is_upper(#[trigger] v@[q]),
        decreases v.len() - k,
    {
        if 'A' <= v[k] && v[k] <= 'Z' {
            return true;
        }
        k = k + 1;
    }
    false
}

/// The kind of error of the text `v`.
pub fn classify_error(v: &Vec<char>) -> (r: LexicalErrorType)
    ensures
        r == error_type_of(v@),
{
    let n = v.len();
    if n > 0 && v[0] == '"' && !(v[n - 1] == '"') {
        return LexicalErrorType::UnterminatedString;
    }
    if has_non_ascii_exec(v) {
        return LexicalErrorType::NonAsciiCharacters;
    }
    let (all, _) = digits_in(v, 0, n);
    assert(v@.subrange(0, n as int) =~= v@);
    if all {
        return LexicalErrorType::IntegerOutOfRange;
    }
    if n >= 2 && v[0] == '(' && v[n - 1] == ')' {
        let (_, some) = digits_in(v, 1, n - 1);
        if some {
            return LexicalErrorType::IntegerOutOfRange;
        }
    }
    if n > 0 && (v[0] == '-' || v[0] == '+') {
        let (_, some) = digits_in(v, 1, n);
        assert(v@.subrange(1, n as int) =~= v@.skip(1));
        if some {
            return LexicalErrorType::SignedNumberNotParenthesized;
        }
    }
    if n > 14 {
        return LexicalErrorType::IdentifierTooLong;
    }
    if has_double_underscore_exec(v) {
        return LexicalErrorType::ConsecutiveUnderscores;
    }
    if n > 0 && v[n - 1] == '_' {
        return LexicalErrorType::TrailingUnderscore;
    }
    if n > 0 && '0' <= v[0] && v[0] <= '9' {
        return LexicalErrorType::IdentifierStartsWithNumber;
    }
    if has_upper_after_first_exec(v) {
        return LexicalErrorType::InvalidIdentifier;
    }
    LexicalErrorType::InvalidToken
}

} // verus!

verus! {

impl LexicalError {
    /// The error for the text of a token the lexer rejected.
    pub fn new(token: TokenWithMetaData) -> (r: Self)
        ensures
            r@ == (LexicalErrorV {
                invalid_token: token.value@,
                line: token.line as int,
                column: token.column as int,
                error_type: error_type_of(token.value@),
            }),
    {
        let chars = crate::text::str_chars(token.value.as_str());
        let error_type = classify_error(&chars);
        LexicalError {
            invalid_token: token.value,
            line: token.line,
            column: token.column,
            error_type,
        }
    }
}

// ----- Reports -----

/// What went wrong, for the text `t` and the kind of error `k`.
pub open spec fn error_description(k: LexicalErrorType, t: Seq<char>) -> Seq<char> {
    match k {
        LexicalErrorType::UnterminatedString => "Unterminated string "@ + quoted(t) + " - missing closing quote"@,
        LexicalErrorType::NonAsciiCharacters => "Non-ASCII characters in "@ + quoted(t),
        LexicalErrorType::IdentifierTooLong => "Identifier "@ + quoted(t) + " exceeds maximum length of 14 characters"@,
        LexicalErrorType::ConsecutiveUnderscores => "Consecutive underscores in identifier "@ + quoted(t),
        LexicalErrorType::TrailingUnderscore => "Identifier "@ + quoted(t) + " ends with underscore"@,
        LexicalErrorType::InvalidIdentifier => "Invalid identifier "@ + quoted(t),
        LexicalErrorType::IdentifierStartsWithNumber => "Identifier "@ + quoted(t) + " starts with a number"@,
        LexicalErrorType::IntegerOutOfRange => "Integer "@ + quoted(t) + " is out of range"@,
        LexicalErrorType::SignedNumberNotParenthesized => "Signed number "@ + quoted(t) + " must be parenthesized"@,
        LexicalErrorType::InvalidToken => "Invalid token "@ + quoted(t),
    }
}

/// Every description quotes the rejected text.
pub proof fn lemma_description_quotes_token(k: LexicalErrorType, t: Seq<char>)
    ensures
        exists|i: int|
            0 <= i && i + quoted(t).len() <= error_description(k, t).len()
                && #[trigger] error_description(k, t).subrange(i, i + quoted(t).len()) == quoted(t),
{
    let d = error_description(k, t);
    let q = quoted(t);
    let p: Seq<char> = match k {
        LexicalErrorType::UnterminatedString => "Unterminated string "@,
        LexicalErrorType::NonAsciiCharacters => "Non-ASCII characters in "@,
        LexicalErrorType::IdentifierTooLong => "Identifier "@,
        LexicalErrorType::ConsecutiveUnderscores => "Consecutive underscores in identifier "@,
        LexicalErrorType::TrailingUnderscore => "Identifier "@,
        LexicalErrorType::InvalidIdentifier => "Invalid identifier "@,
        LexicalErrorType::IdentifierStartsWithNumber => "Identifier "@,
        LexicalErrorType::IntegerOutOfRange => "Integer "@,
        LexicalErrorType::SignedNumberNotParenthesized => "Signed number "@,
        LexicalErrorType::InvalidToken => "Invalid token "@,
    };
    assert(d.subrange(0, p.len() as int) =~= p);
    assert(d.subrange(p.len() as int, (p.len() + q.len()) as int) =~= q);
}

/// How many characters a description has besides the rejected text.
spec fn description_extra(k: LexicalErrorType) -> int {
    match k {
        LexicalErrorType::UnterminatedString => 46,
        LexicalErrorType::NonAsciiCharacters => 26,
        LexicalErrorType::IdentifierTooLong => 53,
        LexicalErrorType::ConsecutiveUnderscores => 40,
        LexicalErrorType::TrailingUnderscore => 34,
        LexicalErrorType::InvalidIdentifier => 21,
        LexicalErrorType::IdentifierStartsWithNumber => 34,
        LexicalErrorType::IntegerOutOfRange => 26,
        LexicalErrorType::SignedNumberNotParenthesized => 38,
        LexicalErrorType::InvalidToken => 16,
    }
}

proof fn lemma_description_shape(k: LexicalErrorType, t: Seq<char>)
    ensures
        error_description(k, t).len() == t.len() + description_extra(k),
        k == LexicalErrorType::NonAsciiCharacters ==> error_description(k, t)[0] == 'N',
        k == LexicalErrorType::IntegerOutOfRange ==> error_description(k, t)[0] == 'I',
        k == LexicalErrorType::TrailingUnderscore ==> error_description(k, t)[t.len() + 14int] == 'e',
        k == LexicalErrorType::IdentifierStartsWithNumber ==> error_description(k, t)[t.len() + 14int] == 's',
{
    reveal_strlit("Unterminated string ");
    reveal_strlit(" - missing closing quote");
    reveal_strlit("Non-ASCII characters in ");
    reveal_strlit("Identifier ");
    reveal_strlit(" exceeds maximum length of 14 characters");
    reveal_strlit("Consecutive underscores in identifier ");
    reveal_strlit(" ends with underscore");
    reveal_strlit("Invalid identifier ");
    reveal_strlit(" starts with a number");
    reveal_strlit("Integer ");
    reveal_strlit(" is out of range");
    reveal_strlit("Signed number ");
    reveal_strlit(" must be parenthesized");
    reveal_strlit("Invalid token ");
    let n = t.len() as int;
    let d = error_description(k, t);
    if k == LexicalErrorType::TrailingUnderscore {
        assert(d == "Identifier "@ + quoted(t) + " ends with underscore"@);
        assert(d[n + 14] == " ends with underscore"@[1]);
    }
    if k == LexicalErrorType::IdentifierStartsWithNumber {
        assert(d == "Identifier "@ + quoted(t) + " starts with a number"@);
        assert(d[n + 14] == " starts with a number"@[1]);
    }
}

/// Different kinds of lexical errors are described differently, whatever
/// the rejected text.
pub proof fn lemma_descriptions_distinct(k1: LexicalErrorType, k2: LexicalErrorType, t: Seq<char>)
    requires
        k1 != k2,
    ensures
        error_description(k1, t) != error_description(k2, t),
{
    lemma_description_shape(k1, t);
    lemma_description_shape(k2, t);
    let d1 = error_description(k1, t);
    let d2 = error_description(k2, t);
    if d1 == d2 {
        assert(d1.len() == d2.len());
        if k1 == LexicalErrorType::NonAsciiCharacters || k1 == LexicalErrorType::IntegerOutOfRange {
            assert(d1[0] == d2[0]);
        } else if k1 == LexicalErrorType::TrailingUnderscore || k1 == LexicalErrorType::IdentifierStartsWithNumber {
            assert(d1[t.len() + 14int] == d2[t.len() + 14int]);
        }
    }
}

/// `t` with each `__` (read from the left) made a single `_`.
pub open spec fn single_underscores(t: Seq<char>) -> Seq<char>
    decreases t.len(),
{
    if t.len() >= 2 && t[0] == '_' && t[1] == '_' {
        seq!['_'] + single_underscores(t.skip(2))
    } else if t.len() == 0 {
        t
    } else {
        seq![t[0]] + single_underscores(t.skip(1))
    }
}

/// `t` without its trailing underscores.
pub open spec fn without_trailing_underscores(t: Seq<char>) -> Seq<char>
    decreases t.len(),
{
    if t.len() > 0 && t.last() == '_' {
        without_trailing_underscores(t.drop_last())
    } else {
        t
    }
}

/// The hint for the text `t` and the kind of error `k`.
pub open spec fn lexical_suggestion(k: LexicalErrorType, t: Seq<char>) -> Seq<char> {
    match k {
        LexicalErrorType::UnterminatedString => "Add a closing quote: "@ + t + seq!['"'],
        LexicalErrorType::NonAsciiCharacters => "Use only ASCII characters in identifiers and strings"@,
        LexicalErrorType::IdentifierTooLong => "Identifiers must be 14 characters or less"@,
        LexicalErrorType::ConsecutiveUnderscores => "Use single underscores: "@ + quoted(single_underscores(t)),
        LexicalErrorType::TrailingUnderscore => "Remove trailing underscore: "@ + quoted(without_trailing_underscores(t)),
        LexicalErrorType::IdentifierStartsWithNumber =>
            "Identifiers can't start with numbers. Try: "@ + quoted(seq!['_'] + t),
        LexicalErrorType::InvalidIdentifier =>
            "Identifiers must not contain uppercase letters after the first character"@,
        LexicalErrorType::IntegerOutOfRange =>
            "Integer literals must be within the range of -32768 to 32767 (16-bit signed integer)"@,
        LexicalErrorType::SignedNumberNotParenthesized => "Signed numbers must be parenthesized"@,
        LexicalErrorType::InvalidToken => "Check for unrecognized symbols or incorrect syntax"@,
    }
}

/// The full report of a lexical error.
pub open spec fn lexical_report(e: LexicalErrorV, source: Option<Seq<char>>, c: Coloring) -> Seq<char> {
    shown(c.header, Paint::RedBold, "Lexical Error"@) + ": "@ + error_description(e.error_type, e.invalid_token)
        + seq!['\n'] + location_line(e.line, e.column, c.arrow)
        + match source {
            Some(src) => if e.line >= 1 && nth_line(src, e.line - 1) is Some {
                code_context(
                    nth_line(src, e.line - 1)->0,
                    e.column,
                    encode_utf8(e.invalid_token).len() as int,
                    c.gutter,
                    c.underline,
                )
            } else {
                Seq::empty()
            },
            None => Seq::empty(),
        } + shown(c.suggestion, Paint::CyanBold, "Suggestion"@) + ": "@ + lexical_suggestion(e.error_type, e.invalid_token)
        + seq!['\n']
}

fn push_quoted_token(s: &mut String, n: &String)
    ensures
        final(s)@ == old(s)@ + quoted(n@),
{
    push_char(s, '\'');
    s.append(n.as_str());
    push_char(s, '\'');
    assert(final(s)@ =~= old(s)@ + quoted(n@));
}

fn collapse_underscores(t: &String) -> (r: String)
    ensures
        r@ == single_underscores(t@),
{
    let cs = str_chars(t.as_str());
    let mut r = String::new();
    let mut i: usize = 0;
    assert(cs@.skip(0) =~= cs@);
    while i < cs.len()
        invariant
            cs@ == t@,
            i <= cs.len(),
            r@ + single_underscores(cs@.skip(i as int)) == single_underscores(t@),
        decreases cs.len() - i,
    {
        let ghost rest = cs@.skip(i as int);
        if i + 1 < cs.len() && cs[i] == '_' && cs[i + 1] == '_' {
            let ghost before = r@;
            assert(rest.skip(2) =~= cs@.skip(i + 2));
            push_char(&mut r, '_');
            assert(r@ + single_underscores(cs@.skip(i + 2)) =~= before + single_underscores(rest));
            i = i + 2;
        } else {
            let ghost before = r@;
            assert(rest.skip(1) =~= cs@.skip(i + 1));
            push_char(&mut r, cs[i]);
            assert(r@ + single_underscores(cs@.skip(i + 1)) =~= before + single_underscores(rest));
            i = i + 1;
        }
    }
    assert(single_underscores(cs@.skip(cs.len() as int)) =~= Seq::<char>::empty());
    assert(r@ =~= r@ + Seq::<char>::empty());
    r
}

fn strip_trailing_underscores(t: &String) -> (r: String)
    ensures
        r@ == without_trailing_underscores(t@),
{
    let cs = str_chars(t.as_str());
    let mut b: usize = cs.len();
    assert(cs@.subrange(0, cs@.len() as int) =~= t@);
    while b > 0 && cs[b - 1] == '_'
        invariant
            cs@ == t@,
            b <= cs.len(),
            without_trailing_underscores(cs@.subrange(0, b as int)) == without_trailing_underscores(t@),
        decreases b,
    {
        assert(cs@.subrange(0, b as int).drop_last() =~= cs@.subrange(0, b - 1));
        b = b - 1;
    }
    chars_to_string(&cs, 0, b)
}

impl LexicalError {
    /// What went wrong.
    pub fn get_error_description(&self) -> (r: String)
        ensures
            r@ == error_description(self.error_type, self.invalid_token@),
            exists|i: int|
                0 <= i && i + quoted(self.invalid_token@).len() <= r@.len()
                    && #[trigger] r@.subrange(i, i + quoted(self.invalid_token@).len()) == quoted(self.invalid_token@),
            forall|k: LexicalErrorType| k != self.error_type ==> r@ != #[trigger] error_description(k, self.invalid_token@),
    {
        proof {
            lemma_description_quotes_token(self.error_type, self.invalid_token@);
            assert forall|k: LexicalErrorType| k != self.error_type implies
                error_description(self.error_type, self.invalid_token@) != #[trigger] error_description(k, self.invalid_token@) by {
                lemma_descriptions_distinct(self.error_type, k, self.invalid_token@);
            }
        }
        let mut r = String::new();
        let t = &self.invalid_token;
        match self.error_type {
            LexicalErrorType::UnterminatedString => {
                r.append("Unterminated string ");
                push_quoted_token(&mut r, t);
                r.append(" - missing closing quote");
            },
            LexicalErrorType::NonAsciiCharacters => {
                r.append("Non-ASCII characters in ");
                push_quoted_token(&mut r, t);
            },
            LexicalErrorType::IdentifierTooLong => {
                r.append("Identifier ");
                push_quoted_token(&mut r, t);
                r.append(" exceeds maximum length of 14 characters");
            },
            LexicalErrorType::ConsecutiveUnderscores => {
                r.append("Consecutive underscores in identifier ");
                push_quoted_token(&mut r, t);
            },
            LexicalErrorType::TrailingUnderscore => {
                r.append("Identifier ");
                push_quoted_token(&mut r, t);
                r.append(" ends with underscore");
            },
            LexicalErrorType::InvalidIdentifier => {
                r.append("Invalid identifier ");
                push_quoted_token(&mut r, t);
            },
            LexicalErrorType::IdentifierStartsWithNumber => {
                r.append("Identifier ");
                push_quoted_token(&mut r, t);
                r.append(" starts with a number");
            },
            LexicalErrorType::IntegerOutOfRange => {
                r.append("Integer ");
                push_quoted_token(&mut r, t);
                r.append(" is out of range");
            },
            LexicalErrorType::SignedNumberNotParenthesized => {
                r.append("Signed number ");
                push_quoted_token(&mut r, t);
                r.append(" must be parenthesized");
            },
            LexicalErrorType::InvalidToken => {
                r.append("Invalid token ");
                push_quoted_token(&mut r, t);
            },
        }
        assert(r@ =~= error_description(self.error_type, self.invalid_token@));
        r
    }

    fn suggestion_text(&self) -> (r: String)
        ensures
            r@ == lexical_suggestion(self.error_type, self.invalid_token@),
    {
        let mut r = String::new();
        let t = &self.invalid_token;
        match self.error_type {
            LexicalErrorType::UnterminatedString => {
                r.append("Add a closing quote: ");
                r.append(t.as_str());
                push_char(&mut r, '"');
            },
            LexicalErrorType::NonAsciiCharacters => {
                r.append("Use only ASCII characters in identifiers and strings");
            },
            LexicalErrorType::IdentifierTooLong => {
                r.append("Identifiers must be 14 characters or less");
            },
            LexicalErrorType::ConsecutiveUnderscores => {
                r.append("Use single underscores: ");
                let fixed = collapse_underscores(t);
                push_quoted_token(&mut r, &fixed);
            },
            LexicalErrorType::TrailingUnderscore => {
                r.append("Remove trailing underscore: ");
                let fixed = strip_trailing_underscores(t);
                push_quoted_token(&mut r, &fixed);
            },
            LexicalErrorType::IdentifierStartsWithNumber => {
                r.append("Identifiers can't start with numbers. Try: ");
                let mut fixed = String::new();
                push_char(&mut fixed, '_');
                fixed.append(t.as_str());
                push_quoted_token(&mut r, &fixed);
            },
            LexicalErrorType::InvalidIdentifier => {
                r.append("Identifiers must not contain uppercase letters after the first character");
            },
            LexicalErrorType::IntegerOutOfRange => {
                r.append("Integer literals must be within the range of -32768 to 32767 (16-bit signed integer)");
            },
            LexicalErrorType::SignedNumberNotParenthesized => {
                r.append("Signed numbers must be parenthesized");
            },
            LexicalErrorType::InvalidToken => {
                r.append("Check for unrecognized symbols or incorrect syntax");
            },
        }
        assert(r@ =~= lexical_suggestion(self.error_type, self.invalid_token@));
        r
    }
}

impl ErrorReporter for LexicalError {
    /// The report: the description, the place, the source line when a
    /// source is given, and the suggestion.
    #[verifier::rlimit(60)]
    fn report(&self, source_code: Option<&str>) -> (r: String)
        ensures
            exists|c: Coloring| r@ == lexical_report(self@, str_opt_view(source_code), c),
    {
        let mut r = String::new();
        let header = push_painted(&mut r, "Lexical Error", Paint::RedBold);
        r.append(": ");
        let d = self.get_error_description();
        r.append(d.as_str());
        push_char(&mut r, '\n');
        let arrow = push_location(&mut r, self.line, self.column);
        let ghost mut gutter = false;
        let ghost mut underline = false;
        match source_code {
            Some(code) => {
                let src = str_chars(code);
                if self.line >= 1 {
                    match get_nth_line(&src, self.line - 1) {
                        Some(t) => {
                            let len = self.invalid_token.as_str().as_bytes().len();
                            let ctx = push_code_context(&mut r, t.as_str(), self.column, len);
                            proof {
                                gutter = ctx@.0;
                                underline = ctx@.1;
                            }
                        },
                        None => {},
                    }
                }
            },
            None => {},
        }
        let hint = push_painted(&mut r, "Suggestion", Paint::CyanBold);
        r.append(": ");
        let s = self.suggestion_text();
        r.append(s.as_str());
        push_char(&mut r, '\n');
        let ghost c = Coloring {
            header: header@,
            arrow: arrow@,
            gutter,
            underline,
            listing: false,
            note: false,
            note_gutter: false,
            suggestion: hint@,
        };
        assert(r@ =~= lexical_report(self@, str_opt_view(source_code), c));
        r
    }

    /// Every lexical error has a suggestion.
    fn get_suggestion(&self) -> (r: Option<String>)
        ensures
            r matches Some(t) && t@ == lexical_suggestion(self.error_type, self.invalid_token@),
    {
        Some(self.suggestion_text())
    }

    fn get_error_name(&self) -> (r: String)
        ensures
            r@ == "Lexical Error"@,
    {
        String::from_str("Lexical Error")
    }

    fn get_location_info(&self) -> (r: (usize, usize))
        ensures
            r == (self.line, self.column),
    {
        (self.line, self.column)
    }
}

} // verus!
