use vstd::prelude::*;
use vstd::utf8::{encode_utf8, encode_scalar, is_scalar};
use crate::lexer::token::{Token, TokenV, fixed_texts, fixed_text, num_fixed};
use crate::lexer::lexeme::{Lexeme, Scanned, scan, step_len, step_kind};
use crate::lexer::error::{LexicalError, LexicalErrorV, error_type_of};
use crate::text::{str_chars, chars_to_string, byte_pos, lemma_byte_pos_step, lemma_byte_pos_mono, utf8_width};
use std::ops::Range;

verus! {

/// A token with the text it was read from and its place in the source:
/// `line` counts from 1, `column` is the byte offset from the start of the
/// line (from 0), `span` the byte range in the source.
#[derive(Debug, PartialEq)]
pub struct TokenWithMetaData {
    pub kind: Token,
    pub value: String,
    pub line: usize,
    pub column: usize,
    pub span: Range<usize>,
}

pub struct TokenMeta {
    pub kind: TokenV,
    pub value: Seq<char>,
    pub line: int,
    pub column: int,
    pub start: int,
    pub end: int,
}

impl View for TokenWithMetaData {
    type V = TokenMeta;

    open spec fn view(&self) -> TokenMeta {
        TokenMeta {
            kind: self.kind@,
            value: self.value@,
            line: self.line as int,
            column: self.column as int,
            start: self.span.start as int,
            end: self.span.end as int,
        }
    }
}

/// The tokens (first) and the rejected texts (second) that the lexer finds
/// from character `i` on, on line `line`, whose first byte is at `line_start`.
pub open spec fn lex_from(s: Seq<char>, i: int, line: int, line_start: int) -> (Seq<TokenMeta>, Seq<TokenMeta>)
    decreases s.len() - i,
{
    if i < 0 || i >= s.len() || step_len(s, i) <= 0 || step_len(s, i) > s.len() - i {
        (seq![], seq![])
    } else {
        let n = step_len(s, i);
        let here = meta_at(s, i, n, line, line_start);
        let newline = step_kind(s, i) is Newline;
        let r = lex_from(
            s,
            i + n,
            if newline { line + 1 } else { line },
            if newline { byte_pos(s, i + n) } else { line_start },
        );
        match step_kind(s, i) {
            Lexeme::Tok(k) => (seq![TokenMeta { kind: k, ..here }] + r.0, r.1),
            Lexeme::Bad => (r.0, seq![here] + r.1),
            _ => r,
        }
    }
}

/// The token of kind `Error` for the `n` characters at `i`.
pub open spec fn meta_at(s: Seq<char>, i: int, n: int, line: int, line_start: int) -> TokenMeta {
    TokenMeta {
        kind: TokenV::Error,
        value: s.subrange(i, i + n),
        line,
        column: byte_pos(s, i) - line_start,
        start: byte_pos(s, i),
        end: byte_pos(s, i + n),
    }
}

/// Tokens and rejected texts of the whole source.
pub open spec fn lex(s: Seq<char>) -> (Seq<TokenMeta>, Seq<TokenMeta>) {
    lex_from(s, 0, 1, 0)
}

/// The lexical error reported for a rejected text.
pub open spec fn error_of(t: TokenMeta) -> LexicalErrorV {
    LexicalErrorV {
        invalid_token: t.value,
        line: t.line,
        column: t.column,
        error_type: error_type_of(t.value),
    }
}

/// Byte offset of character `i + n`, from that of character `i`.
fn advance_bytes(s: &Vec<char>, i: usize, n: usize, b: usize) -> (e: usize)
    requires
        i + n <= s.len(),
        b == byte_pos(s@, i as int),
        byte_pos(s@, s@.len() as int) <= usize::MAX,
    ensures
        e == byte_pos(s@, i + n),
{
    let mut k = i;
    let mut e = b;
    while k < i + n
        invariant
            i <= k <= i + n <= s.len(),
            e == byte_pos(s@, k as int),
            byte_pos(s@, s@.len() as int) <= usize::MAX,
        decreases i + n - k,
    {
        proof {
            lemma_byte_pos_step(s@, k as int);
            lemma_byte_pos_mono(s@, k + 1, s@.len() as int);
        }
        let w = utf8_width(s[k]);
        e = e + w;
        k = k + 1;
    }
    e
}

pub open spec fn metas(v: Seq<TokenWithMetaData>) -> Seq<TokenMeta> {
    v.map_values(|t: TokenWithMetaData| t@)
}

pub open spec fn error_views(v: Seq<LexicalError>) -> Seq<LexicalErrorV> {
    v.map_values(|e: LexicalError| e@)
}

pub open spec fn errors_of(v: Seq<TokenMeta>) -> Seq<LexicalErrorV> {
    v.map_values(|t: TokenMeta| error_of(t))
}

/// One step of the lexer: consumes the text at `i` and records what it is.
fn lex_step(
    s: &Vec<char>,
    table: &Vec<Vec<char>>,
    tokens: &mut Vec<TokenWithMetaData>,
    errors: &mut Vec<LexicalError>,
    i: usize,
    b: usize,
    line: usize,
    line_start: usize,
    total: usize,
) -> (r: (usize, usize, usize, usize))
    requires
        table@.len() == num_fixed(),
        forall|k: int| 0 <= k < num_fixed() ==> (#[trigger] table@[k])@ == fixed_text(k),
        byte_pos(s@, s@.len() as int) == total,
        i < s.len(),
        b == byte_pos(s@, i as int),
        line_start <= b,
        1 <= line <= i + 1,
        s@.len() < usize::MAX,
    ensures
        i < r.0 <= s.len(),
        r.1 == byte_pos(s@, r.0 as int),
        r.3 <= r.1,
        1 <= r.2 <= r.0 + 1,
        metas(old(tokens)@) + lex_from(s@, i as int, line as int, line_start as int).0
            == metas(final(tokens)@) + lex_from(s@, r.0 as int, r.2 as int, r.3 as int).0,
        error_views(old(errors)@) + errors_of(lex_from(s@, i as int, line as int, line_start as int).1)
            == error_views(final(errors)@) + errors_of(lex_from(s@, r.0 as int, r.2 as int, r.3 as int).1),
{
    let (n, k) = scan(s, i, table);
    proof {
        lemma_byte_pos_mono(s@, i as int, s@.len() as int);
        lemma_byte_pos_mono(s@, i + n, s@.len() as int);
        lemma_byte_pos_mono(s@, i as int, i + n);
    }
    let e = advance_bytes(s, i, n, b);
    let ghost before = lex_from(s@, i as int, line as int, line_start as int);
    let ghost here = meta_at(s@, i as int, n as int, line as int, line_start as int);
    match k {
        Scanned::Tok(t) => {
            let value = chars_to_string(s, i, i + n);
            let tok = TokenWithMetaData { kind: t, value, line, column: b - line_start, span: b..e };
            let ghost after = lex_from(s@, i + n, line as int, line_start as int);
            let ghost old_t = metas(tokens@);
            assert(before.0 == seq![tok@] + after.0);
            assert(before.1 == after.1);
            tokens.push(tok);
            assert(metas(tokens@) =~= old_t.push(tok@));
            assert(old_t + (seq![tok@] + after.0) =~= old_t.push(tok@) + after.0);
            (i + n, e, line, line_start)
        },
        Scanned::Bad => {
            let value = chars_to_string(s, i, i + n);
            let tok = TokenWithMetaData { kind: Token::Error, value, line, column: b - line_start, span: b..e };
            let err = LexicalError::new(tok);
            let ghost after = lex_from(s@, i + n, line as int, line_start as int);
            let ghost old_e = error_views(errors@);
            assert(before.1 == seq![here] + after.1);
            assert(before.0 == after.0);
            assert(err@ == error_of(here));
            errors.push(err);
            assert(error_views(errors@) =~= old_e.push(err@));
            assert(errors_of(seq![here] + after.1) =~= seq![error_of(here)] + errors_of(after.1));
            assert(old_e + (seq![error_of(here)] + errors_of(after.1)) =~= old_e.push(err@) + errors_of(after.1));
            (i + n, e, line, line_start)
        },
        Scanned::Skip => {
            (i + n, e, line, line_start)
        },
        Scanned::Newline => {
            (i + n, e, line + 1, e)
        },
    }
}

/// Every token the lexer finds lies within the text.
pub proof fn lemma_lex_from_spans(s: Seq<char>, i: int, line: int, line_start: int)
    requires
        0 <= i,
    ensures
        forall|j: int|
            0 <= j < lex_from(s, i, line, line_start).0.len() ==> {
                let t = #[trigger] lex_from(s, i, line, line_start).0[j];
                0 <= t.start <= t.end <= byte_pos(s, s.len() as int)
            },
    decreases s.len() - i,
{
    if !(i < 0 || i >= s.len() || step_len(s, i) <= 0 || step_len(s, i) > s.len() - i) {
        let n = step_len(s, i);
        let newline = step_kind(s, i) is Newline;
        let nl = if newline { line + 1 } else { line };
        let nls = if newline { byte_pos(s, i + n) } else { line_start };
        lemma_lex_from_spans(s, i + n, nl, nls);
        lemma_byte_pos_mono(s, i + n, s.len() as int);
        lemma_byte_pos_mono(s, i, i + n);
        lemma_byte_pos_mono(s, 0, i);
        assert(byte_pos(s, 0) >= 0);
    }
}

/// Splits the source into tokens and lexical errors.
pub fn tokenize(source: &str) -> (r: (Vec<TokenWithMetaData>, Vec<LexicalError>))
    requires
        source@.len() < usize::MAX,
    ensures
        metas(r.0@) == lex(source@).0,
        error_views(r.1@) == errors_of(lex(source@).1),
        forall|j: int|
            0 <= j < r.0@.len() ==> (#[trigger] r.0@[j]).span.start <= r.0@[j].span.end
                <= byte_pos(source@, source@.len() as int),
{
    let s = str_chars(source);
    let table = fixed_texts();
    let bytes = source.as_bytes();
    let total = bytes.len();
    proof {
        assert(s@.take(s@.len() as int) =~= s@);
    }
    let mut tokens: Vec<TokenWithMetaData> = Vec::new();
    let mut errors: Vec<LexicalError> = Vec::new();
    let mut i: usize = 0;
    let mut b: usize = 0;
    let mut line: usize = 1;
    let mut line_start: usize = 0;
    proof {
        assert(s@.take(0) =~= Seq::<char>::empty());
        assert(encode_utf8(Seq::<char>::empty()) =~= Seq::<u8>::empty());
        assert(metas(tokens@) + lex(s@).0 =~= lex(s@).0);
        assert(error_views(errors@) + errors_of(lex(s@).1) =~= errors_of(lex(s@).1));
    }
    while i < s.len()
        invariant
            s@ == source@,
            table@.len() == num_fixed(),
            forall|k: int| 0 <= k < num_fixed() ==> (#[trigger] table@[k])@ == fixed_text(k),
            byte_pos(s@, s@.len() as int) == total,
            i <= s.len(),
            b == byte_pos(s@, i as int),
            line_start <= b,
            1 <= line <= i + 1,
            s@.len() < usize::MAX,
            metas(tokens@) + lex_from(s@, i as int, line as int, line_start as int).0 == lex(s@).0,
            error_views(errors@) + errors_of(lex_from(s@, i as int, line as int, line_start as int).1)
                == errors_of(lex(s@).1),
        decreases s.len() - i,
    {
        let r = lex_step(&s, &table, &mut tokens, &mut errors, i, b, line, line_start, total);
        i = r.0;
        b = r.1;
        line = r.2;
        line_start = r.3;
    }
    proof {
        assert(metas(tokens@) + Seq::<TokenMeta>::empty() =~= metas(tokens@));
        assert(errors_of(Seq::<TokenMeta>::empty()) =~= Seq::<LexicalErrorV>::empty());
        assert(error_views(errors@) + Seq::<LexicalErrorV>::empty() =~= error_views(errors@));
        lemma_lex_from_spans(s@, 0, 1, 0);
        assert forall|j: int| 0 <= j < tokens@.len() implies (#[trigger] tokens@[j]).span.start
            <= tokens@[j].span.end <= byte_pos(source@, source@.len() as int) by {
            assert(metas(tokens@)[j] == tokens@[j]@);
        }
    }
    (tokens, errors)
}

} // verus!

verus! {

/// The next token from position `i` on, skipping blanks, line feeds and
/// comments: the position after it, and the token or `Err(())` for a
/// rejected text (`None` at the end of the source).
pub open spec fn next_from(s: Seq<char>, i: int) -> (int, Option<Result<TokenV, ()>>)
    decreases s.len() - i,
{
    if i < 0 || i >= s.len() || step_len(s, i) <= 0 || step_len(s, i) > s.len() - i {
        (i, None)
    } else {
        let n = step_len(s, i);
        match step_kind(s, i) {
            Lexeme::Tok(k) => (i + n, Some(Ok(k))),
            Lexeme::Bad => (i + n, Some(Err(()))),
            _ => next_from(s, i + n),
        }
    }
}

/// A token stream over a source text.
pub struct Lexer {
    chars: Vec<char>,
    table: Vec<Vec<char>>,
    pos: usize,
}

impl Lexer {
    pub closed spec fn source(&self) -> Seq<char> {
        self.chars@
    }

    pub closed spec fn position(&self) -> int {
        self.pos as int
    }

    pub closed spec fn wf(&self) -> bool {
        &&& self.table@.len() == num_fixed()
        &&& forall|k: int| 0 <= k < num_fixed() ==> (#[trigger] self.table@[k])@ == fixed_text(k)
        &&& self.pos <= self.chars@.len()
    }

    /// The next token, `Err(())` for a text that is no token, `None` at the end.
    pub fn next(&mut self) -> (r: Option<Result<Token, ()>>)
        requires
            old(self).wf(),
        ensures
            final(self).wf(),
            final(self).source() == old(self).source(),
            final(self).position() == next_from(old(self).source(), old(self).position()).0,
            match (r, next_from(old(self).source(), old(self).position()).1) {
                (None, None) => true,
                (Some(Ok(t)), Some(Ok(k))) => t@ == k,
                (Some(Err(())), Some(Err(()))) => true,
                _ => false,
            },
    {
        while self.pos < self.chars.len()
            invariant
                self.wf(),
                self.source() == old(self).source(),
                next_from(self.source(), self.position()) == next_from(old(self).source(), old(self).position()),
            decreases self.chars@.len() - self.pos,
        {
            let (n, k) = scan(&self.chars, self.pos, &self.table);
            let p = self.pos + n;
            match k {
                Scanned::Tok(t) => {
                    self.pos = p;
                    return Some(Ok(t));
                },
                Scanned::Bad => {
                    self.pos = p;
                    return Some(Err(()));
                },
                _ => {
                    self.pos = p;
                },
            }
        }
        None
    }
}

impl Token {
    /// A token stream over `source`.
    pub fn lexer(source: &str) -> (r: Lexer)
        ensures
            r.wf(),
            r.source() == source@,
            r.position() == 0,
    {
        Lexer { chars: str_chars(source), table: fixed_texts(), pos: 0 }
    }
}

} // verus!
