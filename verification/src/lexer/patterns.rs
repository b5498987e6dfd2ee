//! The token patterns of MiniSoft, stated as predicates on the text of a
//! lexeme, and executable matchers that find the longest lexeme of each
//! pattern at a position.
use vstd::prelude::*;
use crate::lexer::token::{fixed_text, num_fixed};

verus! {

pub open spec fn is_digit(c: char) -> bool {
    '0' <= c && c <= '9'
}

pub open spec fn is_upper(c: char) -> bool {
    'A' <= c && c <= 'Z'
}

pub open spec fn is_alpha(c: char) -> bool {
    ('a' <= c && c <= 'z') || is_upper(c)
}

pub open spec fn is_ident_char(c: char) -> bool {
    is_alpha(c) || is_digit(c) || c == '_'
}

/// The characters skipped between tokens, apart from the line feed.
pub open spec fn is_blank(c: char) -> bool {
    c == ' ' || c == '\t' || c == '\x0C' || c == '\r'
}

pub open spec fn is_sign(c: char) -> bool {
    c == '+' || c == '-'
}

pub open spec fn all_digits(w: Seq<char>) -> bool {
    forall|k: int| 0 <= k < w.len() ==> is_digit(#[trigger] w[k])
}

/// `[ \t\f\r]+`
pub open spec fn pat_blank(w: Seq<char>) -> bool {
    w.len() > 0 && forall|k: int| 0 <= k < w.len() ==> is_blank(#[trigger] w[k])
}

/// `\n`
pub open spec fn pat_newline(w: Seq<char>) -> bool {
    w.len() == 1 && w[0] == '\n'
}

/// `[0-9]+`
pub open spec fn pat_digits(w: Seq<char>) -> bool {
    w.len() > 0 && all_digits(w)
}

/// `\([+-]X\)` for a pattern `X` given by `inner`.
pub open spec fn signed_in_parens(w: Seq<char>, inner: spec_fn(Seq<char>) -> bool) -> bool {
    &&& w.len() >= 4
    &&& w[0] == '('
    &&& is_sign(w[1])
    &&& w[w.len() - 1] == ')'
    &&& inner(w.subrange(2, w.len() - 1))
}

/// `(\([+-][0-9]+\))|([0-9]+)`
pub open spec fn pat_int(w: Seq<char>) -> bool {
    pat_digits(w) || signed_in_parens(w, |x: Seq<char>| pat_digits(x))
}

/// `[0-9]+\.[0-9]+`
pub open spec fn pat_decimal(w: Seq<char>) -> bool {
    exists|d: int|
        #![trigger w[d]]
        0 < d < w.len() - 1 && w[d] == '.' && all_digits(w.take(d)) && all_digits(w.skip(d + 1))
}

/// `(\([+-][0-9]+\.[0-9]+\))|([0-9]+\.[0-9]+)`
pub open spec fn pat_float(w: Seq<char>) -> bool {
    pat_decimal(w) || signed_in_parens(w, |x: Seq<char>| pat_decimal(x))
}

/// `"[^"]*"`
pub open spec fn pat_string(w: Seq<char>) -> bool {
    &&& w.len() >= 2
    &&& w[0] == '"'
    &&& w[w.len() - 1] == '"'
    &&& forall|k: int| 1 <= k < w.len() - 1 ==> #[trigger] w[k] != '"'
}

/// `[a-zA-Z][a-zA-Z0-9_]*`
pub open spec fn pat_ident(w: Seq<char>) -> bool {
    &&& w.len() > 0
    &&& is_alpha(w[0])
    &&& forall|k: int| 1 <= k < w.len() ==> is_ident_char(#[trigger] w[k])
}

/// `([^-\n]|(-[^!\n]))*`
pub open spec fn body_arrow(b: Seq<char>) -> bool
    decreases b.len(),
{
    if b.len() == 0 {
        true
    } else if b[0] != '-' {
        b[0] != '\n' && body_arrow(b.drop_first())
    } else {
        b.len() >= 2 && b[1] != '!' && b[1] != '\n' && body_arrow(b.skip(2))
    }
}

/// `([^-]|(-[^-]))*`
pub open spec fn body_brace(b: Seq<char>) -> bool
    decreases b.len(),
{
    if b.len() == 0 {
        true
    } else if b[0] != '-' {
        body_brace(b.drop_first())
    } else {
        b.len() >= 2 && b[1] != '-' && body_brace(b.skip(2))
    }
}

/// `<\!-([^-\n]|(-[^!\n]))*-\!>`
pub open spec fn pat_comment_arrow(w: Seq<char>) -> bool {
    &&& w.len() >= 6
    &&& w.take(3) == seq!['<', '!', '-']
    &&& w.skip(w.len() - 3) == seq!['-', '!', '>']
    &&& body_arrow(w.subrange(3, w.len() - 3))
}

/// `\{--([^-]|(-[^-]))*--\}`
pub open spec fn pat_comment_brace(w: Seq<char>) -> bool {
    &&& w.len() >= 6
    &&& w.take(3) == seq!['{', '-', '-']
    &&& w.skip(w.len() - 3) == seq!['-', '-', '}']
    &&& body_brace(w.subrange(3, w.len() - 3))
}

/// The first fixed token, from number `k` on, that is spelled `w`
/// (`num_fixed()` when there is none).
pub open spec fn first_fixed_from(w: Seq<char>, k: int) -> int
    decreases num_fixed() - k,
{
    if k >= num_fixed() {
        num_fixed()
    } else if fixed_text(k) == w {
        k
    } else {
        first_fixed_from(w, k + 1)
    }
}

pub open spec fn first_fixed(w: Seq<char>) -> int {
    first_fixed_from(w, 0)
}

/// `w` spells a fixed token (a keyword, a punctuation mark or an operator).
pub open spec fn pat_fixed(w: Seq<char>) -> bool {
    first_fixed(w) < num_fixed()
}

/// `w` is a whole lexeme of some pattern of the language.
pub open spec fn accepts(w: Seq<char>) -> bool {
    ||| pat_fixed(w)
    ||| pat_blank(w)
    ||| pat_newline(w)
    ||| pat_comment_arrow(w)
    ||| pat_comment_brace(w)
    ||| pat_int(w)
    ||| pat_float(w)
    ||| pat_string(w)
    ||| pat_ident(w)
}

/// `w` can still be extended into a lexeme of the language.
pub open spec fn viable(w: Seq<char>) -> bool {
    exists|t: Seq<char>| accepts(w + t)
}

/// The largest `n <= m` such that `p` holds of the `n` characters of `s` from
/// position `i` (0 when there is none).
pub open spec fn max_len_with(p: spec_fn(Seq<char>) -> bool, s: Seq<char>, i: int, m: int) -> int
    decreases m,
{
    if m <= 0 {
        0
    } else if p(s.subrange(i, i + m)) {
        m
    } else {
        max_len_with(p, s, i, m - 1)
    }
}

/// `n` is the length of the longest text at position `i` of `s` for which `p` holds.
pub open spec fn is_longest(p: spec_fn(Seq<char>) -> bool, s: Seq<char>, i: int, n: int) -> bool {
    &&& 0 <= n <= s.len() - i
    &&& (n == 0 || p(s.subrange(i, i + n)))
    &&& forall|m: int| n < m <= s.len() - i ==> !p(#[trigger] s.subrange(i, i + m))
}

pub proof fn lemma_max_len_with(p: spec_fn(Seq<char>) -> bool, s: Seq<char>, i: int, n: int, m: int)
    requires
        0 <= i <= s.len(),
        0 <= n <= m <= s.len() - i,
        n == 0 || p(s.subrange(i, i + n)),
        forall|k: int| n < k <= m ==> !p(#[trigger] s.subrange(i, i + k)),
    ensures
        max_len_with(p, s, i, m) == n,
    decreases m,
{
    if m > n {
        assert(!p(s.subrange(i, i + m)));
        lemma_max_len_with(p, s, i, n, m - 1);
    }
}

pub open spec fn p_accepts() -> spec_fn(Seq<char>) -> bool {
    |w: Seq<char>| accepts(w)
}

pub open spec fn p_viable() -> spec_fn(Seq<char>) -> bool {
    |w: Seq<char>| viable(w)
}

/// Length of the longest lexeme at position `i`.
pub open spec fn longest_lexeme(s: Seq<char>, i: int) -> int {
    max_len_with(p_accepts(), s, i, s.len() - i)
}

/// Length of the longest text at position `i` that can still grow into a lexeme.
pub open spec fn longest_viable(s: Seq<char>, i: int) -> int {
    max_len_with(p_viable(), s, i, s.len() - i)
}

} // verus!

verus! {

pub open spec fn p_blank() -> spec_fn(Seq<char>) -> bool {
    |w: Seq<char>| pat_blank(w)
}

pub open spec fn p_int() -> spec_fn(Seq<char>) -> bool {
    |w: Seq<char>| pat_int(w)
}

pub open spec fn p_float() -> spec_fn(Seq<char>) -> bool {
    |w: Seq<char>| pat_float(w)
}

pub open spec fn p_string() -> spec_fn(Seq<char>) -> bool {
    |w: Seq<char>| pat_string(w)
}

pub open spec fn p_ident() -> spec_fn(Seq<char>) -> bool {
    |w: Seq<char>| pat_ident(w)
}

pub open spec fn p_comment_arrow() -> spec_fn(Seq<char>) -> bool {
    |w: Seq<char>| pat_comment_arrow(w)
}

pub open spec fn p_comment_brace() -> spec_fn(Seq<char>) -> bool {
    |w: Seq<char>| pat_comment_brace(w)
}

pub open spec fn p_fixed() -> spec_fn(Seq<char>) -> bool {
    |w: Seq<char>| pat_fixed(w)
}

pub fn is_digit_char(c: char) -> (r: bool)
    ensures
        r == is_digit(c),
{
    '0' <= c && c <= '9'
}

pub fn is_upper_char(c: char) -> (r: bool)
    ensures
        r == is_upper(c),
{
    'A' <= c && c <= 'Z'
}

pub fn is_alpha_char(c: char) -> (r: bool)
    ensures
        r == is_alpha(c),
{
    ('a' <= c && c <= 'z') || ('A' <= c && c <= 'Z')
}

pub fn is_ident_char_exec(c: char) -> (r: bool)
    ensures
        r == is_ident_char(c),
{
    is_alpha_char(c) || is_digit_char(c) || c == '_'
}

pub fn is_blank_char(c: char) -> (r: bool)
    ensures
        r == is_blank(c),
{
    c == ' ' || c == '\t' || c == '\x0C' || c == '\r'
}

/// Number of digits that follow position `i`.
fn digit_run(s: &Vec<char>, i: usize) -> (n: usize)
    requires
        i <= s.len(),
    ensures
        i + n <= s.len(),
        forall|k: int| i <= k < i + n ==> is_digit(#[trigger] s@[k]),
        i + n == s.len() || !is_digit(s@[i + n as int]),
{
    let mut j = i;
    while j < s.len() && is_digit_char(s[j])
        invariant
            i <= j <= s.len(),
            forall|k: int| i <= k < j ==> is_digit(#[trigger] s@[k]),
        decreases s.len() - j,
    {
        j = j + 1;
    }
    j - i
}

/// Longest run of blanks at `i`.
pub fn match_blank(s: &Vec<char>, i: usize) -> (n: usize)
    requires
        i < s.len(),
    ensures
        is_longest(p_blank(), s@, i as int, n as int),
{
    let mut j = i;
    while j < s.len() && is_blank_char(s[j])
        invariant
            i <= j <= s.len(),
            forall|k: int| i <= k < j ==> is_blank(#[trigger] s@[k]),
        decreases s.len() - j,
    {
        j = j + 1;
    }
    let n = j - i;
    assert forall|m: int| n < m <= s@.len() - i implies !p_blank()(#[trigger] s@.subrange(i as int, i + m)) by {
        let w = s@.subrange(i as int, i + m);
        assert(w[n as int] == s@[j as int]);
    }
    n
}

/// Longest identifier-shaped text at `i`.
pub fn match_ident(s: &Vec<char>, i: usize) -> (n: usize)
    requires
        i < s.len(),
    ensures
        is_longest(p_ident(), s@, i as int, n as int),
{
    if !is_alpha_char(s[i]) {
        assert forall|m: int| 0 < m <= s@.len() - i implies !p_ident()(#[trigger] s@.subrange(i as int, i + m)) by {
            assert(s@.subrange(i as int, i + m)[0] == s@[i as int]);
        }
        return 0;
    }
    let mut j = i + 1;
    while j < s.len() && is_ident_char_exec(s[j])
        invariant
            i < j <= s.len(),
            is_alpha(s@[i as int]),
            forall|k: int| i < k < j ==> is_ident_char(#[trigger] s@[k]),
        decreases s.len() - j,
    {
        j = j + 1;
    }
    let n = j - i;
    assert forall|m: int| n < m <= s@.len() - i implies !p_ident()(#[trigger] s@.subrange(i as int, i + m)) by {
        let w = s@.subrange(i as int, i + m);
        assert(w[n as int] == s@[j as int]);
    }
    let ghost w = s@.subrange(i as int, i + n);
    assert forall|k: int| 1 <= k < w.len() implies is_ident_char(#[trigger] w[k]) by {
        assert(w[k] == s@[i + k]);
    }
    n
}

/// Longest string literal at `i`.
pub fn match_string(s: &Vec<char>, i: usize) -> (n: usize)
    requires
        i < s.len(),
    ensures
        is_longest(p_string(), s@, i as int, n as int),
{
    if s[i] != '"' {
        assert forall|m: int| 0 < m <= s@.len() - i implies !p_string()(#[trigger] s@.subrange(i as int, i + m)) by {
            assert(s@.subrange(i as int, i + m)[0] == s@[i as int]);
        }
        return 0;
    }
    let mut j = i + 1;
    while j < s.len() && s[j] != '"'
        invariant
            i < j <= s.len(),
            s@[i as int] == '"',
            forall|k: int| i < k < j ==> #[trigger] s@[k] != '"',
        decreases s.len() - j,
    {
        j = j + 1;
    }
    if j == s.len() {
        assert forall|m: int| 0 < m <= s@.len() - i implies !p_string()(#[trigger] s@.subrange(i as int, i + m)) by {
            let w = s@.subrange(i as int, i + m);
            if w.len() >= 2 {
                assert(w[w.len() - 1] == s@[i + m - 1]);
            }
        }
        return 0;
    }
    let n = j - i + 1;
    assert forall|m: int| n < m <= s@.len() - i implies !p_string()(#[trigger] s@.subrange(i as int, i + m)) by {
        let w = s@.subrange(i as int, i + m);
        assert(w[n - 1] == s@[j as int]);
    }
    let ghost w = s@.subrange(i as int, i + n);
    assert forall|k: int| 1 <= k < w.len() - 1 implies #[trigger] w[k] != '"' by {
        assert(w[k] == s@[i + k]);
    }
    n
}

} // verus!

verus! {

/// Longest integer literal at `i`.
pub fn match_int(s: &Vec<char>, i: usize) -> (n: usize)
    requires
        i < s.len(),
    ensures
        is_longest(p_int(), s@, i as int, n as int),
{
    let d = digit_run(s, i);
    if d > 0 {
        assert forall|m: int| d < m <= s@.len() - i implies !p_int()(#[trigger] s@.subrange(i as int, i + m)) by {
            let w = s@.subrange(i as int, i + m);
            assert(w[d as int] == s@[i + d]);
            assert(w[0] == s@[i as int]);
        }
        let ghost w = s@.subrange(i as int, i + d);
        assert forall|k: int| 0 <= k < w.len() implies is_digit(#[trigger] w[k]) by {
            assert(w[k] == s@[i + k]);
        }
        return d;
    }
    if s[i] == '(' && i + 1 < s.len() && (s[i + 1] == '+' || s[i + 1] == '-') {
        let e = digit_run(s, i + 2);
        if e > 0 && i + 2 + e < s.len() && s[i + 2 + e] == ')' {
            let n = e + 3;
            let ghost w = s@.subrange(i as int, i + n);
            let ghost inner = w.subrange(2, w.len() - 1);
            assert forall|k: int| 0 <= k < inner.len() implies is_digit(#[trigger] inner[k]) by {
                assert(inner[k] == s@[i + 2 + k]);
            }
            assert forall|m: int| n < m <= s@.len() - i implies !p_int()(#[trigger] s@.subrange(i as int, i + m)) by {
                let w2 = s@.subrange(i as int, i + m);
                assert(w2[0] == s@[i as int]);
                let inner2 = w2.subrange(2, w2.len() - 1);
                assert(inner2[e as int] == s@[i + 2 + e]);
            }
            return n;
        }
        assert forall|m: int| 0 < m <= s@.len() - i implies !p_int()(#[trigger] s@.subrange(i as int, i + m)) by {
            let w2 = s@.subrange(i as int, i + m);
            assert(w2[0] == s@[i as int]);
            if signed_in_parens(w2, |x: Seq<char>| pat_digits(x)) {
                let inner2 = w2.subrange(2, w2.len() - 1);
                if inner2.len() > e {
                    assert(inner2[e as int] == s@[i + 2 + e]);
                } else if inner2.len() < e {
                    assert(w2[w2.len() - 1] == s@[i + m - 1]);
                    assert(is_digit(s@[i + m - 1]));
                } else {
                    assert(w2[w2.len() - 1] == s@[i + m - 1]);
                }
            }
        }
        return 0;
    }
    assert forall|m: int| 0 < m <= s@.len() - i implies !p_int()(#[trigger] s@.subrange(i as int, i + m)) by {
        let w2 = s@.subrange(i as int, i + m);
        assert(w2[0] == s@[i as int]);
        if w2.len() >= 2 {
            assert(w2[1] == s@[i + 1]);
        }
    }
    0
}

/// Length of the longest unsigned decimal number `[0-9]+\.[0-9]+` at `p`;
/// every shorter one ends just before a digit.
fn decimal_at(s: &Vec<char>, p: usize) -> (q: usize)
    requires
        p <= s.len(),
    ensures
        p + q <= s.len(),
        q == 0 || pat_decimal(s@.subrange(p as int, p + q)),
        forall|m: int|
            0 <= m <= s@.len() - p && pat_decimal(#[trigger] s@.subrange(p as int, p + m)) ==> m <= q
                && (m < q ==> is_digit(s@[p + m])),
        q > 0 ==> (p + q == s.len() || !is_digit(s@[p + q as int])),
{
    let d1 = digit_run(s, p);
    if d1 > 0 && p + d1 < s.len() && s[p + d1] == '.' {
        let d2 = digit_run(s, p + d1 + 1);
        if d2 > 0 {
            let q = d1 + 1 + d2;
            let ghost w = s@.subrange(p as int, p + q);
            assert(w[d1 as int] == '.');
            assert forall|k: int| 0 <= k < w.take(d1 as int).len() implies is_digit(#[trigger] w.take(d1 as int)[k]) by {
                assert(w.take(d1 as int)[k] == s@[p + k]);
            }
            assert forall|k: int| 0 <= k < w.skip(d1 + 1).len() implies is_digit(#[trigger] w.skip(d1 + 1)[k]) by {
                assert(w.skip(d1 + 1)[k] == s@[p + d1 + 1 + k]);
            }
            assert(pat_decimal(w));
            assert forall|m: int|
                0 <= m <= s@.len() - p && pat_decimal(#[trigger] s@.subrange(p as int, p + m)) implies m <= q
                    && (m < q ==> is_digit(s@[p + m])) by {
                let w2 = s@.subrange(p as int, p + m);
                let d = choose|d: int|
                    #![trigger w2[d]]
                    0 < d < w2.len() - 1 && w2[d] == '.' && all_digits(w2.take(d)) && all_digits(w2.skip(d + 1));
                if d < d1 {
                    assert(w2[d] == s@[p + d]);
                } else if d > d1 {
                    assert(w2.take(d)[d1 as int] == s@[p + d1]);
                }
                assert(d == d1);
                if m > q {
                    assert(w2.skip(d + 1)[d2 as int] == s@[p + q]);
                }
                if m < q {
                    assert(is_digit(s@[p + m]));
                }
            }
            return q;
        }
        assert forall|m: int| 0 <= m <= s@.len() - p implies !pat_decimal(#[trigger] s@.subrange(p as int, p + m)) by {
            let w2 = s@.subrange(p as int, p + m);
            if pat_decimal(w2) {
                let d = choose|d: int|
                    #![trigger w2[d]]
                    0 < d < w2.len() - 1 && w2[d] == '.' && all_digits(w2.take(d)) && all_digits(w2.skip(d + 1));
                if d < d1 {
                    assert(w2[d] == s@[p + d]);
                } else if d > d1 {
                    assert(w2.take(d)[d1 as int] == s@[p + d1]);
                }
                assert(w2.skip(d + 1)[0] == s@[p + d1 + 1]);
            }
        }
        return 0;
    }
    assert forall|m: int| 0 <= m <= s@.len() - p implies !pat_decimal(#[trigger] s@.subrange(p as int, p + m)) by {
        let w2 = s@.subrange(p as int, p + m);
        if pat_decimal(w2) {
            let d = choose|d: int|
                #![trigger w2[d]]
                0 < d < w2.len() - 1 && w2[d] == '.' && all_digits(w2.take(d)) && all_digits(w2.skip(d + 1));
            if d < d1 {
                assert(w2[d] == s@[p + d]);
            } else if d > d1 {
                assert(w2.take(d)[d1 as int] == s@[p + d1]);
            } else {
                assert(w2[d] == s@[p + d]);
            }
        }
    }
    0
}

/// Longest float literal at `i`.
pub fn match_float(s: &Vec<char>, i: usize) -> (n: usize)
    requires
        i < s.len(),
    ensures
        is_longest(p_float(), s@, i as int, n as int),
{
    let q = decimal_at(s, i);
    if q > 0 {
        let ghost wq = s@.subrange(i as int, i + q);
        let ghost dd = choose|d: int|
            #![trigger wq[d]]
            0 < d < wq.len() - 1 && wq[d] == '.' && all_digits(wq.take(d)) && all_digits(wq.skip(d + 1));
        assert(wq.take(dd)[0] == s@[i as int]);
        assert(is_digit(s@[i as int]));
        assert forall|m: int| q < m <= s@.len() - i implies !p_float()(#[trigger] s@.subrange(i as int, i + m)) by {
            let w = s@.subrange(i as int, i + m);
            assert(!pat_decimal(w));
            assert(w[0] == s@[i as int]);
        }
        return q;
    }
    if s[i] == '(' && i + 1 < s.len() && (s[i + 1] == '+' || s[i + 1] == '-') {
        let e = decimal_at(s, i + 2);
        if e > 0 && i + 2 + e < s.len() && s[i + 2 + e] == ')' {
            let n = e + 3;
            let ghost w = s@.subrange(i as int, i + n);
            assert(w.subrange(2, w.len() - 1) =~= s@.subrange(i + 2, i + 2 + e));
            assert forall|m: int| n < m <= s@.len() - i implies !p_float()(#[trigger] s@.subrange(i as int, i + m)) by {
                let w2 = s@.subrange(i as int, i + m);
                assert(w2[0] == s@[i as int]);
                let inner2 = w2.subrange(2, w2.len() - 1);
                assert(inner2 =~= s@.subrange(i + 2, i + 2 + (m - 3)));
                if pat_decimal(inner2) {
                    assert(m - 3 <= e);
                }
            }
            return n;
        }
        assert forall|m: int| 0 < m <= s@.len() - i implies !p_float()(#[trigger] s@.subrange(i as int, i + m)) by {
            let w2 = s@.subrange(i as int, i + m);
            assert(w2[0] == s@[i as int]);
            if signed_in_parens(w2, |x: Seq<char>| pat_decimal(x)) {
                let inner2 = w2.subrange(2, w2.len() - 1);
                assert(inner2 =~= s@.subrange(i + 2, i + 2 + (m - 3)));
                assert(w2[w2.len() - 1] == s@[i + m - 1]);
                if m - 3 < e {
                    assert(is_digit(s@[i + 2 + (m - 3)]));
                }
            }
        }
        return 0;
    }
    assert forall|m: int| 0 < m <= s@.len() - i implies !p_float()(#[trigger] s@.subrange(i as int, i + m)) by {
        let w2 = s@.subrange(i as int, i + m);
        assert(w2[0] == s@[i as int]);
        if w2.len() >= 2 {
            assert(w2[1] == s@[i + 1]);
        }
        assert(!pat_decimal(w2));
    }
    0
}

} // verus!

verus! {

proof fn lemma_body_arrow_concat(x: Seq<char>, y: Seq<char>)
    requires
        body_arrow(x),
        body_arrow(y),
    ensures
        body_arrow(x + y),
    decreases x.len(),
{
    if x.len() > 0 {
        if x[0] != '-' {
            lemma_body_arrow_concat(x.drop_first(), y);
            assert((x + y).drop_first() =~= x.drop_first() + y);
        } else {
            lemma_body_arrow_concat(x.skip(2), y);
            assert((x + y).skip(2) =~= x.skip(2) + y);
        }
    } else {
        assert(x + y =~= y);
    }
}

proof fn lemma_body_brace_concat(x: Seq<char>, y: Seq<char>)
    requires
        body_brace(x),
        body_brace(y),
    ensures
        body_brace(x + y),
    decreases x.len(),
{
    if x.len() > 0 {
        if x[0] != '-' {
            lemma_body_brace_concat(x.drop_first(), y);
            assert((x + y).drop_first() =~= x.drop_first() + y);
        } else {
            lemma_body_brace_concat(x.skip(2), y);
            assert((x + y).skip(2) =~= x.skip(2) + y);
        }
    } else {
        assert(x + y =~= y);
    }
}

/// Longest `<!- ... -!>` comment at `i`.
pub fn match_comment_arrow(s: &Vec<char>, i: usize) -> (n: usize)
    requires
        i < s.len(),
    ensures
        is_longest(p_comment_arrow(), s@, i as int, n as int),
{
    if !(s.len() - i > 2 && s[i] == '<' && s[i + 1] == '!' && s[i + 2] == '-') {
        assert forall|m: int| 0 < m <= s@.len() - i implies !p_comment_arrow()(#[trigger] s@.subrange(i as int, i + m)) by {
            let w = s@.subrange(i as int, i + m);
            if w.len() >= 6 && w.take(3) == seq!['<', '!', '-'] {
                assert(w.take(3)[0] == s@[i as int]);
                assert(w.take(3)[1] == s@[i + 1]);
                assert(w.take(3)[2] == s@[i + 2]);
            }
        }
        return 0;
    }
    let mut j = i + 3;
    proof {
        assert(s@.subrange(i + 3, j as int) =~= Seq::<char>::empty());
        assert forall|m: int| 0 < m <= s@.len() - i && pat_comment_arrow(#[trigger] s@.subrange(i as int, i + m))
            implies i + m - 3 >= j && body_arrow(s@.subrange(j as int, i + m - 3)) by {
            let w = s@.subrange(i as int, i + m);
            assert(w.subrange(3, w.len() - 3) =~= s@.subrange(j as int, i + m - 3));
        }
    }
    while j < s.len()
        invariant
            i + 3 <= j <= s.len(),
            s@[i as int] == '<' && s@[i + 1] == '!' && s@[i + 2] == '-',
            body_arrow(s@.subrange(i + 3, j as int)),
            forall|m: int| 0 < m <= s@.len() - i && pat_comment_arrow(#[trigger] s@.subrange(i as int, i + m))
                ==> i + m - 3 >= j && body_arrow(s@.subrange(j as int, i + m - 3)),
        decreases s.len() - j,
    {
        let c = s[j];
        if c == '\n' {
            assert forall|m: int| 0 < m <= s@.len() - i implies !p_comment_arrow()(#[trigger] s@.subrange(i as int, i + m)) by {
                let w = s@.subrange(i as int, i + m);
                if pat_comment_arrow(w) {
                    let b = s@.subrange(j as int, i + m - 3);
                    if b.len() == 0 {
                        assert(w.skip(w.len() - 3)[0] == s@[j as int]);
                    } else {
                        assert(b[0] == c);
                    }
                }
            }
            return 0;
        }
        if c != '-' {
            proof {
                let one = seq![c];
                assert(body_arrow(one.drop_first()));
                assert(body_arrow(one));
                lemma_body_arrow_concat(s@.subrange(i + 3, j as int), one);
                assert(s@.subrange(i + 3, j as int) + one =~= s@.subrange(i + 3, j + 1));
                assert forall|m: int| 0 < m <= s@.len() - i && pat_comment_arrow(#[trigger] s@.subrange(i as int, i + m))
                    implies i + m - 3 >= j + 1 && body_arrow(s@.subrange(j + 1, i + m - 3)) by {
                    let w = s@.subrange(i as int, i + m);
                    let b = s@.subrange(j as int, i + m - 3);
                    if b.len() == 0 {
                        assert(w.skip(w.len() - 3)[0] == s@[j as int]);
                    }
                    assert(b[0] == c);
                    assert(b.drop_first() =~= s@.subrange(j + 1, i + m - 3));
                }
            }
            j = j + 1;
        } else {
            if j + 1 >= s.len() {
                assert forall|m: int| 0 < m <= s@.len() - i implies !p_comment_arrow()(#[trigger] s@.subrange(i as int, i + m)) by {
                    let w = s@.subrange(i as int, i + m);
                    if pat_comment_arrow(w) {
                        let b = s@.subrange(j as int, i + m - 3);
                        assert(b.len() == 0 || b[0] == '-');
                    }
                }
                return 0;
            }
            let d = s[j + 1];
            if d == '!' {
                if j + 2 < s.len() && s[j + 2] == '>' {
                    let n = j + 3 - i;
                    proof {
                        let w = s@.subrange(i as int, i + n);
                        assert(w.take(3) =~= seq!['<', '!', '-']);
                        assert(w.skip(w.len() - 3) =~= seq!['-', '!', '>']);
                        assert(w.subrange(3, w.len() - 3) =~= s@.subrange(i + 3, j as int));
                        assert forall|m: int| n < m <= s@.len() - i implies !p_comment_arrow()(#[trigger] s@.subrange(i as int, i + m)) by {
                            let w2 = s@.subrange(i as int, i + m);
                            if pat_comment_arrow(w2) {
                                let b = s@.subrange(j as int, i + m - 3);
                                assert(b[0] == '-');
                                assert(b[1] == d);
                            }
                        }
                    }
                    return n;
                }
                assert forall|m: int| 0 < m <= s@.len() - i implies !p_comment_arrow()(#[trigger] s@.subrange(i as int, i + m)) by {
                    let w2 = s@.subrange(i as int, i + m);
                    if pat_comment_arrow(w2) {
                        let b = s@.subrange(j as int, i + m - 3);
                        if b.len() == 0 {
                            assert(w2.skip(w2.len() - 3)[2] == s@[j + 2]);
                        } else {
                            assert(b[0] == '-');
                            assert(b[1] == d);
                        }
                    }
                }
                return 0;
            }
            if d == '\n' {
                assert forall|m: int| 0 < m <= s@.len() - i implies !p_comment_arrow()(#[trigger] s@.subrange(i as int, i + m)) by {
                    let w2 = s@.subrange(i as int, i + m);
                    if pat_comment_arrow(w2) {
                        let b = s@.subrange(j as int, i + m - 3);
                        if b.len() == 0 {
                            assert(w2.skip(w2.len() - 3)[1] == s@[j + 1]);
                        } else {
                            assert(b[0] == '-');
                            assert(b[1] == d);
                        }
                    }
                }
                return 0;
            }
            proof {
                let two = seq![c, d];
                assert(two.skip(2) =~= Seq::<char>::empty());
                assert(body_arrow(two.skip(2)));
                assert(body_arrow(two));
                lemma_body_arrow_concat(s@.subrange(i + 3, j as int), two);
                assert(s@.subrange(i + 3, j as int) + two =~= s@.subrange(i + 3, j + 2));
                assert forall|m: int| 0 < m <= s@.len() - i && pat_comment_arrow(#[trigger] s@.subrange(i as int, i + m))
                    implies i + m - 3 >= j + 2 && body_arrow(s@.subrange(j + 2, i + m - 3)) by {
                    let w = s@.subrange(i as int, i + m);
                    let b = s@.subrange(j as int, i + m - 3);
                    if b.len() == 0 {
                        assert(w.skip(w.len() - 3)[1] == s@[j + 1]);
                    }
                    assert(b[0] == c);
                    assert(b[1] == d);
                    assert(b.skip(2) =~= s@.subrange(j + 2, i + m - 3));
                }
            }
            j = j + 2;
        }
    }
    assert forall|m: int| 0 < m <= s@.len() - i implies !p_comment_arrow()(#[trigger] s@.subrange(i as int, i + m)) by {
    }
    0
}

/// Longest `{-- ... --}` comment at `i`.
pub fn match_comment_brace(s: &Vec<char>, i: usize) -> (n: usize)
    requires
        i < s.len(),
    ensures
        is_longest(p_comment_brace(), s@, i as int, n as int),
{
    if !(s.len() - i > 2 && s[i] == '{' && s[i + 1] == '-' && s[i + 2] == '-') {
        assert forall|m: int| 0 < m <= s@.len() - i implies !p_comment_brace()(#[trigger] s@.subrange(i as int, i + m)) by {
            let w = s@.subrange(i as int, i + m);
            if w.len() >= 6 && w.take(3) == seq!['{', '-', '-'] {
                assert(w.take(3)[0] == s@[i as int]);
                assert(w.take(3)[1] == s@[i + 1]);
                assert(w.take(3)[2] == s@[i + 2]);
            }
        }
        return 0;
    }
    let mut j = i + 3;
    proof {
        assert(s@.subrange(i + 3, j as int) =~= Seq::<char>::empty());
        assert forall|m: int| 0 < m <= s@.len() - i && pat_comment_brace(#[trigger] s@.subrange(i as int, i + m))
            implies i + m - 3 >= j && body_brace(s@.subrange(j as int, i + m - 3)) by {
            let w = s@.subrange(i as int, i + m);
            assert(w.subrange(3, w.len() - 3) =~= s@.subrange(j as int, i + m - 3));
        }
    }
    while j < s.len()
        invariant
            i + 3 <= j <= s.len(),
            s@[i as int] == '{' && s@[i + 1] == '-' && s@[i + 2] == '-',
            body_brace(s@.subrange(i + 3, j as int)),
            forall|m: int| 0 < m <= s@.len() - i && pat_comment_brace(#[trigger] s@.subrange(i as int, i + m))
                ==> i + m - 3 >= j && body_brace(s@.subrange(j as int, i + m - 3)),
        decreases s.len() - j,
    {
        let c = s[j];
        if c != '-' {
            proof {
                let one = seq![c];
                assert(body_brace(one.drop_first()));
                assert(body_brace(one));
                lemma_body_brace_concat(s@.subrange(i + 3, j as int), one);
                assert(s@.subrange(i + 3, j as int) + one =~= s@.subrange(i + 3, j + 1));
                assert forall|m: int| 0 < m <= s@.len() - i && pat_comment_brace(#[trigger] s@.subrange(i as int, i + m))
                    implies i + m - 3 >= j + 1 && body_brace(s@.subrange(j + 1, i + m - 3)) by {
                    let w = s@.subrange(i as int, i + m);
                    let b = s@.subrange(j as int, i + m - 3);
                    if b.len() == 0 {
                        assert(w.skip(w.len() - 3)[0] == s@[j as int]);
                    }
                    assert(b[0] == c);
                    assert(b.drop_first() =~= s@.subrange(j + 1, i + m - 3));
                }
            }
            j = j + 1;
        } else {
            if j + 1 >= s.len() {
                assert forall|m: int| 0 < m <= s@.len() - i implies !p_comment_brace()(#[trigger] s@.subrange(i as int, i + m)) by {
                    let w = s@.subrange(i as int, i + m);
                    if pat_comment_brace(w) {
                        let b = s@.subrange(j as int, i + m - 3);
                        assert(b.len() == 0 || b[0] == '-');
                    }
                }
                return 0;
            }
            let d = s[j + 1];
            if d == '-' {
                if j + 2 < s.len() && s[j + 2] == '}' {
                    let n = j + 3 - i;
                    proof {
                        let w = s@.subrange(i as int, i + n);
                        assert(w.take(3) =~= seq!['{', '-', '-']);
                        assert(w.skip(w.len() - 3) =~= seq!['-', '-', '}']);
                        assert(w.subrange(3, w.len() - 3) =~= s@.subrange(i + 3, j as int));
                        assert forall|m: int| n < m <= s@.len() - i implies !p_comment_brace()(#[trigger] s@.subrange(i as int, i + m)) by {
                            let w2 = s@.subrange(i as int, i + m);
                            if pat_comment_brace(w2) {
                                let b = s@.subrange(j as int, i + m - 3);
                                assert(b[0] == '-');
                                assert(b[1] == d);
                            }
                        }
                    }
                    return n;
                }
                assert forall|m: int| 0 < m <= s@.len() - i implies !p_comment_brace()(#[trigger] s@.subrange(i as int, i + m)) by {
                    let w2 = s@.subrange(i as int, i + m);
                    if pat_comment_brace(w2) {
                        let b = s@.subrange(j as int, i + m - 3);
                        if b.len() == 0 {
                            assert(w2.skip(w2.len() - 3)[2] == s@[j + 2]);
                        } else {
                            assert(b[0] == '-');
                            assert(b[1] == d);
                        }
                    }
                }
                return 0;
            }
            proof {
                let two = seq![c, d];
                assert(two.skip(2) =~= Seq::<char>::empty());
                assert(body_brace(two.skip(2)));
                assert(body_brace(two));
                lemma_body_brace_concat(s@.subrange(i + 3, j as int), two);
                assert(s@.subrange(i + 3, j as int) + two =~= s@.subrange(i + 3, j + 2));
                assert forall|m: int| 0 < m <= s@.len() - i && pat_comment_brace(#[trigger] s@.subrange(i as int, i + m))
                    implies i + m - 3 >= j + 2 && body_brace(s@.subrange(j + 2, i + m - 3)) by {
                    let w = s@.subrange(i as int, i + m);
                    let b = s@.subrange(j as int, i + m - 3);
                    if b.len() == 0 {
                        assert(w.skip(w.len() - 3)[1] == s@[j + 1]);
                    }
                    assert(b[0] == c);
                    assert(b[1] == d);
                    assert(b.skip(2) =~= s@.subrange(j + 2, i + m - 3));
                }
            }
            j = j + 2;
        }
    }
    assert forall|m: int| 0 < m <= s@.len() - i implies !p_comment_brace()(#[trigger] s@.subrange(i as int, i + m)) by {
    }
    0
}

} // verus!

verus! {

/// Does the text `t` stand in `s` at position `i`?
pub fn text_at(s: &Vec<char>, i: usize, t: &Vec<char>) -> (r: bool)
    requires
        i <= s.len(),
    ensures
        r == (t.len() <= s.len() - i && s@.subrange(i as int, i + t.len()) == t@),
{
    if t.len() > s.len() - i {
        return false;
    }
    let mut k: usize = 0;
    while k < t.len()
        invariant
            0 <= k <= t.len(),
            t.len() <= s.len() - i,
            forall|q: int| 0 <= q < k ==> s@[i + q] == t@[q],
        decreases t.len() - k,
    {
        if s[i + k] != t[k] {
            assert(s@.subrange(i as int, i + t.len())[k as int] == s@[i + k]);
            return false;
        }
        k = k + 1;
    }
    assert(s@.subrange(i as int, i + t.len()) =~= t@);
    true
}

pub proof fn lemma_fixed_text_nonempty(k: int)
    requires
        0 <= k < num_fixed(),
    ensures
        fixed_text(k).len() > 0,
{
}

proof fn lemma_first_fixed_from(w: Seq<char>, k: int, k0: int)
    requires
        0 <= k <= k0 < num_fixed(),
        fixed_text(k0) == w,
        forall|q: int| k <= q < k0 ==> fixed_text(q) != w,
    ensures
        first_fixed_from(w, k) == k0,
    decreases k0 - k,
{
    if k < k0 {
        lemma_first_fixed_from(w, k + 1, k0);
    }
}

proof fn lemma_first_fixed_found(w: Seq<char>, k: int)
    requires
        0 <= k <= num_fixed(),
    ensures
        first_fixed_from(w, k) < num_fixed() ==> fixed_text(first_fixed_from(w, k)) == w
            && k <= first_fixed_from(w, k),
    decreases num_fixed() - k,
{
    if k < num_fixed() {
        lemma_first_fixed_found(w, k + 1);
    }
}

pub proof fn lemma_first_fixed(w: Seq<char>)
    ensures
        pat_fixed(w) ==> fixed_text(first_fixed(w)) == w && 0 <= first_fixed(w) < num_fixed(),
{
    lemma_first_fixed_found(w, 0);
}

/// Longest fixed text at `i`, with the number of the first fixed token spelled so.
pub fn match_fixed(s: &Vec<char>, i: usize, table: &Vec<Vec<char>>) -> (r: (usize, usize))
    requires
        i < s.len(),
        table@.len() == num_fixed(),
        forall|k: int| 0 <= k < num_fixed() ==> (#[trigger] table@[k])@ == fixed_text(k),
    ensures
        is_longest(p_fixed(), s@, i as int, r.0 as int),
        r.0 > 0 ==> r.1 == first_fixed(s@.subrange(i as int, i + r.0)) && r.1 < num_fixed(),
{
    let mut best_len: usize = 0;
    let mut best_k: usize = 0;
    let mut k: usize = 0;
    while k < table.len()
        invariant
            0 <= k <= table@.len(),
            table@.len() == num_fixed(),
            i < s.len(),
            forall|q: int| 0 <= q < num_fixed() ==> (#[trigger] table@[q])@ == fixed_text(q),
            best_len <= s.len() - i,
            best_len > 0 ==> best_k < k && fixed_text(best_k as int).len() == best_len
                && s@.subrange(i as int, i + best_len) == fixed_text(best_k as int),
            forall|q: int|
                0 <= q < k && fixed_text(q).len() <= s.len() - i
                    && #[trigger] s@.subrange(i as int, i + fixed_text(q).len()) == fixed_text(q)
                    ==> fixed_text(q).len() <= best_len && (fixed_text(q).len() == best_len ==> best_k <= q),
        decreases table@.len() - k,
    {
        let here = text_at(s, i, &table[k]);
        proof {
            lemma_fixed_text_nonempty(k as int);
        }
        if here && table[k].len() > best_len {
            best_len = table[k].len();
            best_k = k;
        }
        k = k + 1;
    }
    proof {
        assert forall|m: int| best_len < m <= s@.len() - i implies !p_fixed()(#[trigger] s@.subrange(i as int, i + m)) by {
            let w = s@.subrange(i as int, i + m);
            lemma_first_fixed(w);
            if pat_fixed(w) {
                let q = first_fixed(w);
                assert(s@.subrange(i as int, i + fixed_text(q).len()) == fixed_text(q));
            }
        }
        if best_len > 0 {
            let w = s@.subrange(i as int, i + best_len);
            assert forall|q: int| 0 <= q < best_k implies fixed_text(q) != w by {
                if fixed_text(q) == w {
                    assert(s@.subrange(i as int, i + fixed_text(q).len()) == fixed_text(q));
                }
            }
            lemma_first_fixed_from(w, 0, best_k as int);
        }
    }
    (best_len, best_k)
}

} // verus!
