//! What the lexer does at one position of the source: the longest lexeme
//! there, what it stands for, and how much is skipped after a failure.
use vstd::prelude::*;
use crate::lexer::token::{Token, TokenV, fixed_text, num_fixed, fixed_token};
use crate::lexer::patterns::{
    is_alpha, is_digit, is_blank, is_upper, pat_fixed, first_fixed, first_fixed_from, pat_blank,
    pat_comment_arrow, pat_comment_brace, pat_newline, pat_int, pat_float, pat_string, pat_ident,
    pat_decimal, all_digits, longest_lexeme, longest_viable, accepts, lemma_first_fixed,
    lemma_fixed_text_nonempty, is_upper_char, p_accepts, p_viable, viable, lemma_max_len_with,
    match_fixed, match_blank, match_comment_arrow, match_comment_brace, match_int, match_float,
    match_string, match_ident, is_longest, p_fixed, p_blank, p_comment_arrow, p_comment_brace,
    p_int, p_float, p_string, p_ident, signed_in_parens, pat_digits,
};
use crate::text::chars_to_string;

verus! {

/// The meaning of a lexeme.
pub enum Lexeme {
    Tok(TokenV),
    Skip,
    Newline,
    Bad,
}

/// Value of a non-empty sequence of decimal digits.
pub open spec fn digits_value(d: Seq<char>) -> int
    decreases d.len(),
{
    if d.len() == 0 {
        0
    } else {
        digits_value(d.drop_last()) * 10 + (d.last() as int - '0' as int)
    }
}

/// Value of an integer lexeme.
pub open spec fn int_value(w: Seq<char>) -> int {
    if w[0] == '(' {
        let v = digits_value(w.subrange(2, w.len() - 1));
        if w[1] == '-' {
            -v
        } else {
            v
        }
    } else {
        digits_value(w)
    }
}

/// Integer literals are 16-bit signed numbers.
pub open spec fn int_in_range(v: int) -> bool {
    -32768 <= v <= 32767
}

/// The text of a float lexeme without its parentheses.
pub open spec fn float_text(w: Seq<char>) -> Seq<char> {
    if w[0] == '(' {
        w.subrange(1, w.len() - 1)
    } else {
        w
    }
}

pub open spec fn has_double_underscore(w: Seq<char>) -> bool {
    exists|k: int| 0 <= k < w.len() - 1 && #[trigger] w[k] == '_' && w[k + 1] == '_'
}

pub open spec fn has_upper_after_first(w: Seq<char>) -> bool {
    exists|k: int| 1 <= k < w.len() && is_upper(#[trigger] w[k])
}

/// The rules an identifier obeys beyond its shape.
pub open spec fn ident_ok(w: Seq<char>) -> bool {
    &&& w.len() <= 14
    &&& !has_double_underscore(w)
    &&& w[w.len() - 1] != '_'
    &&& !has_upper_after_first(w)
}

/// The meaning of the lexeme `w`; fixed texts take precedence over identifiers.
pub open spec fn classify(w: Seq<char>) -> Lexeme {
    if pat_fixed(w) {
        Lexeme::Tok(TokenV::Fixed(first_fixed(w)))
    } else if pat_blank(w) || pat_comment_arrow(w) || pat_comment_brace(w) {
        Lexeme::Skip
    } else if pat_newline(w) {
        Lexeme::Newline
    } else if pat_int(w) {
        if int_in_range(int_value(w)) {
            Lexeme::Tok(TokenV::IntLiteral(int_value(w) as i32))
        } else {
            Lexeme::Bad
        }
    } else if pat_float(w) {
        Lexeme::Tok(TokenV::FloatLiteral(float_text(w)))
    } else if pat_string(w) {
        Lexeme::Tok(TokenV::StringLiteral(w.subrange(1, w.len() - 1)))
    } else if pat_ident(w) {
        if ident_ok(w) {
            Lexeme::Tok(TokenV::Identifier(w))
        } else {
            Lexeme::Bad
        }
    } else {
        Lexeme::Bad
    }
}

/// Number of characters consumed at position `i`: the longest lexeme, or,
/// where no lexeme starts, the longest text that could still become one
/// (at least one character).
pub open spec fn step_len(s: Seq<char>, i: int) -> int {
    let l = longest_lexeme(s, i);
    if l > 0 {
        l
    } else {
        let v = longest_viable(s, i);
        if v > 1 {
            v
        } else {
            1
        }
    }
}

/// Meaning of what is consumed at position `i`.
pub open spec fn step_kind(s: Seq<char>, i: int) -> Lexeme {
    let l = longest_lexeme(s, i);
    if l > 0 {
        classify(s.subrange(i, i + l))
    } else {
        Lexeme::Bad
    }
}

/// Executable counterpart of `Lexeme`.
pub enum Scanned {
    Tok(Token),
    Skip,
    Newline,
    Bad,
}

impl View for Scanned {
    type V = Lexeme;

    open spec fn view(&self) -> Lexeme {
        match self {
            Scanned::Tok(t) => Lexeme::Tok(t@),
            Scanned::Skip => Lexeme::Skip,
            Scanned::Newline => Lexeme::Newline,
            Scanned::Bad => Lexeme::Bad,
        }
    }
}

/// The first characters of lexemes.
pub open spec fn may_start_lexeme(c: char) -> bool {
    ||| is_alpha(c)
    ||| is_digit(c)
    ||| is_blank(c)
    ||| c == '\n'
    ||| c == '"'
    ||| c == '@'
    ||| c == ';' || c == ',' || c == ':' || c == '[' || c == ']' || c == '{' || c == '}'
    ||| c == '(' || c == ')' || c == '=' || c == '+' || c == '-' || c == '*' || c == '/'
    ||| c == '>' || c == '<' || c == '!'
}

pub proof fn lemma_fixed_first_char(k: int)
    requires
        0 <= k < num_fixed(),
    ensures
        may_start_lexeme(fixed_text(k)[0]),
        fixed_text(k)[0] == '@' ==> k == 18,
{
}

pub proof fn lemma_first_fixed_at_most(w: Seq<char>, k0: int, k: int)
    requires
        0 <= k <= k0 < num_fixed(),
        fixed_text(k0) == w,
    ensures
        first_fixed_from(w, k) <= k0,
    decreases k0 - k,
{
    if k < k0 && fixed_text(k) != w {
        lemma_first_fixed_at_most(w, k0, k + 1);
    }
}

pub proof fn lemma_accepts_first_char(x: Seq<char>)
    requires
        accepts(x),
    ensures
        x.len() > 0,
        may_start_lexeme(x[0]),
        x[0] == '@' ==> x == fixed_text(18),
{
    lemma_first_fixed(x);
    if pat_fixed(x) {
        lemma_fixed_text_nonempty(first_fixed(x));
        lemma_fixed_first_char(first_fixed(x));
    }
    if pat_decimal(x) {
        let d = choose|d: int|
            #![trigger x[d]]
            0 < d < x.len() - 1 && x[d] == '.' && all_digits(x.take(d)) && all_digits(x.skip(d + 1));
        assert(x.take(d)[0] == x[0]);
    }
    if pat_comment_arrow(x) {
        assert(x.take(3)[0] == x[0]);
    }
    if pat_comment_brace(x) {
        assert(x.take(3)[0] == x[0]);
    }
}

} // verus!

verus! {

pub open spec fn value_cap() -> int {
    100000
}

pub open spec fn min_int(a: int, b: int) -> int {
    if a < b {
        a
    } else {
        b
    }
}

pub proof fn lemma_digits_value_nonneg(d: Seq<char>)
    requires
        all_digits(d),
    ensures
        digits_value(d) >= 0,
    decreases d.len(),
{
    if d.len() > 0 {
        assert(d.drop_last() =~= d.take(d.len() - 1));
        lemma_digits_value_nonneg(d.drop_last());
        assert(is_digit(d[d.len() - 1]));
    }
}

/// `min(value of the digits s[a..b], 100000)`.
fn capped_digits_value(s: &Vec<char>, a: usize, b: usize) -> (v: u32)
    requires
        a <= b <= s.len(),
        forall|k: int| a <= k < b ==> is_digit(#[trigger] s@[k]),
    ensures
        v == min_int(digits_value(s@.subrange(a as int, b as int)), value_cap()),
{
    let mut v: u32 = 0;
    let mut k = a;
    while k < b
        invariant
            a <= k <= b <= s.len(),
            forall|q: int| a <= q < b ==> is_digit(#[trigger] s@[q]),
            v == min_int(digits_value(s@.subrange(a as int, k as int)), value_cap()),
        decreases b - k,
    {
        let c = s[k];
        assert(is_digit(s@[k as int]));
        let d = (c as u32) - ('0' as u32);
        proof {
            let pre = s@.subrange(a as int, k as int);
            let nxt = s@.subrange(a as int, k + 1);
            assert(nxt.drop_last() =~= pre);
            assert(nxt.last() == c);
            assert forall|q: int| 0 <= q < pre.len() implies is_digit(#[trigger] pre[q]) by {
                assert(pre[q] == s@[a + q]);
            }
            lemma_digits_value_nonneg(pre);
        }
        if v >= 10000 {
            v = 100000;
        } else {
            let t = v * 10 + d;
            v = if t > 100000 { 100000 } else { t };
        }
        k = k + 1;
    }
    v
}

/// Is the identifier-shaped lexeme `s[a..b]` a valid identifier?
fn ident_ok_exec(s: &Vec<char>, a: usize, b: usize) -> (r: bool)
    requires
        a < b <= s.len(),
    ensures
        r == ident_ok(s@.subrange(a as int, b as int)),
{
    let ghost w = s@.subrange(a as int, b as int);
    if b - a > 14 {
        return false;
    }
    if s[b - 1] == '_' {
        assert(w[w.len() - 1] == s@[b - 1]);
        return false;
    }
    let mut k = a;
    while k < b
        invariant
            a <= k <= b <= s.len(),
            w == s@.subrange(a as int, b as int),
            forall|q: int| 0 <= q < k - a && q < w.len() - 1 ==> !(#[trigger] w[q] == '_' && w[q + 1] == '_'),
            forall|q: int| 1 <= q < k - a ==> !is_upper(#[trigger] w[q]),
        decreases b - k,
    {
        if k + 1 < b && s[k] == '_' && s[k + 1] == '_' {
            assert(w[k - a] == s@[k as int] && w[k - a + 1] == s@[k + 1]);
            return false;
        }
        if k > a && is_upper_char(s[k]) {
            assert(w[k - a] == s@[k as int]);
            return false;
        }
        assert(w[k - a] == s@[k as int]);
        if k + 1 < b {
            assert(w[k - a + 1] == s@[k + 1]);
        }
        k = k + 1;
    }
    assert(w[w.len() - 1] == s@[b - 1]);
    true
}

} // verus!

verus! {

proof fn lemma_single_char_fixed(c: char)
    requires
        may_start_lexeme(c),
        !is_alpha(c),
        !is_digit(c),
        !is_blank(c),
        c != '\n',
        c != '"',
        c != '@',
    ensures
        pat_fixed(seq![c]),
{
    let w = seq![c];
    let k: int = if c == ';' { 20 } else if c == ',' { 21 } else if c == ':' { 22 } else if c == '[' {
        23
    } else if c == ']' { 24 } else if c == '{' { 25 } else if c == '}' { 26 } else if c == '(' {
        27
    } else if c == ')' { 28 } else if c == '=' { 30 } else if c == '+' { 31 } else if c == '-' {
        32
    } else if c == '*' { 33 } else if c == '/' { 34 } else if c == '>' { 35 } else if c == '<' {
        36
    } else { 43 };
    assert(fixed_text(k) =~= w);
    lemma_first_fixed_at_most(w, k, 0);
}

/// The integer token of the integer lexeme `s[i..i+l]`, when its value is in range.
fn scan_int(s: &Vec<char>, i: usize, l: usize) -> (r: Scanned)
    requires
        0 < l <= s.len() - i,
        pat_int(s@.subrange(i as int, i + l)),
    ensures
        r@ == (if int_in_range(int_value(s@.subrange(i as int, i + l))) {
            Lexeme::Tok(TokenV::IntLiteral(int_value(s@.subrange(i as int, i + l)) as i32))
        } else {
            Lexeme::Bad
        }),
{
    let ghost w = s@.subrange(i as int, i + l);
    if s[i] == '(' {
        assert(w[0] == s@[i as int]);
        assert(!pat_digits(w));
        assert(signed_in_parens(w, |x: Seq<char>| pat_digits(x)));
        let ghost inner = w.subrange(2, w.len() - 1);
        assert(inner =~= s@.subrange(i + 2, i + l - 1));
        assert forall|k: int| i + 2 <= k < i + l - 1 implies is_digit(#[trigger] s@[k]) by {
            assert(s@[k] == inner[k - i - 2]);
        }
        proof {
            lemma_digits_value_nonneg(inner);
        }
        let v = capped_digits_value(s, i + 2, i + l - 1);
        assert(w[1] == s@[i + 1]);
        if s[i + 1] == '-' {
            if v <= 32768 {
                let x: i32 = 0 - (v as i32);
                return Scanned::Tok(Token::IntLiteral(x));
            }
            return Scanned::Bad;
        } else {
            if v <= 32767 {
                return Scanned::Tok(Token::IntLiteral(v as i32));
            }
            return Scanned::Bad;
        }
    } else {
        assert(w[0] == s@[i as int]);
        assert(pat_digits(w));
        assert forall|k: int| i <= k < i + l implies is_digit(#[trigger] s@[k]) by {
            assert(s@[k] == w[k - i]);
        }
        proof {
            lemma_digits_value_nonneg(w);
        }
        let v = capped_digits_value(s, i, i + l);
        if v <= 32767 {
            return Scanned::Tok(Token::IntLiteral(v as i32));
        }
        return Scanned::Bad;
    }
}

/// The length of the longest lexeme of each pattern at a position.
pub struct Longest {
    pub fixed: usize,
    pub fixed_index: usize,
    pub blank: usize,
    pub newline: usize,
    pub arrow: usize,
    pub brace: usize,
    pub int: usize,
    pub float: usize,
    pub string: usize,
    pub ident: usize,
    pub all: usize,
}

pub open spec fn longest_basic(s: Seq<char>, i: int, g: Longest) -> bool {
    &&& 0 <= i < s.len()
    &&& g.newline == (if s[i] == '\n' { 1int } else { 0int })
    &&& g.all == longest_lexeme(s, i)
    &&& g.all <= s.len() - i
    &&& g.all == 0 ==> g.fixed == 0 && g.blank == 0 && g.newline == 0 && g.arrow == 0 && g.brace
        == 0 && g.int == 0 && g.float == 0 && g.string == 0 && g.ident == 0
}

#[verifier::opaque]
pub open spec fn longest_each(s: Seq<char>, i: int, g: Longest) -> bool {
    &&& is_longest(p_fixed(), s, i, g.fixed as int)
    &&& is_longest(p_blank(), s, i, g.blank as int)
    &&& is_longest(p_comment_arrow(), s, i, g.arrow as int)
    &&& is_longest(p_comment_brace(), s, i, g.brace as int)
    &&& is_longest(p_int(), s, i, g.int as int)
    &&& is_longest(p_float(), s, i, g.float as int)
    &&& is_longest(p_string(), s, i, g.string as int)
    &&& is_longest(p_ident(), s, i, g.ident as int)
}

#[verifier::opaque]
pub open spec fn longest_which(s: Seq<char>, i: int, g: Longest) -> bool {
    g.all > 0 ==> {
        let w = s.subrange(i, i + g.all);
        &&& accepts(w)
        &&& pat_fixed(w) == (g.fixed == g.all)
        &&& pat_blank(w) == (g.blank == g.all)
        &&& pat_newline(w) == (g.newline == g.all)
        &&& pat_comment_arrow(w) == (g.arrow == g.all)
        &&& pat_comment_brace(w) == (g.brace == g.all)
        &&& pat_int(w) == (g.int == g.all)
        &&& pat_float(w) == (g.float == g.all)
        &&& pat_string(w) == (g.string == g.all)
        &&& pat_ident(w) == (g.ident == g.all)
        &&& g.fixed == g.all ==> g.fixed_index == first_fixed(w) && g.fixed_index < num_fixed()
    }
}

pub open spec fn longest_facts(s: Seq<char>, i: int, g: Longest) -> bool {
    longest_basic(s, i, g) && longest_each(s, i, g) && longest_which(s, i, g)
}

/// Longest lexemes of every pattern at position `i`.
#[verifier::rlimit(50)]
fn longest_at(s: &Vec<char>, i: usize, table: &Vec<Vec<char>>) -> (g: Longest)
    requires
        i < s.len(),
        table@.len() == num_fixed(),
        forall|k: int| 0 <= k < num_fixed() ==> (#[trigger] table@[k])@ == fixed_text(k),
    ensures
        longest_facts(s@, i as int, g),
{
    let (lf, kf) = match_fixed(s, i, table);
    let lb = match_blank(s, i);
    let lnl: usize = if s[i] == '\n' { 1 } else { 0 };
    let lca = match_comment_arrow(s, i);
    let lcb = match_comment_brace(s, i);
    let li = match_int(s, i);
    let lfl = match_float(s, i);
    let lst = match_string(s, i);
    let lid = match_ident(s, i);
    proof {
        assert(s@.subrange(i as int, i + 1)[0] == s@[i as int]);
        assert forall|m: int| lnl < m <= s@.len() - i implies !pat_newline(#[trigger] s@.subrange(i as int, i + m)) by {
            assert(s@.subrange(i as int, i + m)[0] == s@[i as int]);
        }
    }
    let mut l = lf;
    if lb > l {
        l = lb;
    }
    if lnl > l {
        l = lnl;
    }
    if lca > l {
        l = lca;
    }
    if lcb > l {
        l = lcb;
    }
    if li > l {
        l = li;
    }
    if lfl > l {
        l = lfl;
    }
    if lst > l {
        l = lst;
    }
    if lid > l {
        l = lid;
    }
    proof {
        reveal(longest_each);
        reveal(longest_which);
        assert forall|m: int| l < m <= s@.len() - i implies !p_accepts()(#[trigger] s@.subrange(i as int, i + m)) by {
            let w = s@.subrange(i as int, i + m);
            assert(!p_fixed()(w));
            assert(!p_blank()(w));
            assert(!p_comment_arrow()(w));
            assert(!p_comment_brace()(w));
            assert(!p_int()(w));
            assert(!p_float()(w));
            assert(!p_string()(w));
            assert(!p_ident()(w));
        }
        if l > 0 {
            let w = s@.subrange(i as int, i + l);
            assert(p_fixed()(w) == (lf == l));
            assert(p_blank()(w) == (lb == l));
            assert(pat_newline(w) == (lnl == l));
            assert(p_comment_arrow()(w) == (lca == l));
            assert(p_comment_brace()(w) == (lcb == l));
            assert(p_int()(w) == (li == l));
            assert(p_float()(w) == (lfl == l));
            assert(p_string()(w) == (lst == l));
            assert(p_ident()(w) == (lid == l));
            assert(p_accepts()(w));
        }
        lemma_max_len_with(p_accepts(), s@, i as int, l as int, s@.len() - i);
    }
    Longest {
        fixed: lf,
        fixed_index: kf,
        blank: lb,
        newline: lnl,
        arrow: lca,
        brace: lcb,
        int: li,
        float: lfl,
        string: lst,
        ident: lid,
        all: l,
    }
}

/// The meaning of the longest lexeme at `i`.
fn classify_at(s: &Vec<char>, i: usize, g: &Longest) -> (r: Scanned)
    requires
        longest_facts(s@, i as int, *g),
        g.all > 0,
    ensures
        r@ == classify(s@.subrange(i as int, i + g.all)),
{
    let len = s.len();
    let l = g.all;
    let ghost w = s@.subrange(i as int, i + l);
    proof {
        reveal(longest_which);
    }
    if g.fixed == l {
        return Scanned::Tok(fixed_token(g.fixed_index));
    }
    if g.blank == l || g.arrow == l || g.brace == l {
        return Scanned::Skip;
    }
    if g.newline == l {
        return Scanned::Newline;
    }
    if g.int == l {
        return scan_int(s, i, l);
    }
    if g.float == l {
        assert(w[0] == s@[i as int]);
        if s[i] == '(' {
            assert(w.subrange(1, w.len() - 1) =~= s@.subrange(i + 1, i + l - 1));
            let t = chars_to_string(s, i + 1, i + l - 1);
            return Scanned::Tok(Token::FloatLiteral(t));
        } else {
            let t = chars_to_string(s, i, i + l);
            return Scanned::Tok(Token::FloatLiteral(t));
        }
    }
    if g.string == l {
        assert(w.subrange(1, w.len() - 1) =~= s@.subrange(i + 1, i + l - 1));
        let t = chars_to_string(s, i + 1, i + l - 1);
        return Scanned::Tok(Token::StringLiteral(t));
    }
    assert(g.ident == l);
    if ident_ok_exec(s, i, i + l) {
        let t = chars_to_string(s, i, i + l);
        return Scanned::Tok(Token::Identifier(t));
    }
    Scanned::Bad
}

/// Length consumed after a failure at an opening quote that is never closed.
fn error_len_quote(s: &Vec<char>, i: usize, g: &Longest) -> (n: usize)
    requires
        longest_facts(s@, i as int, *g),
        g.all == 0,
        s@[i as int] == '"',
    ensures
        n == longest_viable(s@, i as int),
        n == s.len() - i,
{
    let len = s.len();
    proof {
        reveal(longest_each);
    }
    let mut j = i + 1;
    while j < s.len()
        invariant
            i < j <= s.len(),
            s@[i as int] == '"',
            is_longest(p_string(), s@, i as int, 0),
            forall|q: int| i < q < j ==> #[trigger] s@[q] != '"',
        decreases s.len() - j,
    {
        if s[j] == '"' {
            proof {
                let m = j + 1 - i;
                let w = s@.subrange(i as int, i + m);
                assert forall|k: int| 1 <= k < w.len() - 1 implies #[trigger] w[k] != '"' by {
                    assert(w[k] == s@[i + k]);
                }
                assert(w[w.len() - 1] == s@[j as int]);
                assert(w[0] == s@[i as int]);
                assert(p_string()(w));
                assert(!p_string()(s@.subrange(i as int, i + m)));
            }
            assert(false);
        }
        j = j + 1;
    }
    proof {
        let w = s@.subrange(i as int, s@.len() as int);
        let x = w + seq!['"'];
        assert forall|k: int| 1 <= k < x.len() - 1 implies #[trigger] x[k] != '"' by {
            assert(x[k] == s@[i + k]);
        }
        assert(x[0] == s@[i as int]);
        assert(pat_string(x));
        assert(accepts(x));
        assert(viable(w));
        assert(p_viable()(w));
        assert(s@.subrange(i as int, i + (s@.len() - i)) == w);
        lemma_max_len_with(p_viable(), s@, i as int, s@.len() - i, s@.len() - i);
    }
    s.len() - i
}

/// Length consumed after a failure at `@`: the part that agrees with `@define`.
fn error_len_at_sign(s: &Vec<char>, i: usize, g: &Longest, table: &Vec<Vec<char>>) -> (n: usize)
    requires
        longest_facts(s@, i as int, *g),
        g.all == 0,
        s@[i as int] == '@',
        table@.len() == num_fixed(),
        forall|k: int| 0 <= k < num_fixed() ==> (#[trigger] table@[k])@ == fixed_text(k),
    ensures
        n == longest_viable(s@, i as int),
        1 <= n <= s.len() - i,
{
    proof {
        reveal(longest_each);
    }
    let text = &table[18];
    assert(text@ == fixed_text(18));
    let mut p: usize = 1;
    while p < text.len() && p < s.len() - i && s[i + p] == text[p]
        invariant
            1 <= p <= text@.len(),
            p <= s.len() - i,
            text@ == fixed_text(18),
            s@[i as int] == '@',
            forall|q: int| 0 <= q < p ==> #[trigger] s@[i + q] == text@[q],
        decreases text@.len() - p,
    {
        p = p + 1;
    }
    proof {
        let w = s@.subrange(i as int, i + p);
        let t = fixed_text(18).skip(p as int);
        assert forall|q: int| 0 <= q < p implies #[trigger] w[q] == fixed_text(18)[q] by {
            assert(w[q] == s@[i + q]);
        }
        if p == text@.len() {
            assert(w =~= fixed_text(18));
            lemma_first_fixed_at_most(w, 18, 0);
            assert(p_fixed()(w));
            assert(!p_fixed()(s@.subrange(i as int, i + p)));
            assert(false);
        }
        assert forall|q: int| 0 <= q < fixed_text(18).len() implies #[trigger] (w + t)[q] == fixed_text(18)[q] by {
            if q < p {
                assert((w + t)[q] == w[q]);
            } else {
                assert((w + t)[q] == t[q - p]);
            }
        }
        assert(w + t =~= fixed_text(18));
        lemma_first_fixed_at_most(w + t, 18, 0);
        assert(accepts(w + t));
        assert(p_viable()(w));
        assert forall|m: int| p < m <= s@.len() - i implies !p_viable()(#[trigger] s@.subrange(i as int, i + m)) by {
            let w2 = s@.subrange(i as int, i + m);
            if viable(w2) {
                let t2 = choose|t2: Seq<char>| accepts(w2 + t2);
                lemma_accepts_first_char(w2 + t2);
                assert((w2 + t2)[0] == s@[i as int]);
                assert((w2 + t2)[p as int] == s@[i + p]);
            }
        }
        lemma_max_len_with(p_viable(), s@, i as int, p as int, s@.len() - i);
    }
    p
}

/// After a failure at any other character, no text there can grow into a lexeme.
proof fn lemma_error_other(s: Seq<char>, i: int, g: Longest)
    requires
        longest_facts(s, i, g),
        g.all == 0,
        s[i] != '"',
        s[i] != '@',
    ensures
        longest_viable(s, i) == 0,
{
    reveal(longest_each);
    let c = s[i];
    let one = s.subrange(i, i + 1);
    assert(one[0] == c);
    assert(!p_blank()(one));
    assert(!p_ident()(one));
    assert(!p_int()(one));
    assert(!p_fixed()(one));
    if is_digit(c) {
        assert(pat_digits(one));
    }
    if may_start_lexeme(c) {
        lemma_single_char_fixed(c);
        assert(one =~= seq![c]);
    }
    assert forall|m: int| 0 < m <= s.len() - i implies !p_viable()(#[trigger] s.subrange(i, i + m)) by {
        let w2 = s.subrange(i, i + m);
        if viable(w2) {
            let t2 = choose|t2: Seq<char>| accepts(w2 + t2);
            lemma_accepts_first_char(w2 + t2);
            assert((w2 + t2)[0] == s[i]);
        }
    }
    lemma_max_len_with(p_viable(), s, i, 0, s.len() - i);
}

/// What the lexer consumes at position `i`, and what it means.
pub fn scan(s: &Vec<char>, i: usize, table: &Vec<Vec<char>>) -> (r: (usize, Scanned))
    requires
        i < s.len(),
        table@.len() == num_fixed(),
        forall|k: int| 0 <= k < num_fixed() ==> (#[trigger] table@[k])@ == fixed_text(k),
    ensures
        r.0 == step_len(s@, i as int),
        r.1@ == step_kind(s@, i as int),
        0 < r.0 <= s.len() - i,
{
    let g = longest_at(s, i, table);
    if g.all > 0 {
        let k = classify_at(s, i, &g);
        return (g.all, k);
    }
    if s[i] == '"' {
        let n = error_len_quote(s, i, &g);
        return (n, Scanned::Bad);
    }
    if s[i] == '@' {
        let n = error_len_at_sign(s, i, &g, table);
        return (n, Scanned::Bad);
    }
    proof {
        lemma_error_other(s@, i as int, g);
    }
    (1, Scanned::Bad)
}

} // verus!
