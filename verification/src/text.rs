//! Small text utilities.
use vstd::prelude::*;
use vstd::utf8::{encode_utf8, encode_scalar, char_is_scalar};

verus! {

/// `String::push`: appends `c` at the end of `s`.
#[verifier::external_body]
pub fn push_char(s: &mut String, c: char)
    ensures
        final(s)@ == old(s)@.push(c),
{
    s.push(c);
}

/// The characters `s[a..b]` as a string.
pub fn chars_to_string(s: &Vec<char>, a: usize, b: usize) -> (r: String)
    requires
        a <= b <= s.len(),
    ensures
        r@ == s@.subrange(a as int, b as int),
{
    let mut r = String::new();
    let mut k = a;
    while k < b
        invariant
            a <= k <= b <= s.len(),
            r@ == s@.subrange(a as int, k as int),
        decreases b - k,
    {
        push_char(&mut r, s[k]);
        assert(s@.subrange(a as int, k + 1) =~= s@.subrange(a as int, k as int).push(s@[k as int]));
        k = k + 1;
    }
    r
}

/// The characters of `s`.
pub fn str_chars(s: &str) -> (r: Vec<char>)
    ensures
        r@ == s@,
{
    let mut r: Vec<char> = Vec::new();
    for c in it: s.chars()
        invariant
            r@ == it.seq().take(it.index() as int),
            it.seq() == s@,
    {
        r.push(c);
    }
    r
}


/// Byte offset of character `i` of `s` in its UTF-8 encoding.
pub open spec fn byte_pos(s: Seq<char>, i: int) -> int {
    encode_utf8(s.take(i)).len() as int
}

pub proof fn lemma_encode_utf8_push(a: Seq<char>, c: char)
    ensures
        encode_utf8(a.push(c)) == encode_utf8(a) + encode_scalar(c as u32),
    decreases a.len(),
{
    if a.len() == 0 {
        assert(a.push(c).drop_first() =~= Seq::<char>::empty());
        assert(encode_utf8(Seq::<char>::empty()) =~= Seq::<u8>::empty());
        assert(encode_utf8(a) =~= Seq::<u8>::empty());
        assert(encode_utf8(a.push(c)) =~= encode_scalar(c as u32) + Seq::<u8>::empty());
    } else {
        assert(a.push(c).drop_first() =~= a.drop_first().push(c));
        lemma_encode_utf8_push(a.drop_first(), c);
        assert(encode_utf8(a.push(c)) =~= encode_scalar(a[0] as u32) + encode_utf8(a.drop_first().push(c)));
    }
}

pub proof fn lemma_byte_pos_step(s: Seq<char>, i: int)
    requires
        0 <= i < s.len(),
    ensures
        byte_pos(s, i + 1) == byte_pos(s, i) + encode_scalar(s[i] as u32).len(),
{
    assert(s.take(i + 1) =~= s.take(i).push(s[i]));
    lemma_encode_utf8_push(s.take(i), s[i]);
}

pub proof fn lemma_byte_pos_mono(s: Seq<char>, i: int, j: int)
    requires
        0 <= i <= j <= s.len(),
    ensures
        byte_pos(s, i) <= byte_pos(s, j),
    decreases j - i,
{
    if i < j {
        lemma_byte_pos_step(s, j - 1);
        lemma_byte_pos_mono(s, i, j - 1);
    }
}

/// Number of bytes of the UTF-8 encoding of `c`.
pub fn utf8_width(c: char) -> (w: usize)
    ensures
        w == encode_scalar(c as u32).len(),
        1 <= w <= 4,
{
    proof {
        char_is_scalar(c);
    }
    let u = c as u32;
    if u <= 0x7F {
        1
    } else if u <= 0x7FF {
        2
    } else if u <= 0xFFFF {
        3
    } else {
        4
    }
}

// ----- Decimal numbers -----

/// The character of decimal digit `d`.
pub open spec fn digit_char(d: int) -> char {
    if d == 0 { '0' }
    else if d == 1 { '1' }
    else if d == 2 { '2' }
    else if d == 3 { '3' }
    else if d == 4 { '4' }
    else if d == 5 { '5' }
    else if d == 6 { '6' }
    else if d == 7 { '7' }
    else if d == 8 { '8' }
    else { '9' }
}

/// The decimal writing of `n`, without leading zeros.
pub open spec fn decimal(n: nat) -> Seq<char>
    decreases n,
{
    if n < 10 {
        seq![digit_char(n as int)]
    } else {
        decimal(n / 10).push(digit_char((n % 10) as int))
    }
}

proof fn lemma_decimal_len(n: nat)
    ensures
        decimal(n).len() >= 1,
        n >= 10 ==> decimal(n).len() >= 2,
    decreases n,
{
    if n >= 10 {
        lemma_decimal_len(n / 10);
    }
}

proof fn lemma_digit_char_injective(x: int, y: int)
    requires
        0 <= x < 10,
        0 <= y < 10,
        digit_char(x) == digit_char(y),
    ensures
        x == y,
{
}

/// Different numbers are written differently.
pub proof fn lemma_decimal_injective(a: nat, b: nat)
    requires
        decimal(a) == decimal(b),
    ensures
        a == b,
    decreases a,
{
    lemma_decimal_len(a);
    lemma_decimal_len(b);
    if a < 10 && b < 10 {
        assert(decimal(a)[0] == digit_char(a as int));
        assert(decimal(b)[0] == digit_char(b as int));
        lemma_digit_char_injective(a as int, b as int);
    } else if a >= 10 && b >= 10 {
        assert(decimal(a).last() == digit_char((a % 10) as int));
        assert(decimal(b).last() == digit_char((b % 10) as int));
        lemma_digit_char_injective((a % 10) as int, (b % 10) as int);
        assert(decimal(a).drop_last() =~= decimal(a / 10));
        assert(decimal(b).drop_last() =~= decimal(b / 10));
        lemma_decimal_injective(a / 10, b / 10);
        assert(a == 10 * (a / 10) + a % 10);
        assert(b == 10 * (b / 10) + b % 10);
    }
}

/// The decimal writing of `v`, with a `-` in front when it is negative.
pub open spec fn signed_decimal(v: int) -> Seq<char> {
    if v < 0 {
        seq!['-'] + decimal((-v) as nat)
    } else {
        decimal(v as nat)
    }
}

/// The character of decimal digit `d`.
pub fn digit_char_exec(d: usize) -> (c: char)
    requires
        d < 10,
    ensures
        c == digit_char(d as int),
{
    if d == 0 { '0' }
    else if d == 1 { '1' }
    else if d == 2 { '2' }
    else if d == 3 { '3' }
    else if d == 4 { '4' }
    else if d == 5 { '5' }
    else if d == 6 { '6' }
    else if d == 7 { '7' }
    else if d == 8 { '8' }
    else { '9' }
}

/// Appends the decimal writing of `n` to `s`.
pub fn push_decimal(s: &mut String, n: usize)
    ensures
        final(s)@ == old(s)@ + decimal(n as nat),
    decreases n,
{
    if n < 10 {
        push_char(s, digit_char_exec(n));
        assert(decimal(n as nat) == seq![digit_char(n as int)]);
        assert(old(s)@.push(digit_char(n as int)) =~= old(s)@ + seq![digit_char(n as int)]);
    } else {
        push_decimal(s, n / 10);
        push_char(s, digit_char_exec(n % 10));
        assert(old(s)@ + decimal(n as nat) =~= (old(s)@ + decimal((n / 10) as nat)).push(digit_char((n % 10) as int)));
    }
}

/// Appends the decimal writing of `v` to `s`, with its sign.
pub fn push_signed_decimal(s: &mut String, v: i32)
    ensures
        final(s)@ == old(s)@ + signed_decimal(v as int),
{
    if v < 0 {
        push_char(s, '-');
        let m: i64 = 0i64 - (v as i64);
        push_decimal(s, m as usize);
        assert(old(s)@ + signed_decimal(v as int) =~= old(s)@.push('-') + decimal((-v) as nat));
    } else {
        push_decimal(s, v as usize);
    }
}

/// The decimal writing of `n` as a string.
pub fn decimal_string(n: usize) -> (r: String)
    ensures
        r@ == decimal(n as nat),
{
    let mut r = String::new();
    push_decimal(&mut r, n);
    assert(Seq::<char>::empty() + decimal(n as nat) =~= decimal(n as nat));
    r
}

// ----- Positions in a source text -----

/// Line (from 1) and the byte offset where it starts, at byte position `pos`,
/// as counted over the first `k` characters of `s`: every newline that lies
/// before `pos` opens a line.
pub open spec fn line_info(s: Seq<char>, k: int, pos: int) -> (int, int)
    decreases k,
{
    if k <= 0 || k > s.len() {
        (1, 0)
    } else {
        let prev = line_info(s, k - 1, pos);
        if s[k - 1] == '\n' && byte_pos(s, k - 1) < pos {
            (prev.0 + 1, byte_pos(s, k - 1) + 1)
        } else {
            prev
        }
    }
}

/// Line and column (both from 1) of byte position `pos` in `s`; the column
/// counts bytes from the start of the line.
pub open spec fn position_of(s: Seq<char>, pos: int) -> (int, int) {
    let li = line_info(s, s.len() as int, pos);
    (li.0, pos - li.1 + 1)
}

pub proof fn lemma_byte_pos_zero(s: Seq<char>)
    ensures
        byte_pos(s, 0) == 0,
{
    assert(s.take(0) =~= Seq::<char>::empty());
    assert(encode_utf8(Seq::<char>::empty()) =~= Seq::<u8>::empty());
}

/// Line and column of byte position `pos` in the text `s`.
pub fn position_info(s: &Vec<char>, pos: usize) -> (r: (usize, usize))
    requires
        byte_pos(s@, s@.len() as int) <= usize::MAX,
        pos < usize::MAX,
    ensures
        (r.0 as int, r.1 as int) == position_of(s@, pos as int),
        r.0 >= 1,
{
    let mut line: usize = 1;
    let mut st: usize = 0;
    let mut b: usize = 0;
    let mut k: usize = 0;
    proof { lemma_byte_pos_zero(s@); }
    while k < s.len()
        invariant
            k <= s.len(),
            b == byte_pos(s@, k as int),
            k <= b,
            (line as int, st as int) == line_info(s@, k as int, pos as int),
            st <= pos,
            1 <= line <= k + 1,
            byte_pos(s@, s@.len() as int) <= usize::MAX,
            pos < usize::MAX,
        decreases s.len() - k,
    {
        proof {
            lemma_byte_pos_step(s@, k as int);
            lemma_byte_pos_mono(s@, k + 1, s@.len() as int);
        }
        let c = s[k];
        if c == '\n' && b < pos {
            line = line + 1;
            st = b + 1;
        }
        b = b + utf8_width(c);
        k = k + 1;
    }
    (line, pos - st + 1)
}

/// Where line `n` (from 0) starts, searching from character `k`; -1 when the
/// text has too few lines.
pub open spec fn start_search(s: Seq<char>, k: int, n: int) -> int
    decreases s.len() - k,
{
    if n <= 0 {
        k
    } else if k < 0 || k >= s.len() {
        -1
    } else if s[k] == '\n' {
        start_search(s, k + 1, n - 1)
    } else {
        start_search(s, k + 1, n)
    }
}

/// The end of the line that goes on at `k`: the next newline, or the end.
pub open spec fn line_end(s: Seq<char>, k: int) -> int
    decreases s.len() - k,
{
    if k < 0 || k >= s.len() || s[k] == '\n' {
        k
    } else {
        line_end(s, k + 1)
    }
}

/// Line `n` (from 0) of `s` as `str::lines` gives it: without its newline,
/// and without the `\r` of a `\r\n` ending; `None` past the last line.
pub open spec fn nth_line(s: Seq<char>, n: int) -> Option<Seq<char>> {
    let st = start_search(s, 0, n);
    if 0 <= st < s.len() {
        let e = line_end(s, st);
        if e < s.len() && e > st && s[e - 1] == '\r' {
            Some(s.subrange(st, e - 1))
        } else {
            Some(s.subrange(st, e))
        }
    } else {
        None
    }
}

/// Line `n` (from 0) of the text `s`.
pub fn get_nth_line(s: &Vec<char>, n: usize) -> (r: Option<String>)
    ensures
        match r {
            Some(t) => nth_line(s@, n as int) == Some(t@),
            None => nth_line(s@, n as int) is None,
        },
{
    let mut k: usize = 0;
    let mut m: usize = n;
    while m > 0 && k < s.len()
        invariant
            k <= s.len(),
            start_search(s@, k as int, m as int) == start_search(s@, 0, n as int),
        decreases s.len() - k,
    {
        if s[k] == '\n' {
            m = m - 1;
        }
        k = k + 1;
    }
    if m > 0 || k >= s.len() {
        return None;
    }
    let st = k;
    let mut e = st;
    while e < s.len() && s[e] != '\n'
        invariant
            st <= e <= s.len(),
            line_end(s@, e as int) == line_end(s@, st as int),
        decreases s.len() - e,
    {
        e = e + 1;
    }
    if e < s.len() && e > st && s[e - 1] == '\r' {
        Some(chars_to_string(s, st, e - 1))
    } else {
        Some(chars_to_string(s, st, e))
    }
}

// ----- Joining and searching -----

/// The texts of `v` with `sep` between each two.
pub open spec fn join(v: Seq<Seq<char>>, sep: Seq<char>) -> Seq<char>
    decreases v.len(),
{
    if v.len() == 0 {
        Seq::empty()
    } else if v.len() == 1 {
        v[0]
    } else {
        join(v.drop_last(), sep) + sep + v.last()
    }
}

/// The texts of `v` joined by `sep`.
pub fn join_strings(v: &Vec<String>, sep: &str) -> (r: String)
    ensures
        r@ == join(v@.map_values(|s: String| s@), sep@),
{
    let ghost w = v@.map_values(|s: String| s@);
    let mut r = String::new();
    let mut i: usize = 0;
    assert(w.take(0) =~= Seq::<Seq<char>>::empty());
    while i < v.len()
        invariant
            i <= v@.len(),
            w == v@.map_values(|s: String| s@),
            r@ == join(w.take(i as int), sep@),
        decreases v@.len() - i,
    {
        if i > 0 {
            r.append(sep);
        }
        r.append(v[i].as_str());
        proof {
            let t = w.take(i + 1);
            assert(t.drop_last() =~= w.take(i as int));
            if i == 0 {
                assert(t.len() == 1);
                assert(r@ =~= t[0]);
            }
        }
        i = i + 1;
    }
    assert(w.take(v@.len() as int) =~= w);
    r
}

/// Does `needle` occur in `hay`?
pub open spec fn occurs_in(hay: Seq<char>, needle: Seq<char>) -> bool {
    exists|i: int| 0 <= i && i + needle.len() <= hay.len() && #[trigger] hay.subrange(i, i + needle.len()) == needle
}

/// Does `needle` occur in `hay`?
pub fn contains_text(hay: &str, needle: &str) -> (r: bool)
    ensures
        r == occurs_in(hay@, needle@),
{
    let h = str_chars(hay);
    let n = str_chars(needle);
    if n.len() == 0 {
        assert(hay@.subrange(0int, 0int + needle@.len()) =~= needle@);
        return true;
    }
    if n.len() > h.len() {
        return false;
    }
    let last = h.len() - n.len();
    let mut i: usize = 0;
    while i <= last
        invariant
            h@ == hay@,
            n@ == needle@,
            1 <= n.len() <= h.len(),
            last == h.len() - n.len(),
            i <= last + 1,
            forall|k: int| 0 <= k < i ==> #[trigger] h@.subrange(k, k + n@.len()) != n@,
        decreases last + 1 - i,
    {
        let mut j: usize = 0;
        let mut same = true;
        assert(h@.subrange(i as int, i as int) =~= n@.take(0));
        while j < n.len()
            invariant
                h@ == hay@,
                n@ == needle@,
                i + n.len() <= h.len(),
                j <= n.len(),
                same <==> (h@.subrange(i as int, i + j) =~= n@.take(j as int)),
            decreases n.len() - j,
        {
            assert(h@.subrange(i as int, i + j + 1) =~= h@.subrange(i as int, i + j).push(h@[i + j]));
            assert(n@.take(j + 1) =~= n@.take(j as int).push(n@[j as int]));
            if h[i + j] != n[j] {
                same = false;
                assert(h@.subrange(i as int, i + j + 1)[j as int] != n@.take(j + 1)[j as int]);
            }
            j = j + 1;
        }
        assert(n@.take(n@.len() as int) =~= n@);
        if same {
            assert(h@.subrange(i as int, i + n@.len()) == n@);
            return true;
        }
        i = i + 1;
    }
    assert forall|k: int| 0 <= k && k + needle@.len() <= hay@.len() implies #[trigger] hay@.subrange(k, k + needle@.len()) != needle@ by {
        assert(k < i);
    }
    false
}

/// `t` without the single quotes at its two ends.
pub open spec fn trim_quotes(t: Seq<char>) -> Seq<char>
    decreases t.len(),
{
    if t.len() > 0 && t[0] == '\'' {
        trim_quotes(t.drop_first())
    } else if t.len() > 0 && t.last() == '\'' {
        trim_quotes(t.drop_last())
    } else {
        t
    }
}

/// `t` without the single quotes at its two ends.
pub fn trim_quote_marks(t: &String) -> (r: String)
    ensures
        r@ == trim_quotes(t@),
{
    let cs = str_chars(t.as_str());
    let mut a: usize = 0;
    let mut b: usize = cs.len();
    assert(cs@.subrange(0, cs@.len() as int) =~= t@);
    while a < b && (cs[a] == '\'' || cs[b - 1] == '\'')
        invariant
            cs@ == t@,
            a <= b <= cs.len(),
            trim_quotes(cs@.subrange(a as int, b as int)) == trim_quotes(t@),
        decreases b - a,
    {
        let ghost cur = cs@.subrange(a as int, b as int);
        if cs[a] == '\'' {
            assert(cur.drop_first() =~= cs@.subrange(a + 1, b as int));
            a = a + 1;
        } else {
            assert(cur.drop_last() =~= cs@.subrange(a as int, b - 1));
            b = b - 1;
        }
    }
    chars_to_string(&cs, a, b)
}

} // verus!
