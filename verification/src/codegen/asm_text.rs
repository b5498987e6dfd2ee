//! Small texts of the assembly output: hexadecimal numbers, escaped strings,
//! numbers read back from temporary names, trimmed output.
use vstd::prelude::*;
use crate::lexer::patterns::{is_digit, all_digits};
use crate::lexer::lexeme::{digits_value, lemma_digits_value_nonneg, min_int};
use crate::text::{push_char, str_chars, chars_to_string};

verus! {

/// The character of hexadecimal digit `d` (lower case).
pub open spec fn hex_char(d: int) -> char {
    if d < 10 {
        crate::text::digit_char(d)
    } else if d == 10 {
        'a'
    } else if d == 11 {
        'b'
    } else if d == 12 {
        'c'
    } else if d == 13 {
        'd'
    } else if d == 14 {
        'e'
    } else {
        'f'
    }
}

/// The last `n` hexadecimal digits of `b`, most significant first.
pub open spec fn hex_digits(b: nat, n: nat) -> Seq<char>
    decreases n,
{
    if n == 0 {
        Seq::empty()
    } else {
        hex_digits(b / 16, (n - 1) as nat).push(hex_char((b % 16) as int))
    }
}

/// `b` in eight hexadecimal digits.
pub open spec fn hex8(b: u32) -> Seq<char> {
    hex_digits(b as nat, 8)
}

fn hex_digit(d: u32) -> (c: char)
    requires
        d < 16,
    ensures
        c == hex_char(d as int),
{
    if d < 10 {
        crate::text::digit_char_exec(d as usize)
    } else if d == 10 {
        'a'
    } else if d == 11 {
        'b'
    } else if d == 12 {
        'c'
    } else if d == 13 {
        'd'
    } else if d == 14 {
        'e'
    } else {
        'f'
    }
}

fn push_hex_digits(s: &mut String, b: u32, n: u32)
    ensures
        final(s)@ == old(s)@ + hex_digits(b as nat, n as nat),
    decreases n,
{
    if n == 0 {
        assert(old(s)@ + hex_digits(b as nat, 0) =~= old(s)@);
    } else {
        push_hex_digits(s, b / 16, n - 1);
        push_char(s, hex_digit(b % 16));
        assert(old(s)@ + hex_digits(b as nat, n as nat) =~= (old(s)@ + hex_digits((b / 16) as nat, (n - 1) as nat)).push(
            hex_char((b % 16) as int),
        ));
    }
}

/// Appends `b` in eight hexadecimal digits.
pub fn push_hex8(s: &mut String, b: u32)
    ensures
        final(s)@ == old(s)@ + hex8(b),
{
    push_hex_digits(s, b, 8);
}

/// How a character of a string constant is written in a `db` directive:
/// a line feed as the byte `10,`, a double quote escaped.
pub open spec fn escape_char(c: char) -> Seq<char> {
    if c == '\n' {
        seq!['1', '0', ',']
    } else if c == '"' {
        seq!['\\', '"']
    } else {
        seq![c]
    }
}

/// A string constant as a `db` directive writes it.
pub open spec fn escape_text(t: Seq<char>) -> Seq<char>
    decreases t.len(),
{
    if t.len() == 0 {
        Seq::empty()
    } else {
        escape_text(t.drop_last()) + escape_char(t.last())
    }
}

/// Appends `t` as a `db` directive writes it.
pub fn push_escaped(s: &mut String, t: &String)
    ensures
        final(s)@ == old(s)@ + escape_text(t@),
{
    let cs = str_chars(t.as_str());
    let mut i: usize = 0;
    assert(cs@.take(0) =~= Seq::<char>::empty());
    assert(old(s)@ + escape_text(Seq::<char>::empty()) =~= old(s)@);
    while i < cs.len()
        invariant
            i <= cs@.len(),
            cs@ == t@,
            s@ == old(s)@ + escape_text(cs@.take(i as int)),
        decreases cs@.len() - i,
    {
        let c = cs[i];
        let ghost before = s@;
        if c == '\n' {
            push_char(s, '1');
            push_char(s, '0');
            push_char(s, ',');
        } else if c == '"' {
            push_char(s, '\\');
            push_char(s, '"');
        } else {
            push_char(s, c);
        }
        assert(cs@.take(i + 1).drop_last() =~= cs@.take(i as int));
        assert(s@ =~= before + escape_char(c));
        assert(old(s)@ + escape_text(cs@.take(i + 1)) =~= (old(s)@ + escape_text(cs@.take(i as int))) + escape_char(c));
        i = i + 1;
    }
    assert(cs@.take(cs@.len() as int) =~= cs@);
}

/// The `i32` that `str::parse` reads from `t`: an optional sign, then one
/// or more decimal digits, within range.
pub open spec fn parse_i32_text(t: Seq<char>) -> Option<i32> {
    let neg = t.len() > 0 && t[0] == '-';
    let d = if t.len() > 0 && (t[0] == '-' || t[0] == '+') { t.skip(1) } else { t };
    if d.len() == 0 || !all_digits(d) {
        None
    } else {
        let v = if neg { -digits_value(d) } else { digits_value(d) };
        if i32::MIN <= v <= i32::MAX {
            Some(v as i32)
        } else {
            None
        }
    }
}

/// Reads an `i32` from `t` as `str::parse` does.
pub fn parse_i32(t: &Vec<char>, from: usize) -> (r: Option<i32>)
    requires
        from <= t.len(),
    ensures
        r == parse_i32_text(t@.skip(from as int)),
{
    let ghost w = t@.skip(from as int);
    let mut k = from;
    let mut neg = false;
    if k < t.len() && (t[k] == '-' || t[k] == '+') {
        neg = t[k] == '-';
        k = k + 1;
    }
    let ghost d = t@.skip(k as int);
    proof {
        if from < t.len() {
            assert(w[0] == t@[from as int]);
        }
        if w.len() > 0 && (w[0] == '-' || w[0] == '+') {
            assert(w.skip(1) =~= d);
        } else {
            assert(w =~= d);
        }
    }
    if k >= t.len() {
        assert(d.len() == 0);
        return None;
    }
    let cap: i64 = 2147483649;
    let mut v: i64 = 0;
    let mut j = k;
    while j < t.len()
        invariant
            k <= j <= t.len(),
            d == t@.skip(k as int),
            w == t@.skip(from as int),
            d == (if w.len() > 0 && (w[0] == '-' || w[0] == '+') { w.skip(1) } else { w }),
            neg == (w.len() > 0 && w[0] == '-'),
            cap == 2147483649,
            all_digits(t@.subrange(k as int, j as int)),
            v == min_int(digits_value(t@.subrange(k as int, j as int)), cap as int),
        decreases t.len() - j,
    {
        let c = t[j];
        if !('0' <= c && c <= '9') {
            proof {
                assert(d[j - k] == c);
                assert(!all_digits(d));
            }
            return None;
        }
        let dg = (c as u32 - '0' as u32) as i64;
        proof {
            let pre = t@.subrange(k as int, j as int);
            let nxt = t@.subrange(k as int, j + 1);
            assert(nxt.drop_last() =~= pre);
            assert(nxt.last() == c);
            lemma_digits_value_nonneg(pre);
            assert forall|q: int| 0 <= q < nxt.len() implies is_digit(#[trigger] nxt[q]) by {
                if q < pre.len() {
                    assert(nxt[q] == pre[q]);
                }
            }
        }
        if v >= cap {
            v = cap;
        } else {
            let n = v * 10 + dg;
            v = if n > cap { cap } else { n };
        }
        j = j + 1;
    }
    assert(t@.subrange(k as int, t@.len() as int) =~= d);
    proof {
        lemma_digits_value_nonneg(d);
    }
    if neg {
        if v <= 2147483648 {
            Some((0 - v) as i32)
        } else {
            None
        }
    } else {
        if v <= 2147483647 {
            Some(v as i32)
        } else {
            None
        }
    }
}

/// Is `c` white space, as `char::is_whitespace` says (Unicode `White_Space`)?
pub open spec fn is_white(c: char) -> bool {
    let u = c as u32;
    (0x9 <= u && u <= 0xD) || u == 0x20 || u == 0x85 || u == 0xA0 || u == 0x1680 || (0x2000 <= u && u <= 0x200A)
        || u == 0x2028 || u == 0x2029 || u == 0x202F || u == 0x205F || u == 0x3000
}

fn is_white_exec(c: char) -> (r: bool)
    ensures
        r == is_white(c),
{
    let u = c as u32;
    (0x9 <= u && u <= 0xD) || u == 0x20 || u == 0x85 || u == 0xA0 || u == 0x1680 || (0x2000 <= u && u <= 0x200A)
        || u == 0x2028 || u == 0x2029 || u == 0x202F || u == 0x205F || u == 0x3000
}

/// `t` without the white space at its two ends, as `str::trim` gives it.
pub open spec fn trim_text(t: Seq<char>) -> Seq<char>
    decreases t.len(),
{
    if t.len() > 0 && is_white(t[0]) {
        trim_text(t.drop_first())
    } else if t.len() > 0 && is_white(t.last()) {
        trim_text(t.drop_last())
    } else {
        t
    }
}

/// `t` without the white space at its two ends.
#[verifier::rlimit(40)]
pub fn trim_string(t: &String) -> (r: String)
    ensures
        r@ == trim_text(t@),
{
    let cs = str_chars(t.as_str());
    let mut a: usize = 0;
    let mut b: usize = cs.len();
    assert(cs@.subrange(0, cs@.len() as int) =~= t@);
    while a < b && (is_white_exec(cs[a]) || is_white_exec(cs[b - 1]))
        invariant
            cs@ == t@,
            a <= b <= cs.len(),
            trim_text(cs@.subrange(a as int, b as int)) == trim_text(t@),
        decreases b - a,
    {
        let ghost cur = cs@.subrange(a as int, b as int);
        assert(cur[0] == cs@[a as int]);
        assert(cur.last() == cs@[b - 1]);
        if is_white_exec(cs[a]) {
            assert(cur.drop_first() =~= cs@.subrange(a + 1, b as int));
            a = a + 1;
        } else {
            assert(cur.drop_last() =~= cs@.subrange(a as int, b - 1));
            b = b - 1;
        }
    }
    chars_to_string(&cs, a, b)
}

} // verus!
