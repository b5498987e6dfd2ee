//! Line and column of byte positions in a source text.
use vstd::prelude::*;
use std::ops::Range;
use crate::text::{byte_pos, lemma_byte_pos_step, lemma_byte_pos_mono, lemma_byte_pos_zero, utf8_width, str_chars, line_info, position_of};

verus! {

/// The byte offsets at which the lines of the source start.
pub struct SourceMap {
    line_starts: Vec<usize>,
}

/// Where the lines start, as counted over the first `k` characters of `s`:
/// the first line at 0, and one more after each newline.
pub open spec fn starts_upto(s: Seq<char>, k: int) -> Seq<int>
    decreases k,
{
    if k <= 0 || k > s.len() {
        seq![0]
    } else {
        let prev = starts_upto(s, k - 1);
        if s[k - 1] == '\n' {
            prev.push(byte_pos(s, k - 1) + 1)
        } else {
            prev
        }
    }
}

/// Where the lines of `s` start.
pub open spec fn line_starts_of(s: Seq<char>) -> Seq<int> {
    starts_upto(s, s.len() as int)
}

/// How many of `starts` are at or before `pos`.
pub open spec fn count_at_or_before(starts: Seq<int>, pos: int) -> int
    decreases starts.len(),
{
    if starts.len() == 0 {
        0
    } else {
        count_at_or_before(starts.drop_last(), pos) + if starts.last() <= pos { 1int } else { 0int }
    }
}

/// The line (from 1) of byte position `pos`, given where the lines start.
pub open spec fn line_at(starts: Seq<int>, pos: int) -> int {
    count_at_or_before(starts, pos)
}

/// The column (from 1) of byte position `pos`, given where the lines start.
pub open spec fn column_at(starts: Seq<int>, pos: int) -> int {
    pos - starts[line_at(starts, pos) - 1] + 1
}

pub open spec fn increasing(v: Seq<int>) -> bool {
    forall|i: int, j: int| 0 <= i < j < v.len() ==> v[i] < v[j]
}

/// The starts of lines counted over a prefix begin at 0, increase, and lie
/// no further than that prefix.
pub proof fn lemma_starts_upto(s: Seq<char>, k: int)
    requires
        0 <= k <= s.len(),
    ensures
        starts_upto(s, k).len() >= 1,
        starts_upto(s, k)[0] == 0,
        increasing(starts_upto(s, k)),
        forall|i: int| 0 <= i < starts_upto(s, k).len() ==> #[trigger] starts_upto(s, k)[i] <= byte_pos(s, k),
    decreases k,
{
    if k == 0 {
        lemma_byte_pos_zero(s);
    } else {
        lemma_starts_upto(s, k - 1);
        lemma_byte_pos_step(s, k - 1);
    }
}

/// In an increasing sequence, the positions at or before `pos` are the first
/// `lo` ones when `lo` splits it there.
pub proof fn lemma_count_split(v: Seq<int>, pos: int, lo: int)
    requires
        increasing(v),
        0 <= lo <= v.len(),
        forall|i: int| 0 <= i < lo ==> #[trigger] v[i] <= pos,
        forall|i: int| lo <= i < v.len() ==> #[trigger] v[i] > pos,
    ensures
        count_at_or_before(v, pos) == lo,
    decreases v.len(),
{
    if v.len() > 0 {
        let w = v.drop_last();
        if lo == v.len() {
            lemma_count_split(w, pos, lo - 1);
        } else {
            lemma_count_split(w, pos, lo);
        }
    }
}

proof fn lemma_starts_split(s: Seq<char>, k: int, pos: int)
    requires
        0 <= k <= s.len(),
        0 <= pos,
    ensures
        ({
            let v = starts_upto(s, k);
            let li = line_info(s, k, pos);
            &&& 1 <= li.0 <= v.len()
            &&& v[li.0 - 1] == li.1
            &&& forall|i: int| 0 <= i < li.0 ==> #[trigger] v[i] <= pos
            &&& forall|i: int| li.0 <= i < v.len() ==> #[trigger] v[i] > pos
        }),
    decreases k,
{
    lemma_starts_upto(s, k);
    if k > 0 {
        lemma_starts_split(s, k - 1, pos);
        lemma_starts_upto(s, k - 1);
        let v = starts_upto(s, k - 1);
        let li = line_info(s, k - 1, pos);
        let b = byte_pos(s, k - 1);
        if s[k - 1] == '\n' && b < pos {
            if li.0 < v.len() {
                assert(v[li.0] <= b);
                assert(false);
            }
        }
    }
}

/// The line and column that a source map gives for a byte position are
/// those counted directly over the source text.
pub proof fn lemma_source_map_matches_text(s: Seq<char>, pos: int)
    requires
        0 <= pos,
    ensures
        line_at(line_starts_of(s), pos) == position_of(s, pos).0,
        column_at(line_starts_of(s), pos) == position_of(s, pos).1,
{
    let k = s.len() as int;
    lemma_starts_split(s, k, pos);
    lemma_starts_upto(s, k);
    lemma_count_split(starts_upto(s, k), pos, line_info(s, k, pos).0);
}

/// The number of newline characters in `s`.
pub open spec fn newline_count(s: Seq<char>) -> int
    decreases s.len(),
{
    if s.len() == 0 {
        0
    } else {
        newline_count(s.drop_last()) + if s.last() == '\n' { 1int } else { 0int }
    }
}

/// Is `pos` the byte right after a newline of `s`?
pub open spec fn after_newline(s: Seq<char>, pos: int) -> bool {
    exists|k: int| 0 <= k < s.len() && s[k] == '\n' && #[trigger] byte_pos(s, k) + 1 == pos
}

proof fn lemma_starts_len(s: Seq<char>, k: int)
    requires
        0 <= k <= s.len(),
    ensures
        starts_upto(s, k).len() == 1 + newline_count(s.take(k)),
    decreases k,
{
    if k > 0 {
        lemma_starts_len(s, k - 1);
        assert(s.take(k).drop_last() =~= s.take(k - 1));
    } else {
        assert(s.take(0) =~= Seq::<char>::empty());
    }
}

proof fn lemma_starts_contains(s: Seq<char>, k: int, pos: int)
    requires
        0 <= k <= s.len(),
    ensures
        starts_upto(s, k).contains(pos) <==> (pos == 0 || exists|j: int|
            0 <= j < k && s[j] == '\n' && #[trigger] byte_pos(s, j) + 1 == pos),
    decreases k,
{
    if k == 0 {
        assert(starts_upto(s, 0)[0] == 0);
    } else {
        lemma_starts_contains(s, k - 1, pos);
        let prev = starts_upto(s, k - 1);
        let b = byte_pos(s, k - 1);
        if s[k - 1] == '\n' {
            let v = prev.push(b + 1);
            if v.contains(pos) {
                let i = choose|i: int| 0 <= i < v.len() && v[i] == pos;
                if i < prev.len() {
                    assert(prev[i] == pos);
                } else {
                    assert(byte_pos(s, k - 1) + 1 == pos);
                }
            }
            if pos == 0 || exists|j: int| 0 <= j < k && s[j] == '\n' && #[trigger] byte_pos(s, j) + 1 == pos {
                if pos == 0 {
                    assert(prev.contains(0));
                    let i = choose|i: int| 0 <= i < prev.len() && prev[i] == 0;
                    assert(v[i] == 0);
                } else {
                    let j = choose|j: int| 0 <= j < k && s[j] == '\n' && #[trigger] byte_pos(s, j) + 1 == pos;
                    if j < k - 1 {
                        assert(prev.contains(pos));
                        let i = choose|i: int| 0 <= i < prev.len() && prev[i] == pos;
                        assert(v[i] == pos);
                    } else {
                        assert(v[prev.len() as int] == pos);
                    }
                }
            }
        } else {
            if exists|j: int| 0 <= j < k && s[j] == '\n' && #[trigger] byte_pos(s, j) + 1 == pos {
                let j = choose|j: int| 0 <= j < k && s[j] == '\n' && #[trigger] byte_pos(s, j) + 1 == pos;
                assert(j < k - 1);
            }
        }
    }
}

/// Every position is on a line from 1 to one more than the number of
/// newlines of the text, at a column of at least 1; the end of the text is
/// on the last line.
pub proof fn lemma_position_bounds(s: Seq<char>, pos: int)
    requires
        0 <= pos,
    ensures
        1 <= line_at(line_starts_of(s), pos) <= 1 + newline_count(s),
        column_at(line_starts_of(s), pos) >= 1,
        line_at(line_starts_of(s), byte_pos(s, s.len() as int)) == 1 + newline_count(s),
{
    let k = s.len() as int;
    let v = starts_upto(s, k);
    lemma_starts_split(s, k, pos);
    lemma_starts_upto(s, k);
    lemma_count_split(v, pos, line_info(s, k, pos).0);
    lemma_starts_len(s, k);
    assert(s.take(k) =~= s);
    lemma_count_split(v, byte_pos(s, k), v.len() as int);
}

/// The line never goes back as the position grows.
pub proof fn lemma_line_monotone(s: Seq<char>, p: int, q: int)
    requires
        0 <= p <= q,
    ensures
        line_at(line_starts_of(s), p) <= line_at(line_starts_of(s), q),
{
    let k = s.len() as int;
    let v = starts_upto(s, k);
    lemma_starts_split(s, k, p);
    lemma_starts_split(s, k, q);
    lemma_starts_upto(s, k);
    let lp = line_info(s, k, p).0;
    let lq = line_info(s, k, q).0;
    lemma_count_split(v, p, lp);
    lemma_count_split(v, q, lq);
    if lp > lq {
        assert(v[lq] <= p);
        assert(v[lq] > q);
    }
}

/// The column is 1 exactly where a line starts: at the start of the text
/// and right after a newline.
pub proof fn lemma_column_one(s: Seq<char>, pos: int)
    requires
        0 <= pos,
    ensures
        column_at(line_starts_of(s), pos) == 1 <==> (pos == 0 || after_newline(s, pos)),
{
    let k = s.len() as int;
    let v = starts_upto(s, k);
    lemma_starts_split(s, k, pos);
    lemma_starts_upto(s, k);
    let l = line_info(s, k, pos).0;
    lemma_count_split(v, pos, l);
    lemma_starts_contains(s, k, pos);
    if v.contains(pos) {
        let i = choose|i: int| 0 <= i < v.len() && v[i] == pos;
        if i < l - 1 {
            assert(v[i] < v[l - 1]);
        }
        if i >= l {
            assert(v[i] > pos);
        }
    }
    if column_at(v, pos) == 1 {
        assert(v[l - 1] == pos);
    }
}

/// Within a line, the next byte is on the same line, one column further.
pub proof fn lemma_column_step(s: Seq<char>, pos: int)
    requires
        1 <= pos,
        !after_newline(s, pos),
    ensures
        line_at(line_starts_of(s), pos) == line_at(line_starts_of(s), pos - 1),
        column_at(line_starts_of(s), pos) == column_at(line_starts_of(s), pos - 1) + 1,
{
    let k = s.len() as int;
    let v = starts_upto(s, k);
    lemma_starts_split(s, k, pos);
    lemma_starts_split(s, k, pos - 1);
    lemma_starts_upto(s, k);
    let lp = line_info(s, k, pos).0;
    let lm = line_info(s, k, pos - 1).0;
    lemma_count_split(v, pos, lp);
    lemma_count_split(v, pos - 1, lm);
    lemma_starts_contains(s, k, pos);
    if lp > lm {
        assert(v[lm] <= pos);
        assert(v[lm] > pos - 1);
        assert(v.contains(pos));
    }
    if lp < lm {
        assert(v[lp] <= pos - 1);
        assert(v[lp] > pos);
    }
}

impl SourceMap {
    /// Where the lines start.
    pub closed spec fn starts(&self) -> Seq<int> {
        self.line_starts@.map_values(|x: usize| x as int)
    }

    #[verifier::type_invariant]
    spec fn well_formed(&self) -> bool {
        &&& self.starts().len() >= 1
        &&& self.starts()[0] == 0
        &&& increasing(self.starts())
    }


    /// The map of `source`.
    pub fn new(source: &String) -> (r: Self)
        ensures
            r.starts() == line_starts_of(source@),
    {
        let line_starts = Self::compute_line_starts(source.as_str());
        proof {
            lemma_starts_upto(source@, source@.len() as int);
        }
        SourceMap { line_starts }
    }

    /// Line and column (both from 1) of the first byte of `span`: the line
    /// is the number of line starts at or before it, the column counts bytes
    /// from the start of that line.
    pub fn get_line_column(&self, span: &Range<usize>) -> (r: (usize, usize))
        requires
            span.start < usize::MAX,
        ensures
            r.0 as int == line_at(self.starts(), span.start as int),
            r.1 as int == column_at(self.starts(), span.start as int),
            r.0 >= 1,
    {
        proof {
            use_type_invariant(self);
        }
        let pos = span.start;
        let ghost v = self.starts();
        let mut lo: usize = 0;
        let mut hi: usize = self.line_starts.len();
        while lo < hi
            invariant
                v == self.starts(),
                v.len() == self.line_starts@.len(),
                increasing(v),
                0 <= lo <= hi <= v.len(),
                forall|i: int| 0 <= i < lo ==> #[trigger] v[i] <= pos,
                forall|i: int| hi <= i < v.len() ==> #[trigger] v[i] > pos,
            decreases hi - lo,
        {
            let mid = lo + (hi - lo) / 2;
            assert(v[mid as int] == self.line_starts@[mid as int]);
            if self.line_starts[mid] <= pos {
                lo = mid + 1;
            } else {
                hi = mid;
            }
        }
        proof {
            lemma_count_split(v, pos as int, lo as int);
        }
        assert(v[0] <= pos);
        let idx = lo - 1;
        assert(v[idx as int] == self.line_starts@[idx as int]);
        (lo, pos - self.line_starts[idx] + 1)
    }

    /// The line (from 1) of the first byte of `span`.
    pub fn get_line(&self, span: &Range<usize>) -> (r: usize)
        requires
            span.start < usize::MAX,
        ensures
            r as int == line_at(self.starts(), span.start as int),
    {
        let (line, _) = self.get_line_column(span);
        line
    }

    /// The column (from 1) of the first byte of `span`.
    pub fn get_column(&self, span: &Range<usize>) -> (r: usize)
        requires
            span.start < usize::MAX,
        ensures
            r as int == column_at(self.starts(), span.start as int),
    {
        let (_, column) = self.get_line_column(span);
        column
    }

    /// Where the lines of `source` start: at 0, and after each newline.
    fn compute_line_starts(source: &str) -> (r: Vec<usize>)
        ensures
            r@.map_values(|x: usize| x as int) == line_starts_of(source@),
    {
        let s = str_chars(source);
        let bytes = source.as_bytes();
        let total = bytes.len();
        proof {
            assert(s@.take(s@.len() as int) =~= s@);
            lemma_byte_pos_zero(s@);
        }
        let mut starts: Vec<usize> = vec![0];
        let mut b: usize = 0;
        let mut k: usize = 0;
        assert(starts@.map_values(|x: usize| x as int) =~= seq![0int]);
        while k < s.len()
            invariant
                k <= s.len(),
                s@ == source@,
                b == byte_pos(s@, k as int),
                byte_pos(s@, s@.len() as int) == total,
                starts@.map_values(|x: usize| x as int) == starts_upto(s@, k as int),
            decreases s.len() - k,
        {
            proof {
                lemma_byte_pos_step(s@, k as int);
                lemma_byte_pos_mono(s@, k + 1, s@.len() as int);
            }
            let c = s[k];
            if c == '\n' {
                let ghost old_s = starts@;
                starts.push(b + 1);
                assert(starts@.map_values(|x: usize| x as int) =~= old_s.map_values(|x: usize| x as int).push(b + 1));
            }
            b = b + utf8_width(c);
            k = k + 1;
        }
        starts
    }
}

} // verus!
