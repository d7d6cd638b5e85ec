//! Character-sequence helpers shared by the attribution engine: ASCII
//! case folding, substring and prefix tests, trimming, and line
//! splitting, each tied to a spec-level account of the same operation.

use vstd::prelude::*;

verus! {

/// ASCII lowercase of one character; other characters are unchanged.
pub open spec fn lower_char(c: char) -> char {
    if 'A' <= c && c <= 'Z' {
        ((c as u8) + 32) as char
    } else {
        c
    }
}

/// ASCII lowercase of a whole character sequence.
pub open spec fn lower_seq(s: Seq<char>) -> Seq<char> {
    s.map_values(|c: char| lower_char(c))
}

/// `n` occurs in `h` starting at position `i`.
pub open spec fn matches_at(h: Seq<char>, n: Seq<char>, i: int) -> bool {
    0 <= i && i + n.len() <= h.len() && h.subrange(i, i + n.len() as int) == n
}

/// `n` occurs somewhere in `h`.
pub open spec fn contains_seq(h: Seq<char>, n: Seq<char>) -> bool {
    exists|i: int| matches_at(h, n, i)
}

/// `n` is a prefix of `h`.
pub open spec fn starts_with_seq(h: Seq<char>, n: Seq<char>) -> bool {
    n.len() <= h.len() && h.subrange(0, n.len() as int) == n
}

pub fn lower_char_ex(c: char) -> (r: char)
    ensures
        r == lower_char(c),
{
    if 'A' <= c && c <= 'Z' {
        ((c as u8) + 32) as char
    } else {
        c
    }
}

/// `n` occurs at position `i` of `h`, comparing ASCII-case-insensitively.
fn matches_at_ci(h: &str, n: &str, i: usize) -> (r: bool)
    requires
        i + n@.len() <= h@.len(),
    ensures
        r == matches_at(lower_seq(h@), lower_seq(n@), i as int),
{
    let h_len: usize = h.unicode_len();
    let n_len: usize = n.unicode_len();
    let mut j: usize = 0;
    while j < n_len
        invariant
            h_len == h@.len(),
            n_len == n@.len(),
            0 <= j <= n_len,
            i + n_len <= h_len,
            forall|k: int|
                0 <= k < j ==> lower_char(h@[i + k]) == lower_char(n@[k]),
        decreases n_len - j,
    {
        let hc = h.get_char(i + j);
        let nc = n.get_char(j);
        if lower_char_ex(hc) != lower_char_ex(nc) {
            assert(lower_seq(h@).subrange(i as int, i + n@.len()) != lower_seq(n@)) by {
                assert(lower_seq(h@).subrange(i as int, i + n@.len())[j as int]
                    == lower_char(h@[i + j]));
                assert(lower_seq(n@)[j as int] == lower_char(n@[j as int]));
            }
            return false;
        }
        j = j + 1;
    }
    assert(lower_seq(h@).subrange(i as int, i + n@.len() as int) =~= lower_seq(n@));
    true
}

/// Case-insensitive substring test: does `h` contain `n`, ignoring ASCII
/// case?
pub fn contains_ci(h: &str, n: &str) -> (r: bool)
    ensures
        r == contains_seq(lower_seq(h@), lower_seq(n@)),
{
    let h_len: usize = h.unicode_len();
    let n_len: usize = n.unicode_len();
    if n_len > h_len {
        assert(forall|i: int| !matches_at(lower_seq(h@), lower_seq(n@), i));
        return false;
    }
    if n_len == 0 {
        assert(matches_at(lower_seq(h@), lower_seq(n@), 0)) by {
            assert(lower_seq(h@).subrange(0, 0) =~= lower_seq(n@));
        }
        return true;
    }
    let bound: usize = h_len - n_len;
    let mut i: usize = 0;
    while i <= bound
        invariant
            h_len == h@.len(),
            n_len == n@.len(),
            0 < n_len <= h_len,
            bound == h_len - n_len,
            0 <= i <= bound + 1,
            forall|k: int| 0 <= k < i ==> !matches_at(lower_seq(h@), lower_seq(n@), k),
        decreases bound + 1 - i,
    {
        if matches_at_ci(h, n, i) {
            return true;
        }
        i = i + 1;
    }
    assert(forall|k: int| !matches_at(lower_seq(h@), lower_seq(n@), k));
    false
}

/// Case-insensitive prefix test: does `h` start with `n`, ignoring ASCII
/// case?
pub fn starts_with_ci(h: &str, n: &str) -> (r: bool)
    ensures
        r == starts_with_seq(lower_seq(h@), lower_seq(n@)),
{
    let h_len: usize = h.unicode_len();
    let n_len: usize = n.unicode_len();
    if n_len > h_len {
        return false;
    }
    matches_at_ci(h, n, 0)
}

/// `n` occurs at position `i` of `h`, compared exactly.
fn matches_at_cs(h: &str, n: &str, i: usize) -> (r: bool)
    requires
        i + n@.len() <= h@.len(),
    ensures
        r == matches_at(h@, n@, i as int),
{
    let h_len: usize = h.unicode_len();
    let n_len: usize = n.unicode_len();
    let mut j: usize = 0;
    while j < n_len
        invariant
            h_len == h@.len(),
            n_len == n@.len(),
            0 <= j <= n_len,
            i + n_len <= h_len,
            forall|k: int| 0 <= k < j ==> h@[i + k] == n@[k],
        decreases n_len - j,
    {
        if h.get_char(i + j) != n.get_char(j) {
            assert(h@.subrange(i as int, i + n@.len() as int) != n@) by {
                assert(h@.subrange(i as int, i + n@.len() as int)[j as int] == h@[i + j]);
            }
            return false;
        }
        j = j + 1;
    }
    assert(h@.subrange(i as int, i + n@.len() as int) =~= n@);
    true
}

/// Exact prefix test.
pub fn starts_with(h: &str, n: &str) -> (r: bool)
    ensures
        r == starts_with_seq(h@, n@),
{
    let h_len: usize = h.unicode_len();
    let n_len: usize = n.unicode_len();
    if n_len > h_len {
        return false;
    }
    matches_at_cs(h, n, 0)
}

/// Exact string equality on character sequences.
pub fn eq_str(a: &str, b: &str) -> (r: bool)
    ensures
        r == (a@ == b@),
{
    let a_len: usize = a.unicode_len();
    let b_len: usize = b.unicode_len();
    if a_len != b_len {
        return false;
    }
    let r = matches_at_cs(a, b, 0);
    proof {
        assert(a@.subrange(0, b@.len() as int) =~= a@);
    }
    r
}

/// ASCII whitespace.
pub open spec fn is_ws(c: char) -> bool {
    c == ' ' || c == '\t' || c == '\n' || c == '\r'
}

pub fn is_ws_ex(c: char) -> (r: bool)
    ensures
        r == is_ws(c),
{
    c == ' ' || c == '\t' || c == '\n' || c == '\r'
}

/// The sequence without its longest all-whitespace prefix.
pub open spec fn trim_start_spec(s: Seq<char>) -> Seq<char>
    decreases s.len(),
{
    if s.len() > 0 && is_ws(s[0]) {
        trim_start_spec(s.drop_first())
    } else {
        s
    }
}

/// The sequence without its longest all-whitespace suffix.
pub open spec fn trim_end_spec(s: Seq<char>) -> Seq<char>
    decreases s.len(),
{
    if s.len() > 0 && is_ws(s.last()) {
        trim_end_spec(s.drop_last())
    } else {
        s
    }
}

/// The sequence without leading and trailing whitespace.
pub open spec fn trim_spec(s: Seq<char>) -> Seq<char> {
    trim_end_spec(trim_start_spec(s))
}

proof fn lemma_trim_start(s: Seq<char>, a: int)
    requires
        0 <= a <= s.len(),
        forall|k: int| 0 <= k < a ==> is_ws(s[k]),
        a == s.len() || !is_ws(s[a]),
    ensures
        trim_start_spec(s) == s.subrange(a, s.len() as int),
    decreases a,
{
    if a == 0 {
        assert(s.subrange(0, s.len() as int) =~= s);
    } else {
        let t = s.drop_first();
        assert(t =~= s.subrange(1, s.len() as int));
        lemma_trim_start(t, a - 1);
        assert(t.subrange(a - 1, t.len() as int) =~= s.subrange(a, s.len() as int));
    }
}

proof fn lemma_trim_end(s: Seq<char>, b: int)
    requires
        0 <= b <= s.len(),
        forall|k: int| b <= k < s.len() ==> is_ws(s[k]),
        b == 0 || !is_ws(s[b - 1]),
    ensures
        trim_end_spec(s) == s.subrange(0, b),
    decreases s.len() - b,
{
    if b == s.len() {
        assert(s.subrange(0, b) =~= s);
    } else {
        let t = s.drop_last();
        assert(t =~= s.subrange(0, s.len() - 1));
        lemma_trim_end(t, b);
        assert(t.subrange(0, b) =~= s.subrange(0, b));
    }
}

/// Copy of `s` without leading and trailing ASCII whitespace.
pub fn trim(s: &str) -> (r: String)
    ensures
        r@ == trim_spec(s@),
{
    let len: usize = s.unicode_len();
    let mut a: usize = 0;
    while a < len && is_ws_ex(s.get_char(a))
        invariant
            len == s@.len(),
            0 <= a <= len,
            forall|k: int| 0 <= k < a ==> is_ws(s@[k]),
        decreases len - a,
    {
        a = a + 1;
    }
    proof {
        lemma_trim_start(s@, a as int);
    }
    let mut b: usize = len;
    while b > a && is_ws_ex(s.get_char(b - 1))
        invariant
            len == s@.len(),
            a <= b <= len,
            forall|k: int| b <= k < len ==> is_ws(s@[k]),
        decreases b,
    {
        b = b - 1;
    }
    let ghost mid = s@.subrange(a as int, len as int);
    proof {
        assert(forall|k: int| b - a <= k < mid.len() ==> is_ws(mid[k]));
        lemma_trim_end(mid, b - a);
        assert(mid.subrange(0, b - a) =~= s@.subrange(a as int, b as int));
    }
    let piece = s.substring_char(a, b);
    piece.to_owned()
}

/// The line without one trailing carriage return, if it has one.
pub open spec fn strip_cr(l: Seq<char>) -> Seq<char> {
    if l.len() > 0 && l.last() == '\r' {
        l.drop_last()
    } else {
        l
    }
}

/// Splitting into lines at `'\n'`, each line stripped of one trailing
/// `'\r'`; the split of the empty sequence is one empty line.
pub open spec fn split_rec(s: Seq<char>, cur: Seq<char>) -> Seq<Seq<char>>
    decreases s.len(),
{
    if s.len() == 0 {
        seq![strip_cr(cur)]
    } else if s[0] == '\n' {
        seq![strip_cr(cur)] + split_rec(s.drop_first(), Seq::empty())
    } else {
        split_rec(s.drop_first(), cur.push(s[0]))
    }
}

pub open spec fn split_lines_spec(s: Seq<char>) -> Seq<Seq<char>> {
    split_rec(s, Seq::empty())
}

proof fn lemma_split_rec_acc(t: Seq<char>, cur: Seq<char>, m: int)
    requires
        0 <= m <= t.len(),
        forall|k: int| 0 <= k < m ==> t[k] != '\n',
        m == t.len() || t[m] == '\n',
    ensures
        split_rec(t, cur) == if m == t.len() {
            seq![strip_cr(cur + t)]
        } else {
            seq![strip_cr(cur + t.subrange(0, m))] + split_rec(
                t.subrange(m + 1, t.len() as int),
                Seq::empty(),
            )
        },
    decreases m,
{
    if m == 0 {
        if t.len() == 0 {
            assert(cur + t =~= cur);
        } else {
            assert(t[0] == '\n');
            assert(cur + t.subrange(0, 0) =~= cur);
            assert(t.drop_first() =~= t.subrange(1, t.len() as int));
        }
    } else {
        assert(t[0] != '\n');
        assert(t.len() > 0);
        let t2 = t.drop_first();
        let cur2 = cur.push(t[0]);
        lemma_split_rec_acc(t2, cur2, m - 1);
        if m == t.len() {
            assert(cur2 + t2 =~= cur + t);
        } else {
            assert(cur2 + t2.subrange(0, m - 1) =~= cur + t.subrange(0, m));
            assert(t2.subrange(m - 1 + 1, t2.len() as int) =~= t.subrange(
                m + 1,
                t.len() as int,
            ));
        }
    }
}

proof fn lemma_split_step(s: Seq<char>, a: int, b: int)
    requires
        0 <= a <= b <= s.len(),
        forall|k: int| a <= k < b ==> s[k] != '\n',
        b == s.len() || s[b] == '\n',
    ensures
        split_rec(s.subrange(a, s.len() as int), Seq::empty()) == if b == s.len() {
            seq![strip_cr(s.subrange(a, b))]
        } else {
            seq![strip_cr(s.subrange(a, b))] + split_rec(
                s.subrange(b + 1, s.len() as int),
                Seq::empty(),
            )
        },
{
    let t = s.subrange(a, s.len() as int);
    lemma_split_rec_acc(t, Seq::empty(), b - a);
    assert(Seq::empty() + t =~= t);
    if b == s.len() {
        assert(t =~= s.subrange(a, b));
    } else {
        assert(Seq::empty() + t.subrange(0, b - a) =~= s.subrange(a, b));
        assert(t.subrange(b - a + 1, t.len() as int) =~= s.subrange(b + 1, s.len() as int));
    }
}

/// Splits `s` into lines at `'\n'`, stripping one trailing `'\r'` from
/// each line.
pub fn split_lines(s: &str) -> (r: Vec<String>)
    ensures
        r@.map_values(|l: String| l@) == split_lines_spec(s@),
{
    let len: usize = s.unicode_len();
    let mut out: Vec<String> = Vec::new();
    let mut start: usize = 0;
    proof {
        assert(s@.subrange(0, len as int) =~= s@);
        assert(out@.map_values(|l: String| l@) + split_rec(s@, Seq::empty()) =~= split_rec(
            s@,
            Seq::empty(),
        ));
    }
    loop
        invariant_except_break
            len == s@.len(),
            0 <= start <= len,
            split_lines_spec(s@) == out@.map_values(|l: String| l@) + split_rec(
                s@.subrange(start as int, len as int),
                Seq::empty(),
            ),
        ensures
            out@.map_values(|l: String| l@) == split_lines_spec(s@),
        decreases len - start,
    {
        let mut j: usize = start;
        while j < len && s.get_char(j) != '\n'
            invariant
                len == s@.len(),
                start <= j <= len,
                forall|k: int| start <= k < j ==> s@[k] != '\n',
            decreases len - j,
        {
            j = j + 1;
        }
        let line_end: usize = if j > start && s.get_char(j - 1) == '\r' {
            j - 1
        } else {
            j
        };
        proof {
            lemma_split_step(s@, start as int, j as int);
            if j > start && s@[j - 1] == '\r' {
                assert(s@.subrange(start as int, j as int).last() == s@[j - 1]);
                assert(s@.subrange(start as int, j as int).drop_last() =~= s@.subrange(
                    start as int,
                    j - 1,
                ));
            }
            assert(strip_cr(s@.subrange(start as int, j as int)) == s@.subrange(
                start as int,
                line_end as int,
            ));
        }
        let ghost prev = out@;
        let piece = s.substring_char(start, line_end);
        out.push(piece.to_owned());
        proof {
            assert(out@.map_values(|l: String| l@) =~= prev.map_values(|l: String| l@)
                + seq![s@.subrange(start as int, line_end as int)]);
        }
        if j == len {
            proof {
                assert(out@.map_values(|l: String| l@) =~= split_lines_spec(s@));
            }
            break;
        }
        start = j + 1;
    }
    out
}

} // verus!
