//! Character-level text utilities: substring search, trimming, splitting
//! and digit parsing, all specified over `Seq<char>`.

use vstd::prelude::*;

verus! {

// ---------------------------------------------------------------------------
// Whitespace
// ---------------------------------------------------------------------------

/// The Unicode `White_Space` code points, the set `char::is_whitespace`
/// recognizes.
pub open spec fn is_ws_char(c: char) -> bool {
    let u = c as u32;
    u == 0x09 || u == 0x0A || u == 0x0B || u == 0x0C || u == 0x0D || u == 0x20 || u == 0x85
        || u == 0xA0 || u == 0x1680 || (0x2000 <= u && u <= 0x200A) || u == 0x2028 || u == 0x2029
        || u == 0x202F || u == 0x205F || u == 0x3000
}

/// Decides `is_ws_char`.
pub fn ws_char(c: char) -> (r: bool)
    ensures
        r == is_ws_char(c),
{
    let u = c as u32;
    u == 0x09 || u == 0x0A || u == 0x0B || u == 0x0C || u == 0x0D || u == 0x20 || u == 0x85
        || u == 0xA0 || u == 0x1680 || (0x2000 <= u && u <= 0x200A) || u == 0x2028 || u == 0x2029
        || u == 0x202F || u == 0x205F || u == 0x3000
}

// ---------------------------------------------------------------------------
// Characters of a string
// ---------------------------------------------------------------------------

/// Copies the characters of `s` into a vector, so that positions can be
/// scanned by index.
pub fn chars_of(s: &str) -> (r: Vec<char>)
    ensures
        r@ == s@,
{
    let n = s.unicode_len();
    let mut v: Vec<char> = Vec::new();
    let mut i: usize = 0;
    while i < n
        invariant
            i <= n,
            n == s@.len(),
            v@ == s@.subrange(0, i as int),
        decreases n - i,
    {
        v.push(s.get_char(i));
        i = i + 1;
        assert(v@ =~= s@.subrange(0, i as int));
    }
    assert(v@ =~= s@);
    v
}

// ---------------------------------------------------------------------------
// Substring search
// ---------------------------------------------------------------------------

/// `pat` occurs in `s` starting at position `i`.
pub open spec fn match_at(s: Seq<char>, pat: Seq<char>, i: int) -> bool {
    0 <= i && i + pat.len() <= s.len() && s.subrange(i, i + pat.len() as int) == pat
}

/// The first position at or after `i` where `pat` occurs in `s`.
pub open spec fn first_match_from(s: Seq<char>, pat: Seq<char>, i: int) -> Option<int>
    decreases s.len() - i + 1,
{
    if i < 0 || i + pat.len() > s.len() {
        None
    } else if match_at(s, pat, i) {
        Some(i)
    } else {
        first_match_from(s, pat, i + 1)
    }
}

/// What a `Some` answer of `first_match_from` means: a match there, and no
/// earlier match at or after the starting point.
pub proof fn lemma_first_match_some(s: Seq<char>, pat: Seq<char>, from: int, k: int)
    requires
        from >= 0,
        first_match_from(s, pat, from) == Some(k),
    ensures
        from <= k,
        match_at(s, pat, k),
        forall|j: int| from <= j < k ==> !match_at(s, pat, j),
    decreases s.len() - from + 1,
{
    if !(from < 0 || from + pat.len() > s.len()) && !match_at(s, pat, from) {
        lemma_first_match_some(s, pat, from + 1, k);
    }
}

/// A `None` answer of `first_match_from` means there is no match anywhere at
/// or after the starting point.
pub proof fn lemma_first_match_none(s: Seq<char>, pat: Seq<char>, from: int)
    requires
        from >= 0,
        first_match_from(s, pat, from) is None,
    ensures
        forall|j: int| from <= j ==> !match_at(s, pat, j),
    decreases s.len() - from + 1,
{
    if from + pat.len() > s.len() {
    } else {
        lemma_first_match_none(s, pat, from + 1);
    }
}

/// The converse: a match at `k` with none before it pins the answer.
pub proof fn lemma_first_match_found(s: Seq<char>, pat: Seq<char>, from: int, k: int)
    requires
        0 <= from <= k,
        match_at(s, pat, k),
        forall|j: int| from <= j < k ==> !match_at(s, pat, j),
    ensures
        first_match_from(s, pat, from) == Some(k),
    decreases k - from,
{
    if from < k {
        lemma_first_match_found(s, pat, from + 1, k);
    }
}

/// Compares `pat` with the text at position `i`.
fn match_here(text: &Vec<char>, pat: &Vec<char>, i: usize) -> (r: bool)
    requires
        i + pat@.len() <= text@.len(),
    ensures
        r == match_at(text@, pat@, i as int),
{
    let tn = text.len();
    let n = pat.len();
    let mut j: usize = 0;
    while j < n
        invariant
            j <= n,
            n == pat@.len(),
            tn == text@.len(),
            i + n <= tn,
            forall|j2: int| 0 <= j2 < j ==> text@[i + j2] == pat@[j2],
        decreases n - j,
    {
        if text[i + j] != pat[j] {
            assert(text@.subrange(i as int, i + n as int)[j as int] != pat@[j as int]);
            return false;
        }
        j = j + 1;
    }
    assert(text@.subrange(i as int, i + n as int) =~= pat@);
    true
}

/// Finds the first occurrence of `pat` in `text` at or after `from`.
pub fn find_from(text: &Vec<char>, pat: &str, from: usize) -> (r: Option<usize>)
    ensures
        match r {
            Some(k) => from <= k && first_match_from(text@, pat@, from as int) == Some(k as int),
            None => first_match_from(text@, pat@, from as int) is None,
        },
{
    let pv = chars_of(pat);
    let n = text.len();
    let m = pv.len();
    if from > n || m > n - from {
        proof {
            if first_match_from(text@, pat@, from as int) is Some {
                let k = first_match_from(text@, pat@, from as int)->Some_0;
                lemma_first_match_some(text@, pat@, from as int, k);
            }
        }
        return None;
    }
    if m == 0 {
        proof {
            assert(text@.subrange(from as int, from as int) =~= pat@);
            lemma_first_match_found(text@, pat@, from as int, from as int);
        }
        return Some(from);
    }
    let mut i: usize = from;
    while i <= n - m
        invariant
            from <= i <= n - m + 1,
            1 <= m <= n,
            n == text@.len(),
            m == pv@.len(),
            pv@ == pat@,
            forall|j: int| from <= j < i ==> !match_at(text@, pat@, j),
        decreases n - m - i + 1,
    {
        if match_here(text, &pv, i) {
            proof {
                lemma_first_match_found(text@, pat@, from as int, i as int);
            }
            return Some(i);
        }
        i = i + 1;
    }
    proof {
        if first_match_from(text@, pat@, from as int) is Some {
            let k = first_match_from(text@, pat@, from as int)->Some_0;
            lemma_first_match_some(text@, pat@, from as int, k);
        }
    }
    None
}

/// Whether `pat` occurs anywhere in `s`.
pub open spec fn contains_seq(s: Seq<char>, pat: Seq<char>) -> bool {
    first_match_from(s, pat, 0) is Some
}

/// Decides `contains_seq`.
pub fn contains_pat(text: &Vec<char>, pat: &str) -> (r: bool)
    ensures
        r == contains_seq(text@, pat@),
{
    match find_from(text, pat, 0) {
        Some(_) => true,
        None => false,
    }
}

// ---------------------------------------------------------------------------
// Single-character search
// ---------------------------------------------------------------------------

/// The first position at or after `i` holding character `c`.
pub open spec fn first_char_from(s: Seq<char>, c: char, i: int) -> Option<int>
    decreases s.len() - i + 1,
{
    if i < 0 || i >= s.len() {
        None
    } else if s[i] == c {
        Some(i)
    } else {
        first_char_from(s, c, i + 1)
    }
}

/// The last position holding character `c`.
pub open spec fn last_char_idx(s: Seq<char>, c: char) -> Option<int>
    decreases s.len(),
{
    if s.len() == 0 {
        None
    } else if s[s.len() - 1] == c {
        Some(s.len() - 1)
    } else {
        last_char_idx(s.drop_last(), c)
    }
}

/// What a `Some` answer of `first_char_from` means.
pub proof fn lemma_first_char_some(s: Seq<char>, c: char, from: int, k: int)
    requires
        from >= 0,
        first_char_from(s, c, from) == Some(k),
    ensures
        from <= k < s.len(),
        s[k] == c,
        forall|j: int| from <= j < k ==> s[j] != c,
    decreases s.len() - from + 1,
{
    if !(from < 0 || from >= s.len()) && s[from] != c {
        lemma_first_char_some(s, c, from + 1, k);
    }
}

/// The converse direction for `first_char_from`.
pub proof fn lemma_first_char_found(s: Seq<char>, c: char, from: int, k: int)
    requires
        0 <= from <= k < s.len(),
        s[k] == c,
        forall|j: int| from <= j < k ==> s[j] != c,
    ensures
        first_char_from(s, c, from) == Some(k),
    decreases k - from,
{
    if from < k {
        lemma_first_char_found(s, c, from + 1, k);
    }
}

/// What a `Some` answer of `last_char_idx` means.
pub proof fn lemma_last_char_some(s: Seq<char>, c: char, k: int)
    requires
        last_char_idx(s, c) == Some(k),
    ensures
        0 <= k < s.len(),
        s[k] == c,
        forall|j: int| k < j < s.len() ==> s[j] != c,
    decreases s.len(),
{
    if s.len() > 0 && s[s.len() - 1] != c {
        lemma_last_char_some(s.drop_last(), c, k);
        assert(forall|j: int| k < j < s.len() - 1 ==> s.drop_last()[j] == s[j]);
    }
}

/// The converse direction for `last_char_idx`.
pub proof fn lemma_last_char_found(s: Seq<char>, c: char, k: int)
    requires
        0 <= k < s.len(),
        s[k] == c,
        forall|j: int| k < j < s.len() ==> s[j] != c,
    ensures
        last_char_idx(s, c) == Some(k),
    decreases s.len(),
{
    if s.len() > 0 && s[s.len() - 1] != c {
        assert(forall|j: int| k < j < s.len() - 1 ==> s.drop_last()[j] == s[j]);
        lemma_last_char_found(s.drop_last(), c, k);
    }
}

/// Finds the first occurrence of `c` at or after `from`.
pub fn find_char_from(text: &Vec<char>, c: char, from: usize) -> (r: Option<usize>)
    ensures
        match r {
            Some(k) => from <= k && first_char_from(text@, c, from as int) == Some(k as int),
            None => first_char_from(text@, c, from as int) is None,
        },
{
    let n = text.len();
    let mut i: usize = from;
    if from > n {
        proof {
            if first_char_from(text@, c, from as int) is Some {
                let k = first_char_from(text@, c, from as int)->Some_0;
                lemma_first_char_some(text@, c, from as int, k);
            }
        }
        return None;
    }
    while i < n
        invariant
            from <= i <= n,
            n == text@.len(),
            forall|j: int| from <= j < i ==> text@[j] != c,
        decreases n - i,
    {
        if text[i] == c {
            proof {
                lemma_first_char_found(text@, c, from as int, i as int);
            }
            return Some(i);
        }
        i = i + 1;
    }
    proof {
        if first_char_from(text@, c, from as int) is Some {
            let k = first_char_from(text@, c, from as int)->Some_0;
            lemma_first_char_some(text@, c, from as int, k);
        }
    }
    None
}

/// Finds the last occurrence of `c`.
pub fn rfind_char(text: &Vec<char>, c: char) -> (r: Option<usize>)
    ensures
        match r {
            Some(k) => last_char_idx(text@, c) == Some(k as int),
            None => last_char_idx(text@, c) is None,
        },
{
    let n = text.len();
    let mut i: usize = n;
    while i > 0
        invariant
            i <= n,
            n == text@.len(),
            forall|j: int| i <= j < n ==> text@[j] != c,
        decreases i,
    {
        i = i - 1;
        if text[i] == c {
            proof {
                lemma_last_char_found(text@, c, i as int);
            }
            return Some(i);
        }
    }
    proof {
        if last_char_idx(text@, c) is Some {
            let k = last_char_idx(text@, c)->Some_0;
            lemma_last_char_some(text@, c, k);
        }
    }
    None
}

// ---------------------------------------------------------------------------
// Trimming
// ---------------------------------------------------------------------------

/// `s` without its leading whitespace.
pub open spec fn trim_start_spec(s: Seq<char>) -> Seq<char>
    decreases s.len(),
{
    if s.len() > 0 && is_ws_char(s[0]) {
        trim_start_spec(s.subrange(1, s.len() as int))
    } else {
        s
    }
}

/// `s` without its trailing whitespace.
pub open spec fn trim_end_spec(s: Seq<char>) -> Seq<char>
    decreases s.len(),
{
    if s.len() > 0 && is_ws_char(s[s.len() - 1]) {
        trim_end_spec(s.subrange(0, s.len() - 1))
    } else {
        s
    }
}

/// `s` without leading and trailing whitespace.
pub open spec fn trim_spec(s: Seq<char>) -> Seq<char> {
    trim_end_spec(trim_start_spec(s))
}

/// Narrows `[lo, hi)` to the whitespace-trimmed part of that range.
pub fn trim_range(text: &Vec<char>, lo: usize, hi: usize) -> (r: (usize, usize))
    requires
        lo <= hi <= text@.len(),
    ensures
        lo <= r.0 <= r.1 <= hi,
        text@.subrange(r.0 as int, r.1 as int) == trim_spec(text@.subrange(lo as int, hi as int)),
{
    let mut a: usize = lo;
    let mut b: usize = hi;
    while a < b && ws_char(text[a])
        invariant
            lo <= a <= b <= hi <= text@.len(),
            trim_start_spec(text@.subrange(lo as int, hi as int)) == trim_start_spec(
                text@.subrange(a as int, b as int),
            ),
            b == hi,
        decreases b - a,
    {
        proof {
            assert(text@.subrange(a as int, b as int).subrange(
                1,
                text@.subrange(a as int, b as int).len() as int,
            ) =~= text@.subrange(a + 1, b as int));
        }
        a = a + 1;
    }
    proof {
        assert(trim_start_spec(text@.subrange(a as int, b as int)) == text@.subrange(
            a as int,
            b as int,
        ));
    }
    while b > a && ws_char(text[b - 1])
        invariant
            lo <= a <= b <= hi <= text@.len(),
            trim_spec(text@.subrange(lo as int, hi as int)) == trim_end_spec(
                text@.subrange(a as int, b as int),
            ),
        decreases b,
    {
        proof {
            assert(text@.subrange(a as int, b as int).subrange(
                0,
                text@.subrange(a as int, b as int).len() - 1,
            ) =~= text@.subrange(a as int, b - 1));
        }
        b = b - 1;
    }
    (a, b)
}

// ---------------------------------------------------------------------------
// Range comparison
// ---------------------------------------------------------------------------

/// Whether the characters of `text` in `[lo, hi)` are exactly `pat`.
pub fn range_eq(text: &Vec<char>, lo: usize, hi: usize, pat: &str) -> (r: bool)
    requires
        lo <= hi <= text@.len(),
    ensures
        r == (text@.subrange(lo as int, hi as int) == pat@),
{
    let pv = chars_of(pat);
    let m = pv.len();
    if hi - lo != m {
        return false;
    }
    let mut j: usize = 0;
    while j < m
        invariant
            j <= m,
            m == pv@.len(),
            pv@ == pat@,
            lo + m == hi <= text@.len(),
            forall|j2: int| 0 <= j2 < j ==> text@[lo + j2] == pv@[j2],
        decreases m - j,
    {
        if text[lo + j] != pv[j] {
            assert(text@.subrange(lo as int, hi as int)[j as int] != pat@[j as int]);
            return false;
        }
        j = j + 1;
    }
    assert(text@.subrange(lo as int, hi as int) =~= pat@);
    true
}

// ---------------------------------------------------------------------------
// Splitting on a separator character
// ---------------------------------------------------------------------------

/// The pieces of `s` between occurrences of `c`: always one piece more
/// than there are separators.
pub open spec fn split_char_spec(s: Seq<char>, c: char) -> Seq<Seq<char>>
    decreases s.len(),
{
    match first_char_from(s, c, 0) {
        Some(i) => if 0 <= i < s.len() {
            seq![s.subrange(0, i)] + split_char_spec(s.subrange(i + 1, s.len() as int), c)
        } else {
            seq![s]
        },
        None => seq![s],
    }
}

/// Splits the range `[lo, hi)` of `text` at every occurrence of `c`,
/// returning the piece ranges.
pub fn split_ranges(text: &Vec<char>, lo: usize, hi: usize, c: char) -> (r: Vec<(usize, usize)>)
    requires
        lo <= hi <= text@.len(),
    ensures
        r@.len() == split_char_spec(text@.subrange(lo as int, hi as int), c).len(),
        r@.len() >= 1,
        forall|k: int| 0 <= k < r@.len() ==> lo <= (#[trigger] r@[k]).0 <= r@[k].1 <= hi
            && text@.subrange(r@[k].0 as int, r@[k].1 as int) == split_char_spec(
            text@.subrange(lo as int, hi as int),
            c,
        )[k],
{
    let ghost whole = split_char_spec(text@.subrange(lo as int, hi as int), c);
    let mut out: Vec<(usize, usize)> = Vec::new();
    let mut cur: usize = lo;
    loop
        invariant
            lo <= cur <= hi <= text@.len(),
            whole == split_char_spec(text@.subrange(lo as int, hi as int), c),
            out@.len() <= whole.len(),
            whole =~= whole.take(out@.len() as int) + split_char_spec(
                text@.subrange(cur as int, hi as int),
                c,
            ),
            forall|k: int| 0 <= k < out@.len() ==> lo <= (#[trigger] out@[k]).0 <= out@[k].1 <= hi
                && text@.subrange(out@[k].0 as int, out@[k].1 as int) == whole[k],
        decreases hi - cur + 1,
    {
        let ghost sub = text@.subrange(cur as int, hi as int);
        let mut j: usize = cur;
        while j < hi && text[j] != c
            invariant
                cur <= j <= hi <= text@.len(),
                forall|jj: int| cur <= jj < j ==> text@[jj] != c,
            decreases hi - j,
        {
            j = j + 1;
        }
        proof {
            assert(forall|jj: int| 0 <= jj < j - cur ==> sub[jj] == text@[jj + cur]);
            if j < hi {
                assert(sub[j - cur] == text@[j as int]);
                lemma_first_char_found(sub, c, 0, j - cur);
            } else {
                if first_char_from(sub, c, 0) is Some {
                    let kk = first_char_from(sub, c, 0)->Some_0;
                    lemma_first_char_some(sub, c, 0, kk);
                }
            }
        }
        if j < hi {
            proof {
                assert(split_char_spec(sub, c) == seq![sub.subrange(0, j - cur)]
                    + split_char_spec(sub.subrange(j - cur + 1, sub.len() as int), c));
                assert(sub.subrange(0, j - cur) =~= text@.subrange(cur as int, j as int));
                assert(sub.subrange(j - cur + 1, sub.len() as int) =~= text@.subrange(
                    j + 1,
                    hi as int,
                ));
                assert(whole[out@.len() as int] == text@.subrange(cur as int, j as int));
                assert(whole.take(out@.len() as int + 1) =~= whole.take(out@.len() as int) + seq![
                    text@.subrange(cur as int, j as int),
                ]);
            }
            out.push((cur, j));
            cur = j + 1;
        } else {
            proof {
                assert(split_char_spec(sub, c) == seq![sub]);
                assert(sub =~= text@.subrange(cur as int, hi as int));
                assert(whole[out@.len() as int] == sub);
                assert(whole.take(out@.len() as int + 1) =~= whole.take(out@.len() as int) + seq![sub]);
                assert(whole.len() == out@.len() + 1);
            }
            out.push((cur, hi));
            proof {
                assert(whole =~= whole.take(out@.len() as int));
                assert(out@.len() == whole.len());
                assert(text@.subrange(out@[out@.len() - 1].0 as int, out@[out@.len() - 1].1 as int)
                    == whole[out@.len() - 1]);
            }
            return out;
        }
    }
}

// ---------------------------------------------------------------------------
// Lines
// ---------------------------------------------------------------------------

/// `s` without one trailing carriage return.
pub open spec fn strip_cr(s: Seq<char>) -> Seq<char> {
    if s.len() > 0 && s.last() == '\r' {
        s.drop_last()
    } else {
        s
    }
}

/// The lines of `s`: the pieces between newlines, a final empty piece
/// dropped, and one trailing carriage return removed from each piece.
pub open spec fn lines_spec(s: Seq<char>) -> Seq<Seq<char>> {
    let p = split_char_spec(s, '\n');
    let q = if p.len() > 0 && p.last().len() == 0 {
        p.drop_last()
    } else {
        p
    };
    Seq::new(q.len(), |i: int| if 0 <= i < q.len() { strip_cr(q[i]) } else { Seq::empty() })
}

/// Splits `text` into its lines, returning the line ranges.
pub fn line_ranges(text: &Vec<char>) -> (r: Vec<(usize, usize)>)
    ensures
        r@.len() == lines_spec(text@).len(),
        forall|k: int| 0 <= k < r@.len() ==> (#[trigger] r@[k]).0 <= r@[k].1 <= text@.len()
            && text@.subrange(r@[k].0 as int, r@[k].1 as int) == lines_spec(text@)[k],
{
    let n = text.len();
    proof {
        assert(text@.subrange(0, n as int) =~= text@);
    }
    let pieces = split_ranges(text, 0, n, '\n');
    let ghost p = split_char_spec(text@, '\n');
    let mut out: Vec<(usize, usize)> = Vec::new();
    let last_piece = pieces[pieces.len() - 1];
    let keep: usize = if last_piece.1 == last_piece.0 {
        pieces.len() - 1
    } else {
        pieces.len()
    };
    proof {
        let q = if p.len() > 0 && p.last().len() == 0 {
            p.drop_last()
        } else {
            p
        };
        assert(q.len() == keep);
    }
    let mut k: usize = 0;
    while k < keep
        invariant
            k <= keep,
            keep <= pieces@.len(),
            p == split_char_spec(text@, '\n'),
            pieces@.len() == p.len(),
            keep == lines_spec(text@).len(),
            forall|j: int| 0 <= j < pieces@.len() ==> (#[trigger] pieces@[j]).0 <= pieces@[j].1
                <= text@.len() && text@.subrange(pieces@[j].0 as int, pieces@[j].1 as int) == p[j],
            out@.len() == k,
            forall|j: int| 0 <= j < k ==> (#[trigger] out@[j]).0 <= out@[j].1 <= text@.len()
                && text@.subrange(out@[j].0 as int, out@[j].1 as int) == lines_spec(text@)[j],
        decreases keep - k,
    {
        let (a, b) = pieces[k];
        proof {
            assert(text@.subrange(a as int, b as int) == p[k as int]);
        }
        let b2: usize = if b > a && text[b - 1] == '\r' {
            proof {
                assert(p[k as int].last() == text@[b - 1]);
                assert(text@.subrange(a as int, b - 1) =~= p[k as int].drop_last());
            }
            b - 1
        } else {
            b
        };
        proof {
            assert(text@.subrange(a as int, b2 as int) == strip_cr(p[k as int]));
            let pp = p;
            let q = if pp.len() > 0 && pp.last().len() == 0 {
                pp.drop_last()
            } else {
                pp
            };
            assert(keep == q.len());
            if pp.len() > 0 && pp.last().len() == 0 {
                assert(q[k as int] == pp.subrange(0, pp.len() - 1)[k as int]);
            }
            assert(q[k as int] == pp[k as int]);
            assert(lines_spec(text@)[k as int] == strip_cr(q[k as int]));
        }
        out.push((a, b2));
        k = k + 1;
    }
    out
}

// ---------------------------------------------------------------------------
// Words
// ---------------------------------------------------------------------------

/// The first whitespace position at or after `i`, or the length.
pub open spec fn first_ws_from(s: Seq<char>, i: int) -> int
    decreases s.len() - i + 1,
{
    if i < 0 {
        0
    } else if i >= s.len() {
        s.len() as int
    } else if is_ws_char(s[i]) {
        i
    } else {
        first_ws_from(s, i + 1)
    }
}

/// The converse direction for `first_ws_from`.
pub proof fn lemma_first_ws_found(s: Seq<char>, from: int, k: int)
    requires
        0 <= from <= k <= s.len(),
        forall|j: int| from <= j < k ==> !is_ws_char(s[j]),
        k < s.len() ==> is_ws_char(s[k]),
    ensures
        first_ws_from(s, from) == k,
    decreases k - from,
{
    if from < k {
        lemma_first_ws_found(s, from + 1, k);
    }
}

/// The whitespace-separated words of `s`, empties skipped.
pub open spec fn words_spec(s: Seq<char>) -> Seq<Seq<char>>
    decreases s.len(),
{
    if s.len() == 0 {
        Seq::empty()
    } else if is_ws_char(s[0]) {
        words_spec(s.subrange(1, s.len() as int))
    } else {
        let e0 = first_ws_from(s, 0);
        let e = if 1 <= e0 <= s.len() {
            e0
        } else {
            1
        };
        seq![s.subrange(0, e)] + words_spec(s.subrange(e, s.len() as int))
    }
}

/// Splits `text` into its words, returning the word ranges.
pub fn word_ranges(text: &Vec<char>) -> (r: Vec<(usize, usize)>)
    ensures
        r@.len() == words_spec(text@).len(),
        forall|k: int| 0 <= k < r@.len() ==> (#[trigger] r@[k]).0 < r@[k].1 <= text@.len()
            && text@.subrange(r@[k].0 as int, r@[k].1 as int) == words_spec(text@)[k],
{
    let ghost whole = words_spec(text@);
    let n = text.len();
    let mut out: Vec<(usize, usize)> = Vec::new();
    let mut i: usize = 0;
    proof {
        assert(text@.subrange(0, n as int) =~= text@);
    }
    while i < n
        invariant
            i <= n,
            n == text@.len(),
            out@.len() <= whole.len(),
            whole =~= whole.take(out@.len() as int) + words_spec(
                text@.subrange(i as int, n as int),
            ),
            forall|k: int| 0 <= k < out@.len() ==> (#[trigger] out@[k]).0 < out@[k].1 <= n
                && text@.subrange(out@[k].0 as int, out@[k].1 as int) == whole[k],
        decreases n - i,
    {
        let ghost sub = text@.subrange(i as int, n as int);
        if ws_char(text[i]) {
            proof {
                assert(sub[0] == text@[i as int]);
                assert(sub.subrange(1, sub.len() as int) =~= text@.subrange(i + 1, n as int));
            }
            i = i + 1;
        } else {
            let mut j: usize = i;
            while j < n && !ws_char(text[j])
                invariant
                    i <= j <= n <= text@.len(),
                    forall|jj: int| i <= jj < j ==> !is_ws_char(text@[jj]),
                decreases n - j,
            {
                j = j + 1;
            }
            proof {
                assert(forall|jj: int| 0 <= jj < j - i ==> sub[jj] == text@[jj + i]);
                if j < n {
                    assert(sub[j - i] == text@[j as int]);
                }
                lemma_first_ws_found(sub, 0, j - i);
                assert(words_spec(sub) == seq![sub.subrange(0, j - i)] + words_spec(
                    sub.subrange(j - i, sub.len() as int),
                ));
                assert(sub.subrange(0, j - i) =~= text@.subrange(i as int, j as int));
                assert(sub.subrange(j - i, sub.len() as int) =~= text@.subrange(
                    j as int,
                    n as int,
                ));
                assert(whole[out@.len() as int] == text@.subrange(i as int, j as int));
                assert(whole.take(out@.len() as int + 1) =~= whole.take(out@.len() as int) + seq![
                    text@.subrange(i as int, j as int),
                ]);
            }
            out.push((i, j));
            i = j;
        }
    }
    proof {
        assert(text@.subrange(n as int, n as int) =~= Seq::<char>::empty());
        assert(whole =~= whole.take(out@.len() as int));
    }
    out
}

// ---------------------------------------------------------------------------
// Decimal digits
// ---------------------------------------------------------------------------

/// A decimal digit.
pub open spec fn is_digit_char(c: char) -> bool {
    48 <= c as u32 && c as u32 <= 57
}

/// All characters are decimal digits.
pub open spec fn all_digits(s: Seq<char>) -> bool {
    forall|i: int| 0 <= i < s.len() ==> is_digit_char(#[trigger] s[i])
}

/// The number the digit string denotes.
pub open spec fn digits_val(s: Seq<char>) -> int
    decreases s.len(),
{
    if s.len() == 0 {
        0
    } else {
        digits_val(s.drop_last()) * 10 + (s.last() as u32 - 48)
    }
}

/// A digit string's value only grows as digits are appended.
pub proof fn lemma_digits_val_prefix(s: Seq<char>, k: int)
    requires
        all_digits(s),
        0 <= k <= s.len(),
    ensures
        0 <= digits_val(s.subrange(0, k)) <= digits_val(s),
    decreases s.len() - k,
{
    if k == s.len() {
        assert(s.subrange(0, k) =~= s);
        lemma_digits_val_nonneg(s);
    } else {
        lemma_digits_val_prefix(s, k + 1);
        assert(s.subrange(0, k + 1).drop_last() =~= s.subrange(0, k));
        assert(is_digit_char(s[k]));
        assert(digits_val(s.subrange(0, k + 1)) == digits_val(s.subrange(0, k)) * 10 + (
        s[k] as u32 - 48));
        lemma_digits_val_nonneg(s.subrange(0, k));
    }
}

/// The value of a digit string is not negative.
pub proof fn lemma_digits_val_nonneg(s: Seq<char>)
    requires
        all_digits(s),
    ensures
        digits_val(s) >= 0,
    decreases s.len(),
{
    if s.len() > 0 {
        assert(all_digits(s.drop_last())) by {
            assert(forall|i: int| 0 <= i < s.len() - 1 ==> s.drop_last()[i] == s[i]);
        }
        lemma_digits_val_nonneg(s.drop_last());
        assert(is_digit_char(s.last()));
    }
}

/// Reads an unsigned decimal number, failing on an empty string, any
/// non-digit, or a value above `u32::MAX`.
pub fn parse_u32_digits(s: &str) -> (r: Option<u32>)
    ensures
        match r {
            Some(n) => all_digits(s@) && s@.len() > 0 && n == digits_val(s@) && digits_val(s@)
                <= u32::MAX,
            None => !(all_digits(s@) && s@.len() > 0 && digits_val(s@) <= u32::MAX),
        },
{
    let text = chars_of(s);
    let n = text.len();
    if n == 0 {
        return None;
    }
    let mut acc: u64 = 0;
    let mut i: usize = 0;
    while i < n
        invariant
            i <= n,
            n == text@.len(),
            text@ == s@,
            n > 0,
            all_digits(s@.subrange(0, i as int)),
            acc == digits_val(s@.subrange(0, i as int)),
            acc <= u32::MAX,
        decreases n - i,
    {
        let c = text[i];
        let u = c as u32;
        if u < 48 || u > 57 {
            proof {
                assert(!is_digit_char(s@[i as int]));
            }
            return None;
        }
        proof {
            assert(s@.subrange(0, i + 1).drop_last() =~= s@.subrange(0, i as int));
            assert(is_digit_char(s@[i as int]));
            assert forall|j: int| 0 <= j < i + 1 implies is_digit_char(
                #[trigger] s@.subrange(0, i + 1)[j],
            ) by {
                if j < i {
                    assert(s@.subrange(0, i as int)[j] == s@[j]);
                }
                assert(s@.subrange(0, i + 1)[j] == s@[j]);
            }
        }
        acc = acc * 10 + ((u - 48) as u64);
        i = i + 1;
        if acc > 0xFFFF_FFFF {
            proof {
                if all_digits(s@) {
                    lemma_digits_val_prefix(s@, i as int);
                }
            }
            return None;
        }
    }
    proof {
        assert(s@.subrange(0, n as int) =~= s@);
    }
    Some(acc as u32)
}

/// Reads an unsigned decimal number, failing on an empty string, any
/// non-digit, or a value above `u64::MAX`.
pub fn parse_u64_digits(s: &str) -> (r: Option<u64>)
    ensures
        match r {
            Some(n) => all_digits(s@) && s@.len() > 0 && n == digits_val(s@) && digits_val(s@)
                <= u64::MAX,
            None => !(all_digits(s@) && s@.len() > 0 && digits_val(s@) <= u64::MAX),
        },
{
    let text = chars_of(s);
    let n = text.len();
    if n == 0 {
        return None;
    }
    let mut acc: u128 = 0;
    let mut i: usize = 0;
    while i < n
        invariant
            i <= n,
            n == text@.len(),
            text@ == s@,
            n > 0,
            all_digits(s@.subrange(0, i as int)),
            acc == digits_val(s@.subrange(0, i as int)),
            acc <= u64::MAX,
        decreases n - i,
    {
        let c = text[i];
        let u = c as u32;
        if u < 48 || u > 57 {
            proof {
                assert(!is_digit_char(s@[i as int]));
            }
            return None;
        }
        proof {
            assert(s@.subrange(0, i + 1).drop_last() =~= s@.subrange(0, i as int));
            assert(is_digit_char(s@[i as int]));
            assert forall|j: int| 0 <= j < i + 1 implies is_digit_char(
                #[trigger] s@.subrange(0, i + 1)[j],
            ) by {
                if j < i {
                    assert(s@.subrange(0, i as int)[j] == s@[j]);
                }
                assert(s@.subrange(0, i + 1)[j] == s@[j]);
            }
        }
        acc = acc * 10 + ((u - 48) as u128);
        i = i + 1;
        if acc > 0xFFFF_FFFF_FFFF_FFFF {
            proof {
                if all_digits(s@) {
                    lemma_digits_val_prefix(s@, i as int);
                }
            }
            return None;
        }
    }
    proof {
        assert(s@.subrange(0, n as int) =~= s@);
    }
    Some(acc as u64)
}

// ---------------------------------------------------------------------------
// String equality
// ---------------------------------------------------------------------------

/// Whether two strings hold the same characters.
pub fn str_eq(a: &str, b: &str) -> (r: bool)
    ensures
        r == (a@ == b@),
{
    let ta = chars_of(a);
    let n = ta.len();
    proof {
        assert(ta@.subrange(0, n as int) =~= a@);
    }
    range_eq(&ta, 0, n, b)
}

// ---------------------------------------------------------------------------
// The trusted character classifiers of std
// ---------------------------------------------------------------------------

/// What `str::to_lowercase` returns: a function of the characters alone.
pub uninterp spec fn lower_of(s: Seq<char>) -> Seq<char>;

/// `s` with each ASCII capital letter lowered and all else kept.
pub open spec fn ascii_lower_seq(s: Seq<char>) -> Seq<char> {
    Seq::new(
        s.len(),
        |i: int| if 0 <= i < s.len() && 65 <= s[i] as u32 && s[i] as u32 <= 90 { (((s[i] as u32)
            + 32) as u8) as char } else if 0 <= i < s.len() { s[i] } else { ' ' },
    )
}

/// An all-ASCII string.
pub open spec fn all_ascii(s: Seq<char>) -> bool {
    forall|i: int| #![trigger s[i]] 0 <= i < s.len() ==> (s[i] as u32) < 128
}

/// Relies on str::to_lowercase: the result depends on the characters alone,
/// and on an all-ASCII string it is the plain ASCII lowering.
#[verifier::external_body]
pub fn lowercase(s: &str) -> (r: String)
    ensures
        r@ == lower_of(s@),
        all_ascii(s@) ==> r@ == ascii_lower_seq(s@),
{
    s.to_lowercase()
}

/// What `char::is_numeric` returns: whether the character has the Unicode
/// numeric property.
pub uninterp spec fn unicode_numeric(c: char) -> bool;

/// Relies on char::is_numeric: the ASCII digits are numeric and no other
/// ASCII character is.
pub assume_specification[ char::is_numeric ](c: char) -> (r: bool)
    ensures
        r == unicode_numeric(c),
        48 <= c as u32 <= 57 ==> r,
        (c as u32) < 128 && !(48 <= c as u32 <= 57) ==> !r,
;

// ---------------------------------------------------------------------------
// Decimal rendering
// ---------------------------------------------------------------------------

/// The character for the decimal digit `d`.
pub open spec fn digit_char(d: int) -> char {
    ((d + 48) as u8) as char
}

/// The decimal digits of `n`, most significant first.
pub open spec fn dec_digits(n: nat) -> Seq<char>
    decreases n,
{
    if n < 10 {
        seq![digit_char(n as int)]
    } else {
        dec_digits(n / 10) + seq![digit_char((n % 10) as int)]
    }
}

/// The one-character string for the decimal digit `d`.
fn digit_str(d: u8) -> (r: &'static str)
    requires
        d < 10,
    ensures
        r@ == seq![digit_char(d as int)],
{
    proof {
        reveal_strlit("0");
        reveal_strlit("1");
        reveal_strlit("2");
        reveal_strlit("3");
        reveal_strlit("4");
        reveal_strlit("5");
        reveal_strlit("6");
        reveal_strlit("7");
        reveal_strlit("8");
        reveal_strlit("9");
        assert("0"@ =~= seq![digit_char(0)]);
        assert("1"@ =~= seq![digit_char(1)]);
        assert("2"@ =~= seq![digit_char(2)]);
        assert("3"@ =~= seq![digit_char(3)]);
        assert("4"@ =~= seq![digit_char(4)]);
        assert("5"@ =~= seq![digit_char(5)]);
        assert("6"@ =~= seq![digit_char(6)]);
        assert("7"@ =~= seq![digit_char(7)]);
        assert("8"@ =~= seq![digit_char(8)]);
        assert("9"@ =~= seq![digit_char(9)]);
    }
    match d {
        0 => "0",
        1 => "1",
        2 => "2",
        3 => "3",
        4 => "4",
        5 => "5",
        6 => "6",
        7 => "7",
        8 => "8",
        _ => "9",
    }
}

/// Renders `n` in decimal.
pub fn u64_to_string(n: u64) -> (r: String)
    ensures
        r@ == dec_digits(n as nat),
    decreases n,
{
    if n < 10 {
        digit_str(n as u8).to_owned()
    } else {
        let mut s = u64_to_string(n / 10);
        s.append(digit_str((n % 10) as u8));
        s
    }
}

} // verus!
