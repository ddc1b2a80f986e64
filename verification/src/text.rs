use vstd::prelude::*;

verus! {

broadcast use vstd::string::group_string_axioms;

// ---------------------------------------------------------------------------
// Character classes
// ---------------------------------------------------------------------------

/// Unicode `White_Space`, the class that `char::is_whitespace` tests.
pub open spec fn is_whitespace(c: char) -> bool {
    ||| ('\u{9}' <= c && c <= '\u{d}')
    ||| c == ' '
    ||| c == '\u{85}'
    ||| c == '\u{a0}'
    ||| c == '\u{1680}'
    ||| ('\u{2000}' <= c && c <= '\u{200a}')
    ||| c == '\u{2028}'
    ||| c == '\u{2029}'
    ||| c == '\u{202f}'
    ||| c == '\u{205f}'
    ||| c == '\u{3000}'
}

pub fn char_is_whitespace(c: char) -> (b: bool)
    ensures
        b == is_whitespace(c),
{
    ('\u{9}' <= c && c <= '\u{d}') || c == ' ' || c == '\u{85}' || c == '\u{a0}' || c == '\u{1680}'
        || ('\u{2000}' <= c && c <= '\u{200a}') || c == '\u{2028}' || c == '\u{2029}' || c
        == '\u{202f}' || c == '\u{205f}' || c == '\u{3000}'
}

/// The characters that a trimming operation removes: white space, or one
/// given character.
#[derive(Clone, Copy)]
pub enum Trimmed {
    Whitespace,
    Only(char),
}

pub open spec fn trimmed_char(k: Trimmed, c: char) -> bool {
    match k {
        Trimmed::Whitespace => is_whitespace(c),
        Trimmed::Only(x) => c == x,
    }
}

fn is_trimmed_char(k: Trimmed, c: char) -> (b: bool)
    ensures
        b == trimmed_char(k, c),
{
    match k {
        Trimmed::Whitespace => char_is_whitespace(c),
        Trimmed::Only(x) => c == x,
    }
}

// ---------------------------------------------------------------------------
// Trimming
// ---------------------------------------------------------------------------

/// `s` without its leading characters of class `k`.
pub open spec fn trim_start(s: Seq<char>, k: Trimmed) -> Seq<char>
    decreases s.len(),
{
    if s.len() > 0 && trimmed_char(k, s[0]) {
        trim_start(s.drop_first(), k)
    } else {
        s
    }
}

/// `s` without its trailing characters of class `k`.
pub open spec fn trim_end(s: Seq<char>, k: Trimmed) -> Seq<char>
    decreases s.len(),
{
    if s.len() > 0 && trimmed_char(k, s.last()) {
        trim_end(s.drop_last(), k)
    } else {
        s
    }
}

/// `s` without leading and trailing characters of class `k`
/// (`str::trim` for white space, `str::trim_matches` for one character).
pub open spec fn trim(s: Seq<char>, k: Trimmed) -> Seq<char> {
    trim_end(trim_start(s, k), k)
}

/// Narrows the span `lo..hi` of `s` to its trimmed part.
pub fn trim_span(s: &Vec<char>, lo: usize, hi: usize, k: Trimmed) -> (r: (usize, usize))
    requires
        lo <= hi <= s.len(),
    ensures
        lo <= r.0 <= r.1 <= hi,
        s@.subrange(r.0 as int, r.1 as int) == trim(s@.subrange(lo as int, hi as int), k),
{
    let mut i = lo;
    while i < hi && is_trimmed_char(k, s[i])
        invariant
            lo <= i <= hi <= s.len(),
            trim_start(s@.subrange(lo as int, hi as int), k) == trim_start(
                s@.subrange(i as int, hi as int),
                k,
            ),
        decreases hi - i,
    {
        assert(s@.subrange(i as int, hi as int).drop_first() =~= s@.subrange(
            i + 1,
            hi as int,
        ));
        i = i + 1;
    }
    assert(trim_start(s@.subrange(i as int, hi as int), k) == s@.subrange(i as int, hi as int));
    let mut j = hi;
    while j > i && is_trimmed_char(k, s[j - 1])
        invariant
            lo <= i <= j <= hi <= s.len(),
            trim(s@.subrange(lo as int, hi as int), k) == trim_end(
                s@.subrange(i as int, j as int),
                k,
            ),
        decreases j - i,
    {
        assert(s@.subrange(i as int, j as int).drop_last() =~= s@.subrange(
            i as int,
            j - 1,
        ));
        j = j - 1;
    }
    (i, j)
}

// ---------------------------------------------------------------------------
// Lines
// ---------------------------------------------------------------------------

/// Index of the first `'\n'` in `s`, or `s.len()` when there is none.
pub open spec fn newline_index(s: Seq<char>) -> nat
    decreases s.len(),
{
    if s.len() == 0 || s[0] == '\n' {
        0
    } else {
        1 + newline_index(s.drop_first())
    }
}

/// A line without the `'\r'` of a `"\r\n"` ending.
pub open spec fn strip_cr(line: Seq<char>) -> Seq<char> {
    if line.len() > 0 && line.last() == '\r' {
        line.drop_last()
    } else {
        line
    }
}

/// The lines of `s` as `str::lines` gives them: split at `'\n'`, a `'\r'`
/// just before it removed, and no empty last line after a final `'\n'`.
pub open spec fn lines(s: Seq<char>) -> Seq<Seq<char>>
    decreases s.len(),
{
    if s.len() == 0 {
        seq![]
    } else {
        let k = newline_index(s);
        if k >= s.len() {
            seq![s]
        } else {
            seq![strip_cr(s.take(k as int))] + lines(s.skip(k + 1 as int))
        }
    }
}

proof fn lemma_newline_index_absent(s: Seq<char>)
    requires
        forall|i: int| 0 <= i < s.len() ==> s[i] != '\n',
    ensures
        newline_index(s) == s.len(),
    decreases s.len(),
{
    if s.len() > 0 {
        assert forall|i: int| 0 <= i < s.drop_first().len() implies s.drop_first()[i] != '\n' by {
            assert(s.drop_first()[i] == s[i + 1]);
        }
        lemma_newline_index_absent(s.drop_first());
    }
}

/// Text without a line feed is one line.
pub proof fn lemma_single_line(s: Seq<char>)
    requires
        s.len() > 0,
        forall|i: int| 0 <= i < s.len() ==> s[i] != '\n',
    ensures
        lines(s) == seq![s],
{
    lemma_newline_index_absent(s);
}

/// Text whose first line feed follows the line `l` starts with the line
/// `l` (a trailing `\r` of `l` aside).
pub proof fn lemma_single_line_prefix(l: Seq<char>, more: Seq<char>)
    requires
        forall|i: int| 0 <= i < l.len() ==> l[i] != '\n',
        l.len() == 0 || l.last() != '\r',
    ensures
        lines(l + seq!['\n'] + more).len() > 0,
        lines(l + seq!['\n'] + more)[0] == l,
{
    let s = l + seq!['\n'] + more;
    lemma_newline_index_prefix(l, seq!['\n'] + more);
    assert(s =~= l + (seq!['\n'] + more));
    assert(s.take(l.len() as int) =~= l);
}

proof fn lemma_newline_index_prefix(l: Seq<char>, rest: Seq<char>)
    requires
        forall|i: int| 0 <= i < l.len() ==> l[i] != '\n',
        rest.len() > 0,
        rest[0] == '\n',
    ensures
        newline_index(l + rest) == l.len(),
    decreases l.len(),
{
    if l.len() == 0 {
        assert(l + rest =~= rest);
    } else {
        assert((l + rest).drop_first() =~= l.drop_first() + rest);
        assert forall|i: int| 0 <= i < l.drop_first().len() implies l.drop_first()[i] != '\n' by {
            assert(l.drop_first()[i] == l[i + 1]);
        }
        lemma_newline_index_prefix(l.drop_first(), rest);
    }
}

/// Splits the span `lo..hi` of `s` into the spans of its lines.
pub fn split_lines(s: &Vec<char>, lo: usize, hi: usize) -> (r: Vec<(usize, usize)>)
    requires
        lo <= hi <= s.len(),
    ensures
        r.len() == lines(s@.subrange(lo as int, hi as int)).len(),
        forall|i: int|
            0 <= i < r.len() ==> {
                &&& lo <= (#[trigger] r[i]).0 <= r[i].1 <= hi
                &&& s@.subrange(r[i].0 as int, r[i].1 as int) == lines(
                    s@.subrange(lo as int, hi as int),
                )[i]
            },
{
    let ghost whole = lines(s@.subrange(lo as int, hi as int));
    let mut r: Vec<(usize, usize)> = Vec::new();
    let mut p = lo;
    while p < hi
        invariant
            lo <= p <= hi <= s.len(),
            whole == lines(s@.subrange(lo as int, hi as int)),
            whole.len() == r.len() + lines(s@.subrange(p as int, hi as int)).len(),
            forall|i: int|
                0 <= i < r.len() ==> {
                    &&& lo <= (#[trigger] r[i]).0 <= r[i].1 <= hi
                    &&& s@.subrange(r[i].0 as int, r[i].1 as int) == whole[i]
                },
            forall|i: int|
                0 <= i < lines(s@.subrange(p as int, hi as int)).len() ==> whole[r.len() + i]
                    == #[trigger] lines(s@.subrange(p as int, hi as int))[i],
        decreases hi - p,
    {
        let ghost sub = s@.subrange(p as int, hi as int);
        let mut j = p;
        while j < hi && s[j] != '\n'
            invariant
                p <= j <= hi <= s.len(),
                sub == s@.subrange(p as int, hi as int),
                newline_index(sub) == (j - p) + newline_index(s@.subrange(j as int, hi as int)),
            decreases hi - j,
        {
            assert(s@.subrange(j as int, hi as int).drop_first() =~= s@.subrange(
                j + 1,
                hi as int,
            ));
            j = j + 1;
        }
        let ghost rest_old = lines(sub);
        let ghost old_len = r.len() as int;
        assert(rest_old.len() > 0);
        assert(whole[old_len] == rest_old[0]);
        assert(forall|i: int| 0 <= i < rest_old.len() ==> whole[old_len + i] == rest_old[i]);
        if j == hi {
            assert(newline_index(sub) == sub.len());
            assert(rest_old == seq![sub]);
            assert(lines(s@.subrange(hi as int, hi as int)) =~= Seq::<Seq<char>>::empty());
            r.push((p, hi));
            p = hi;
        } else {
            assert(newline_index(sub) == j - p);
            assert(sub.take((j - p) as int) =~= s@.subrange(p as int, j as int));
            assert(sub.skip((j - p) + 1) =~= s@.subrange(j + 1, hi as int));
            let end = if j > p && s[j - 1] == '\r' {
                j - 1
            } else {
                j
            };
            assert(s@.subrange(p as int, end as int) =~= strip_cr(s@.subrange(p as int, j as int)));
            assert(rest_old == seq![s@.subrange(p as int, end as int)] + lines(
                s@.subrange(j + 1, hi as int),
            ));
            r.push((p, end));
            p = j + 1;
        }
        assert forall|i: int| 0 <= i < lines(s@.subrange(p as int, hi as int)).len() implies whole[r.len() + i]
            == #[trigger] lines(s@.subrange(p as int, hi as int))[i] by {
            assert(lines(s@.subrange(p as int, hi as int))[i] == rest_old[i + 1]);
        }
    }
    assert(lines(s@.subrange(p as int, hi as int)).len() == 0);
    r
}

// ---------------------------------------------------------------------------
// Words
// ---------------------------------------------------------------------------

/// Length of the run of non-white-space characters that starts `s`.
pub open spec fn word_len(s: Seq<char>) -> nat
    decreases s.len(),
{
    if s.len() == 0 || is_whitespace(s[0]) {
        0
    } else {
        1 + word_len(s.drop_first())
    }
}

pub proof fn lemma_word_len_bound(s: Seq<char>)
    ensures
        word_len(s) <= s.len(),
    decreases s.len(),
{
    if s.len() > 0 && !is_whitespace(s[0]) {
        lemma_word_len_bound(s.drop_first());
    }
}

/// The words of `s` as `str::split_whitespace` gives them: the maximal
/// non-empty runs of characters that are not white space, in order.
pub open spec fn words(s: Seq<char>) -> Seq<Seq<char>>
    decreases s.len(),
{
    if s.len() == 0 {
        seq![]
    } else if is_whitespace(s[0]) {
        words(s.drop_first())
    } else {
        let k = word_len(s);
        proof {
            lemma_word_len_bound(s);
        }
        seq![s.take(k as int)] + words(s.skip(k as int))
    }
}

/// Splits the span `lo..hi` of `s` into the spans of its words.
pub fn split_words(s: &Vec<char>, lo: usize, hi: usize) -> (r: Vec<(usize, usize)>)
    requires
        lo <= hi <= s.len(),
    ensures
        r.len() == words(s@.subrange(lo as int, hi as int)).len(),
        forall|i: int|
            0 <= i < r.len() ==> {
                &&& lo <= (#[trigger] r[i]).0 <= r[i].1 <= hi
                &&& s@.subrange(r[i].0 as int, r[i].1 as int) == words(
                    s@.subrange(lo as int, hi as int),
                )[i]
            },
{
    let ghost whole = words(s@.subrange(lo as int, hi as int));
    let mut r: Vec<(usize, usize)> = Vec::new();
    let mut p = lo;
    while p < hi
        invariant
            lo <= p <= hi <= s.len(),
            whole == words(s@.subrange(lo as int, hi as int)),
            whole.len() == r.len() + words(s@.subrange(p as int, hi as int)).len(),
            forall|i: int|
                0 <= i < r.len() ==> {
                    &&& lo <= (#[trigger] r[i]).0 <= r[i].1 <= hi
                    &&& s@.subrange(r[i].0 as int, r[i].1 as int) == whole[i]
                },
            forall|i: int|
                0 <= i < words(s@.subrange(p as int, hi as int)).len() ==> whole[r.len() + i]
                    == #[trigger] words(s@.subrange(p as int, hi as int))[i],
        decreases hi - p,
    {
        let ghost rest_old = words(s@.subrange(p as int, hi as int));
        let ghost old_len = r.len() as int;
        let mut i = p;
        while i < hi && char_is_whitespace(s[i])
            invariant
                p <= i <= hi <= s.len(),
                rest_old == words(s@.subrange(i as int, hi as int)),
            decreases hi - i,
        {
            assert(s@.subrange(i as int, hi as int).drop_first() =~= s@.subrange(
                i + 1,
                hi as int,
            ));
            i = i + 1;
        }
        if i == hi {
            assert(s@.subrange(i as int, hi as int).len() == 0);
            p = hi;
        } else {
            let mut j = i;
            while j < hi && !char_is_whitespace(s[j])
                invariant
                    i <= j <= hi <= s.len(),
                    word_len(s@.subrange(i as int, hi as int)) == (j - i) + word_len(
                        s@.subrange(j as int, hi as int),
                    ),
                decreases hi - j,
            {
                assert(s@.subrange(j as int, hi as int).drop_first() =~= s@.subrange(
                    j + 1,
                    hi as int,
                ));
                j = j + 1;
            }
            let ghost w = s@.subrange(i as int, hi as int);
            assert(word_len(w) == j - i);
            assert(w.take((j - i) as int) =~= s@.subrange(i as int, j as int));
            assert(w.skip((j - i) as int) =~= s@.subrange(j as int, hi as int));
            assert(rest_old == seq![s@.subrange(i as int, j as int)] + words(
                s@.subrange(j as int, hi as int),
            ));
            assert(whole[old_len] == rest_old[0]);
            assert(forall|k: int| 0 <= k < rest_old.len() ==> whole[old_len + k] == rest_old[k]);
            r.push((i, j));
            p = j;
            assert forall|k: int| 0 <= k < words(s@.subrange(p as int, hi as int)).len() implies whole[r.len() + k]
                == #[trigger] words(s@.subrange(p as int, hi as int))[k] by {
                assert(words(s@.subrange(p as int, hi as int))[k] == rest_old[k + 1]);
            }
        }
    }
    assert(words(s@.subrange(p as int, hi as int)).len() == 0);
    r
}

// ---------------------------------------------------------------------------
// Searching
// ---------------------------------------------------------------------------

/// `n` occurs in `s` starting at index `i`.
pub open spec fn occurs_at(s: Seq<char>, n: Seq<char>, i: int) -> bool {
    0 <= i && i + n.len() <= s.len() && s.subrange(i, i + n.len()) == n
}

/// `str::contains`.
pub open spec fn contains(s: Seq<char>, n: Seq<char>) -> bool {
    exists|i: int| occurs_at(s, n, i)
}

pub open spec fn is_first_occurrence(s: Seq<char>, n: Seq<char>, i: int) -> bool {
    occurs_at(s, n, i) && forall|j: int| 0 <= j < i ==> !occurs_at(s, n, j)
}

/// `str::find`, counted in characters: the first index at which `n` occurs.
pub open spec fn find(s: Seq<char>, n: Seq<char>) -> Option<int> {
    if contains(s, n) {
        Some(choose|i: int| is_first_occurrence(s, n, i))
    } else {
        None
    }
}

/// `str::starts_with`.
pub open spec fn starts_with(s: Seq<char>, p: Seq<char>) -> bool {
    p.len() <= s.len() && s.take(p.len() as int) == p
}

pub proof fn lemma_find_is(s: Seq<char>, n: Seq<char>, i: int)
    requires
        is_first_occurrence(s, n, i),
    ensures
        find(s, n) == Some(i),
{
    let k = choose|k: int| is_first_occurrence(s, n, k);
    assert(is_first_occurrence(s, n, k));
}

/// The characters of a string slice, in order.
pub fn chars_of(s: &str) -> (r: Vec<char>)
    ensures
        r@ == s@,
{
    let mut r: Vec<char> = Vec::new();
    for c in it: s.chars()
        invariant
            it.seq() == s@,
            r@ == it.seq().take(it.index() as int),
    {
        r.push(c);
    }
    r
}

/// `n` sits in `s` at index `i`, within the span that ends at `hi`.
pub fn matches_at(s: &Vec<char>, i: usize, hi: usize, n: &Vec<char>) -> (b: bool)
    requires
        i <= hi <= s.len(),
    ensures
        b == (i + n.len() <= hi && s@.subrange(i as int, i + n.len()) == n@),
{
    if n.len() > hi - i {
        return false;
    }
    let mut k: usize = 0;
    while k < n.len()
        invariant
            i + n.len() <= hi <= s.len(),
            0 <= k <= n.len(),
            s@.subrange(i as int, i + k) == n@.take(k as int),
        decreases n.len() - k,
    {
        if s[i + k] != n[k] {
            assert(s@.subrange(i as int, i + n.len())[k as int] == s@[i + k]);
            return false;
        }
        assert(s@.subrange(i as int, i + k + 1) =~= s@.subrange(i as int, i + k).push(s@[i + k]));
        assert(n@.take(k + 1) =~= n@.take(k as int).push(n@[k as int]));
        k = k + 1;
    }
    assert(n@.take(n.len() as int) =~= n@);
    true
}

proof fn lemma_occurs_in_span(s: Seq<char>, lo: int, hi: int, n: Seq<char>, i: int)
    requires
        0 <= lo <= i <= hi <= s.len(),
    ensures
        occurs_at(s.subrange(lo, hi), n, i - lo) == (i + n.len() <= hi && s.subrange(
            i,
            i + n.len(),
        ) == n),
{
    if i + n.len() <= hi {
        assert(s.subrange(lo, hi).subrange(i - lo, i - lo + n.len()) =~= s.subrange(
            i,
            i + n.len(),
        ));
    }
}

/// The first index at which `n` occurs in the span `lo..hi` of `s`.
pub fn find_span(s: &Vec<char>, lo: usize, hi: usize, n: &Vec<char>) -> (r: Option<usize>)
    requires
        lo <= hi <= s.len(),
    ensures
        match r {
            Some(i) => lo <= i && i + n.len() <= hi && find(
                s@.subrange(lo as int, hi as int),
                n@,
            ) == Some(i - lo),
            None => find(s@.subrange(lo as int, hi as int), n@) is None,
        },
{
    let ghost sub = s@.subrange(lo as int, hi as int);
    let mut i = lo;
    while i <= hi
        invariant
            lo <= i <= hi + 1,
            hi <= s.len(),
            sub == s@.subrange(lo as int, hi as int),
            forall|j: int| 0 <= j < i - lo ==> !occurs_at(sub, n@, j),
        decreases hi + 1 - i,
    {
        proof {
            lemma_occurs_in_span(s@, lo as int, hi as int, n@, i as int);
        }
        if matches_at(s, i, hi, n) {
            proof {
                assert(is_first_occurrence(sub, n@, i - lo));
                lemma_find_is(sub, n@, i - lo);
            }
            return Some(i);
        }
        if i == hi {
            assert forall|j: int| #![auto] !occurs_at(sub, n@, j) by {
                if 0 <= j < i - lo + 1 {
                } else if j > i - lo {
                }
            }
            return None;
        }
        i = i + 1;
    }
    None
}

/// `n` occurs in the span `lo..hi` of `s`.
pub fn contains_span(s: &Vec<char>, lo: usize, hi: usize, n: &Vec<char>) -> (b: bool)
    requires
        lo <= hi <= s.len(),
    ensures
        b == contains(s@.subrange(lo as int, hi as int), n@),
{
    match find_span(s, lo, hi, n) {
        Some(i) => {
            true
        },
        None => false,
    }
}

/// The span `lo..hi` of `s` begins with `p`.
pub fn starts_with_span(s: &Vec<char>, lo: usize, hi: usize, p: &Vec<char>) -> (b: bool)
    requires
        lo <= hi <= s.len(),
    ensures
        b == starts_with(s@.subrange(lo as int, hi as int), p@),
{
    let b = matches_at(s, lo, hi, p);
    proof {
        if p.len() <= hi - lo {
            assert(s@.subrange(lo as int, hi as int).take(p.len() as int) =~= s@.subrange(
                lo as int,
                lo + p.len(),
            ));
        }
    }
    b
}

/// The span `lo..hi` of `s` is exactly `t`.
pub fn span_equals(s: &Vec<char>, lo: usize, hi: usize, t: &Vec<char>) -> (b: bool)
    requires
        lo <= hi <= s.len(),
    ensures
        b == (s@.subrange(lo as int, hi as int) == t@),
{
    if hi - lo != t.len() {
        return false;
    }
    matches_at(s, lo, hi, t)
}

/// The last index at which `c` occurs in `s`.
pub open spec fn find_last(s: Seq<char>, c: char) -> Option<int>
    decreases s.len(),
{
    if s.len() == 0 {
        None
    } else if s.last() == c {
        Some(s.len() - 1)
    } else {
        find_last(s.drop_last(), c)
    }
}

/// The last index at which `c` occurs in the span `lo..hi` of `s`.
pub fn find_last_span(s: &Vec<char>, lo: usize, hi: usize, c: char) -> (r: Option<usize>)
    requires
        lo <= hi <= s.len(),
    ensures
        match r {
            Some(i) => lo <= i < hi && find_last(s@.subrange(lo as int, hi as int), c) == Some(
                i - lo,
            ),
            None => find_last(s@.subrange(lo as int, hi as int), c) is None,
        },
{
    let mut j = hi;
    while j > lo
        invariant
            lo <= j <= hi <= s.len(),
            find_last(s@.subrange(lo as int, hi as int), c) == find_last(
                s@.subrange(lo as int, j as int),
                c,
            ),
        decreases j - lo,
    {
        if s[j - 1] == c {
            return Some(j - 1);
        }
        assert(s@.subrange(lo as int, j as int).drop_last() =~= s@.subrange(lo as int, j - 1));
        j = j - 1;
    }
    None
}

// ---------------------------------------------------------------------------
// Building strings
// ---------------------------------------------------------------------------

/// A new `String` holding the span `lo..hi` of `s`.
pub fn string_of_span(s: &Vec<char>, lo: usize, hi: usize) -> (r: String)
    requires
        lo <= hi <= s.len(),
    ensures
        r@ == s@.subrange(lo as int, hi as int),
{
    let mut r = String::new();
    let mut i = lo;
    while i < hi
        invariant
            lo <= i <= hi <= s.len(),
            r@ == s@.subrange(lo as int, i as int),
        decreases hi - i,
    {
        crate::numbers::push_char(&mut r, s[i]);
        assert(s@.subrange(lo as int, i + 1) =~= s@.subrange(lo as int, i as int).push(s@[i as int]));
        i = i + 1;
    }
    r
}

/// Appends `t` to `out`.
pub fn push_str(out: &mut String, t: &str)
    ensures
        final(out)@ == old(out)@ + t@,
{
    let cs = chars_of(t);
    let mut i: usize = 0;
    while i < cs.len()
        invariant
            0 <= i <= cs.len(),
            cs@ == t@,
            out@ == old(out)@ + cs@.take(i as int),
        decreases cs.len() - i,
    {
        crate::numbers::push_char(out, cs[i]);
        assert(cs@.take(i + 1) =~= cs@.take(i as int).push(cs@[i as int]));
        i = i + 1;
    }
    assert(cs@.take(cs.len() as int) =~= cs@);
}

/// Name for what `str::to_lowercase` gives: Unicode lower case, character
/// by character, with the context rule for a final capital sigma.
pub uninterp spec fn lowercase_of(s: Seq<char>) -> Seq<char>;

/// Calls `str::to_lowercase`. Trusted: the result is the lower-case form
/// of `s`, which depends on `s` alone (no locale); the Unicode case tables
/// behind it are not stated, only named by `lowercase_of`.
#[verifier::external_body]
pub(crate) fn lowercase(s: &str) -> (r: String)
    ensures
        r@ == lowercase_of(s@),
{
    s.to_lowercase()
}

} // verus!
