//! Character-level text operations: collapsing layout whitespace, locating a
//! phrase, and cutting a text into sentence segments.

use vstd::prelude::*;
use vstd::string::*;

verus! {

/// The characters that page markup scatters through numbers and dates.
pub open spec fn is_layout(c: char) -> bool {
    c == '\n' || c == '\r' || c == ' '
}

/// A text with every layout character removed.
pub open spec fn without_layout(s: Seq<char>) -> Seq<char> {
    s.filter(|c: char| !is_layout(c))
}

/// The full-width comma, the full-width semicolon and the ideographic full stop.
pub open spec fn is_delimiter(c: char) -> bool {
    c == '\u{ff0c}' || c == '\u{ff1b}' || c == '\u{3002}'
}

/// The characters with the Unicode property White_Space.
pub open spec fn is_whitespace(c: char) -> bool {
    ('\u{9}' <= c && c <= '\u{d}') || c == ' ' || c == '\u{85}' || c == '\u{a0}' || c
        == '\u{1680}' || ('\u{2000}' <= c && c <= '\u{200a}') || c == '\u{2028}' || c
        == '\u{2029}' || c == '\u{202f}' || c == '\u{205f}' || c == '\u{3000}'
}

/// A text without the whitespace at its two ends.
pub open spec fn trimmed(s: Seq<char>) -> Seq<char>
    decreases s.len(),
{
    if s.len() > 0 && is_whitespace(s[0]) {
        trimmed(s.drop_first())
    } else if s.len() > 0 && is_whitespace(s.last()) {
        trimmed(s.drop_last())
    } else {
        s
    }
}

/// `pat` stands in `text` at character offset `i`.
pub open spec fn occurs_at(text: Seq<char>, pat: Seq<char>, i: int) -> bool {
    0 <= i && i + pat.len() <= text.len() && text.subrange(i, i + pat.len()) == pat
}

/// `i` is the least offset at which `pat` stands in `text`.
pub open spec fn is_first_occurrence(text: Seq<char>, pat: Seq<char>, i: int) -> bool {
    occurs_at(text, pat, i) && forall|j: int| 0 <= j < i ==> !occurs_at(text, pat, j)
}

/// The least offset at which `pat` stands in `text`, if it stands anywhere.
pub open spec fn first_occurrence(text: Seq<char>, pat: Seq<char>) -> Option<int> {
    if exists|i: int| occurs_at(text, pat, i) {
        Some(choose|i: int| is_first_occurrence(text, pat, i))
    } else {
        None
    }
}

/// The pieces between delimiters, in text order. A text with `k` delimiters
/// has `k + 1` segments, some of which may be empty.
pub open spec fn segments(s: Seq<char>) -> Seq<Seq<char>>
    decreases s.len(),
{
    if s.len() == 0 {
        seq![Seq::<char>::empty()]
    } else {
        let head = segments(s.drop_last());
        if is_delimiter(s.last()) {
            head.push(Seq::<char>::empty())
        } else {
            head.drop_last().push(head.last().push(s.last()))
        }
    }
}

/// The character sequences that a vector of strings holds.
pub open spec fn texts(v: Seq<String>) -> Seq<Seq<char>> {
    v.map_values(|s: String| s@)
}

/// A least offset is the only least offset.
pub proof fn lemma_first_occurrence_unique(text: Seq<char>, pat: Seq<char>, i: int)
    requires
        is_first_occurrence(text, pat, i),
    ensures
        first_occurrence(text, pat) == Some(i),
{
    let k = choose|k: int| is_first_occurrence(text, pat, k);
    assert(occurs_at(text, pat, i));
    assert(is_first_occurrence(text, pat, k));
    if k < i {
        assert(!occurs_at(text, pat, k));
    }
    if i < k {
        assert(!occurs_at(text, pat, i));
    }
}

/// A phrase that stands nowhere has no first occurrence.
pub proof fn lemma_no_occurrence(text: Seq<char>, pat: Seq<char>)
    requires
        forall|i: int| !occurs_at(text, pat, i),
    ensures
        first_occurrence(text, pat) is None,
{
}

/// Every segment list has at least one segment.
pub proof fn lemma_segments_nonempty(s: Seq<char>)
    ensures
        segments(s).len() >= 1,
    decreases s.len(),
{
    if s.len() > 0 {
        lemma_segments_nonempty(s.drop_last());
    }
}

/// A trimmed text neither starts nor ends with whitespace.
pub proof fn law_trimmed_ends(s: Seq<char>)
    ensures
        trimmed(s).len() <= s.len(),
        trimmed(s).len() > 0 ==> !is_whitespace(trimmed(s)[0]) && !is_whitespace(
            trimmed(s).last(),
        ),
    decreases s.len(),
{
    if s.len() > 0 && is_whitespace(s[0]) {
        law_trimmed_ends(s.drop_first());
    } else if s.len() > 0 && is_whitespace(s.last()) {
        law_trimmed_ends(s.drop_last());
    }
}

/// The number of delimiters in a text.
pub open spec fn delimiter_count(s: Seq<char>) -> nat {
    s.filter(|c: char| is_delimiter(c)).len()
}

/// A text has one segment more than it has delimiters.
pub proof fn law_segment_count(s: Seq<char>)
    ensures
        segments(s).len() == delimiter_count(s) + 1,
    decreases s.len(),
{
    reveal(Seq::filter);
    if s.len() > 0 {
        law_segment_count(s.drop_last());
    }
}

/// No segment holds a delimiter.
pub proof fn law_segments_hold_no_delimiter(s: Seq<char>, i: int, j: int)
    requires
        0 <= i < segments(s).len(),
        0 <= j < segments(s)[i].len(),
    ensures
        !is_delimiter(segments(s)[i][j]),
    decreases s.len(),
{
    if s.len() > 0 {
        let head = segments(s.drop_last());
        lemma_segments_nonempty(s.drop_last());
        if is_delimiter(s.last()) {
            if i < head.len() {
                law_segments_hold_no_delimiter(s.drop_last(), i, j);
            }
        } else {
            if i < head.len() - 1 {
                law_segments_hold_no_delimiter(s.drop_last(), i, j);
            } else if j < head.last().len() {
                law_segments_hold_no_delimiter(s.drop_last(), i, j);
            }
        }
    }
}

/// A text without delimiters is its own single segment.
pub proof fn law_uncut_text_is_one_segment(s: Seq<char>)
    requires
        forall|k: int| 0 <= k < s.len() ==> !is_delimiter(#[trigger] s[k]),
    ensures
        segments(s) == seq![s],
    decreases s.len(),
{
    if s.len() > 0 {
        law_uncut_text_is_one_segment(s.drop_last());
        assert(segments(s) =~= seq![s.drop_last().push(s.last())]);
        assert(s.drop_last().push(s.last()) == s);
    } else {
        assert(s == Seq::<char>::empty());
    }
}

/// Removes newlines, carriage returns and spaces.
pub fn strip_layout(s: &str) -> (r: String)
    ensures
        r@ == without_layout(s@),
{
    let n = s.unicode_len();
    let mut out = String::new();
    let mut i: usize = 0;
    while i < n
        invariant
            n == s@.len(),
            i <= n,
            out@ == without_layout(s@.subrange(0, i as int)),
        decreases n - i,
    {
        let c = s.get_char(i);
        proof {
            let next = s@.subrange(0, i + 1);
            assert(next.drop_last() == s@.subrange(0, i as int));
            assert(next.last() == c);
            assert(s@.subrange(i as int, i + 1) == seq![c]);
            reveal(Seq::filter);
        }
        if !(c == '\n' || c == '\r' || c == ' ') {
            out.append(s.substring_char(i, i + 1));
        }
        i += 1;
    }
    proof {
        assert(s@.subrange(0, n as int) == s@);
    }
    out
}

/// Whether `c` is whitespace.
pub fn is_space(c: char) -> (r: bool)
    ensures
        r == is_whitespace(c),
{
    ('\u{9}' <= c && c <= '\u{d}') || c == ' ' || c == '\u{85}' || c == '\u{a0}' || c
        == '\u{1680}' || ('\u{2000}' <= c && c <= '\u{200a}') || c == '\u{2028}' || c
        == '\u{2029}' || c == '\u{202f}' || c == '\u{205f}' || c == '\u{3000}'
}

/// Removes the whitespace at the two ends of `s`.
pub fn trim(s: &str) -> (r: String)
    ensures
        r@ == trimmed(s@),
{
    let n = s.unicode_len();
    let mut a: usize = 0;
    let mut scanning = true;
    proof {
        assert(s@.subrange(0, n as int) == s@);
    }
    while scanning && a < n
        invariant
            n == s@.len(),
            a <= n,
            trimmed(s@) == trimmed(s@.subrange(a as int, n as int)),
            !scanning ==> a < n && !is_whitespace(s@[a as int]),
        decreases n - a + (if scanning { 1int } else { 0int }),
    {
        if is_space(s.get_char(a)) {
            proof {
                let cur = s@.subrange(a as int, n as int);
                assert(cur[0] == s@[a as int]);
                assert(cur.drop_first() == s@.subrange(a + 1, n as int));
            }
            a += 1;
        } else {
            scanning = false;
        }
    }
    let mut b: usize = n;
    scanning = true;
    while scanning && b > a
        invariant
            n == s@.len(),
            a <= b <= n,
            trimmed(s@) == trimmed(s@.subrange(a as int, b as int)),
            a < n ==> !is_whitespace(s@[a as int]),
            !scanning ==> b > a && !is_whitespace(s@[b - 1]),
        decreases b - a + (if scanning { 1int } else { 0int }),
    {
        if is_space(s.get_char(b - 1)) {
            proof {
                let cur = s@.subrange(a as int, b as int);
                assert(cur[0] == s@[a as int]);
                assert(cur.last() == s@[b - 1]);
                assert(cur.drop_last() == s@.subrange(a as int, b - 1));
            }
            b -= 1;
        } else {
            scanning = false;
        }
    }
    proof {
        let cur = s@.subrange(a as int, b as int);
        if b > a {
            assert(cur[0] == s@[a as int]);
            assert(cur.last() == s@[b - 1]);
        }
    }
    String::from_str(s.substring_char(a, b))
}

/// Whether `pat` stands in `text` at character offset `at`.
pub fn matches_at(text: &str, pat: &str, at: usize) -> (r: bool)
    ensures
        r == occurs_at(text@, pat@, at as int),
{
    let n = text.unicode_len();
    let m = pat.unicode_len();
    if m > n || at > n - m {
        return false;
    }
    let mut k: usize = 0;
    while k < m
        invariant
            n == text@.len(),
            m == pat@.len(),
            k <= m,
            at + m <= n,
            forall|j: int| 0 <= j < k ==> text@[at + j] == pat@[j],
        decreases m - k,
    {
        if text.get_char(at + k) != pat.get_char(k) {
            proof {
                assert(text@.subrange(at as int, at + m)[k as int] == text@[at + k]);
            }
            return false;
        }
        k += 1;
    }
    proof {
        assert(text@.subrange(at as int, at + m) =~= pat@);
    }
    true
}

/// The character offset of the first occurrence of `pat` in `text`.
pub fn find_first(text: &str, pat: &str) -> (r: Option<usize>)
    ensures
        match r {
            Some(i) => is_first_occurrence(text@, pat@, i as int),
            None => forall|j: int| !occurs_at(text@, pat@, j),
        },
        match r {
            Some(i) => first_occurrence(text@, pat@) == Some(i as int),
            None => first_occurrence(text@, pat@) is None,
        },
{
    let n = text.unicode_len();
    let m = pat.unicode_len();
    if m > n {
        return None;
    }
    let last: usize = n - m;
    let mut i: usize = 0;
    while i <= last
        invariant
            n == text@.len(),
            m == pat@.len(),
            last == n - m,
            i <= last + 1,
            forall|j: int| 0 <= j < i ==> !occurs_at(text@, pat@, j),
        decreases last + 1 - i,
    {
        if matches_at(text, pat, i) {
            proof {
                lemma_first_occurrence_unique(text@, pat@, i as int);
            }
            return Some(i);
        }
        if i == last {
            return None;
        }
        i += 1;
    }
    None
}

/// Cuts `text` at every delimiter.
pub fn split_segments(text: &str) -> (r: Vec<String>)
    ensures
        texts(r@) == segments(text@),
{
    let n = text.unicode_len();
    let mut out: Vec<String> = Vec::new();
    let mut start: usize = 0;
    let mut i: usize = 0;
    proof {
        assert(text@.subrange(0, 0) =~= Seq::<char>::empty());
        assert(texts(out@) =~= Seq::<Seq<char>>::empty());
        assert(segments(text@.subrange(0, 0)) =~= seq![Seq::<char>::empty()]);
    }
    while i < n
        invariant
            n == text@.len(),
            start <= i <= n,
            segments(text@.subrange(0, i as int)) == texts(out@).push(
                text@.subrange(start as int, i as int),
            ),
        decreases n - i,
    {
        let c = text.get_char(i);
        proof {
            let next = text@.subrange(0, i + 1);
            assert(next.drop_last() == text@.subrange(0, i as int));
            assert(next.last() == c);
            let head = segments(next.drop_last());
            assert(head.drop_last() == texts(out@));
            assert(head.last() == text@.subrange(start as int, i as int));
            assert(text@.subrange(start as int, i as int).push(c) == text@.subrange(
                start as int,
                i + 1,
            ));
        }
        if c == '\u{ff0c}' || c == '\u{ff1b}' || c == '\u{3002}' {
            let piece = String::from_str(text.substring_char(start, i));
            proof {
                assert(texts(out@.push(piece)) == texts(out@).push(piece@));
                assert(text@.subrange(i + 1, i + 1) == Seq::<char>::empty());
            }
            out.push(piece);
            start = i + 1;
        }
        i += 1;
    }
    let piece = String::from_str(text.substring_char(start, n));
    proof {
        assert(text@.subrange(0, n as int) == text@);
        assert(texts(out@.push(piece)) == texts(out@).push(piece@));
    }
    out.push(piece);
    out
}

} // verus!
