//! Capturing pattern matches over text segments, and the nearest-match scan
//! over a list of segments.

use vstd::prelude::*;

verus! {

/// What matching a pattern against a text gave.
#[derive(Debug, Clone)]
pub enum Captured {
    /// The pattern could not be compiled.
    Invalid,
    /// The pattern compiled and does not match the text.
    Miss,
    /// The pattern matches; the groups in order of their opening parenthesis,
    /// the whole match first, and `None` for a group that took no part.
    Hit(Vec<Option<String>>),
}

/// The mathematical value of a `Captured`.
pub ghost enum Outcome {
    Invalid,
    Miss,
    Hit(Seq<Option<Seq<char>>>),
}

/// The text of each group.
pub open spec fn group_texts(groups: Seq<Option<String>>) -> Seq<Option<Seq<char>>> {
    groups.map_values(
        |g: Option<String>|
            match g {
                Some(s) => Some(s@),
                None => None,
            },
    )
}

impl View for Captured {
    type V = Outcome;

    open spec fn view(&self) -> Outcome {
        match self {
            Captured::Invalid => Outcome::Invalid,
            Captured::Miss => Outcome::Miss,
            Captured::Hit(groups) => Outcome::Hit(group_texts(groups@)),
        }
    }
}

/// The outcome of compiling `pattern` with the regex engine and asking for the
/// leftmost match in `haystack` with its capture groups.
pub uninterp spec fn regex_captures(pattern: Seq<char>, haystack: Seq<char>) -> Outcome;

/// Compiles `pattern` with `regex::Regex::new` and runs `Regex::captures` on
/// `haystack`. Not proved: that the value returned is the engine's answer for
/// these two texts, which `regex_captures` names. A pattern that the engine
/// rejects gives `Invalid`, no match gives `Miss`, and a match gives every
/// group that `Captures::iter` yields, as text.
#[verifier::external_body]
fn capture(pattern: &str, haystack: &str) -> (r: Captured)
    ensures
        r@ == regex_captures(pattern@, haystack@),
{
    match regex::Regex::new(pattern) {
        Err(_) => Captured::Invalid,
        Ok(re) => match re.captures(haystack) {
            None => Captured::Miss,
            Some(caps) => Captured::Hit(
                caps.iter().map(|g| g.map(|m| m.as_str().to_string())).collect(),
            ),
        },
    }
}

/// The first and second capture group of a match in which both took part.
pub open spec fn pair_of(o: Outcome) -> Option<(Seq<char>, Seq<char>)> {
    match o {
        Outcome::Hit(groups) => if groups.len() >= 3 && groups[1] is Some && groups[2] is Some {
            Some((groups[1]->0, groups[2]->0))
        } else {
            None
        },
        _ => None,
    }
}

/// The whole matched text.
pub open spec fn whole_of(o: Outcome) -> Option<Seq<char>> {
    match o {
        Outcome::Hit(groups) => if groups.len() >= 1 && groups[0] is Some {
            Some(groups[0]->0)
        } else {
            None
        },
        _ => None,
    }
}

/// The character sequences of an optional pair of strings.
pub open spec fn pair_view(p: Option<(String, String)>) -> Option<(Seq<char>, Seq<char>)> {
    match p {
        Some((a, b)) => Some((a@, b@)),
        None => None,
    }
}

/// The character sequence of an optional string.
pub open spec fn text_view(t: Option<String>) -> Option<Seq<char>> {
    match t {
        Some(s) => Some(s@),
        None => None,
    }
}

/// The pair captured in the last segment that matches, if any segment does.
pub open spec fn nearest_pair(pattern: Seq<char>, segs: Seq<Seq<char>>) -> Option<
    (Seq<char>, Seq<char>),
>
    decreases segs.len(),
{
    if segs.len() == 0 {
        None
    } else {
        match pair_of(regex_captures(pattern, segs.last())) {
            Some(p) => Some(p),
            None => nearest_pair(pattern, segs.drop_last()),
        }
    }
}

/// `pattern` captures a pair in the segment at `i`.
pub open spec fn matches_segment(pattern: Seq<char>, segs: Seq<Seq<char>>, i: int) -> bool {
    0 <= i < segs.len() && pair_of(regex_captures(pattern, segs[i])) is Some
}

/// The place of the last segment that matches, if any segment does.
pub open spec fn nearest_index(pattern: Seq<char>, segs: Seq<Seq<char>>) -> Option<int>
    decreases segs.len(),
{
    if segs.len() == 0 {
        None
    } else if pair_of(regex_captures(pattern, segs.last())) is Some {
        Some(segs.len() - 1)
    } else {
        nearest_index(pattern, segs.drop_last())
    }
}

/// The scan gives the pair of the segment at `nearest_index`, which matches
/// and is followed by no segment that matches; it gives nothing exactly when
/// no segment matches.
pub proof fn law_nearest_pair_source(pattern: Seq<char>, segs: Seq<Seq<char>>)
    ensures
        match nearest_index(pattern, segs) {
            Some(k) => {
                &&& matches_segment(pattern, segs, k)
                &&& nearest_pair(pattern, segs) == pair_of(regex_captures(pattern, segs[k]))
                &&& forall|m: int| k < m < segs.len() ==> !matches_segment(pattern, segs, m)
            },
            None => {
                &&& nearest_pair(pattern, segs) is None
                &&& forall|m: int| !matches_segment(pattern, segs, m)
            },
        },
    decreases segs.len(),
{
    if segs.len() > 0 {
        let head = segs.drop_last();
        law_nearest_pair_source(pattern, head);
        if pair_of(regex_captures(pattern, segs.last())) is None {
            assert forall|m: int| matches_segment(pattern, segs, m) implies matches_segment(
                pattern,
                head,
                m,
            ) by {
                assert(head[m] == segs[m]);
            }
            match nearest_index(pattern, head) {
                Some(k) => {
                    assert(head[k] == segs[k]);
                },
                None => {},
            }
        }
    }
}

/// Nearness: where two segments match, the pair comes from a segment that is
/// no earlier than the later of the two, never from the earlier one.
pub proof fn law_nearest_segment_wins(pattern: Seq<char>, segs: Seq<Seq<char>>, i: int, j: int)
    requires
        i < j,
        matches_segment(pattern, segs, i),
        matches_segment(pattern, segs, j),
    ensures
        nearest_index(pattern, segs) is Some,
        nearest_index(pattern, segs)->0 >= j,
        nearest_index(pattern, segs)->0 != i,
        nearest_pair(pattern, segs) == pair_of(
            regex_captures(pattern, segs[nearest_index(pattern, segs)->0]),
        ),
{
    law_nearest_pair_source(pattern, segs);
}

/// Nearness: the pair comes from the segment at `j` when it matches and no
/// segment after it does.
pub proof fn law_last_match_is_source(pattern: Seq<char>, segs: Seq<Seq<char>>, j: int)
    requires
        matches_segment(pattern, segs, j),
        forall|m: int| j < m < segs.len() ==> !matches_segment(pattern, segs, m),
    ensures
        nearest_index(pattern, segs) == Some(j),
        nearest_pair(pattern, segs) == pair_of(regex_captures(pattern, segs[j])),
{
    law_nearest_pair_source(pattern, segs);
}

/// Reads the first two capture groups out of a match.
pub fn capture_pair(outcome: &Captured) -> (r: Option<(String, String)>)
    ensures
        pair_view(r) == pair_of(outcome@),
{
    match outcome {
        Captured::Hit(groups) => {
            if groups.len() >= 3 {
                match (&groups[1], &groups[2]) {
                    (Some(a), Some(b)) => Some((a.clone(), b.clone())),
                    _ => None,
                }
            } else {
                None
            }
        },
        _ => None,
    }
}

/// Reads the whole matched text out of a match.
pub fn capture_whole(outcome: &Captured) -> (r: Option<String>)
    ensures
        text_view(r) == whole_of(outcome@),
{
    match outcome {
        Captured::Hit(groups) => {
            if groups.len() >= 1 {
                match &groups[0] {
                    Some(a) => Some(a.clone()),
                    None => None,
                }
            } else {
                None
            }
        },
        _ => None,
    }
}

/// Matches `pattern` against `haystack` and reads the first two groups.
pub fn match_pair(pattern: &str, haystack: &str) -> (r: Option<(String, String)>)
    ensures
        pair_view(r) == pair_of(regex_captures(pattern@, haystack@)),
{
    let outcome = capture(pattern, haystack);
    capture_pair(&outcome)
}

/// Matches `pattern` against `haystack` and reads the whole match.
pub fn match_whole(pattern: &str, haystack: &str) -> (r: Option<String>)
    ensures
        text_view(r) == whole_of(regex_captures(pattern@, haystack@)),
{
    let outcome = capture(pattern, haystack);
    capture_whole(&outcome)
}

/// Scans the segments from the last to the first and returns the pair
/// captured in the first one that matches.
pub fn nearest_match(pattern: &str, segs: &Vec<String>) -> (r: Option<(String, String)>)
    ensures
        pair_view(r) == nearest_pair(pattern@, crate::text::texts(segs@)),
{
    let mut i: usize = segs.len();
    proof {
        let all = crate::text::texts(segs@);
        assert(all.subrange(0, i as int) == all);
    }
    while i > 0
        invariant
            i <= segs.len(),
            nearest_pair(pattern@, crate::text::texts(segs@)) == nearest_pair(
                pattern@,
                crate::text::texts(segs@).subrange(0, i as int),
            ),
        decreases i,
    {
        let found = match_pair(pattern, segs[i - 1].as_str());
        proof {
            let all = crate::text::texts(segs@);
            let upto = all.subrange(0, i as int);
            assert(upto.last() == segs[i - 1]@);
            assert(upto.drop_last() == all.subrange(0, i - 1));
        }
        if found.is_some() {
            return found;
        }
        i -= 1;
    }
    None
}

} // verus!
