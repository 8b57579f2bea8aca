//! The fact extractor: from one paragraph of bulletin prose to the test count
//! and the positivity rate reported around a marker phrase.

use vstd::prelude::*;
use vstd::string::*;
use crate::number::{
    check_rate, is_rate, normalize_number, normalized, NormalizedNumber, NumberView, ParseError,
};
use crate::pattern::{
    law_last_match_is_source, law_nearest_pair_source, matches_segment, nearest_index,
    nearest_match, nearest_pair, pair_of, pair_view, regex_captures,
};
use crate::text::{
    find_first, first_occurrence, occurs_at, segments, split_segments, strip_layout,
    without_layout,
};

verus! {

/// The phrase that announces the positivity rate.
pub const MARKER: &'static str = "检测阳性率";

/// A date, a gap of one to six characters, and a count that may carry the
/// ten-thousand suffix. Group 1 is the date, group 2 the count.
pub const DATE_COUNT_PATTERN: &'static str =
    "((?:\\d{4}年)?\\d+月\\d+日).{1,6}?((?:\\d+\\.)?\\d+(?:万)?)";

/// A date, a gap of one to four characters, and a rate: digits, a point and
/// digits, which a percent sign may follow. Group 1 is the date, group 2 the
/// rate with its sign, group 3 the digits after the point.
pub const DATE_PERCENT_PATTERN: &'static str =
    "((?:\\d{4}年)?\\d+月\\d+日).{1,4}?(\\d+\\.(\\d+)%?)";

/// The two figures of one bulletin, each with the date it was reported for.
/// The rate is kept as written, with its percent sign where the text has
/// one, and always has the shape of a number with a fractional part.
#[derive(Debug, Clone)]
pub struct ExtractedFact {
    pub count: NormalizedNumber,
    pub count_date: String,
    pub positive_percent: String,
    pub positive_percent_date: String,
}

/// The mathematical value of an `ExtractedFact`.
pub ghost struct FactView {
    pub count: NumberView,
    pub count_date: Seq<char>,
    pub positive_percent: Seq<char>,
    pub positive_percent_date: Seq<char>,
}

impl ExtractedFact {
    /// The count is a decimal number and the rate has the shape of a number
    /// with a fractional part.
    pub open spec fn wf(&self) -> bool {
        self.count.wf() && is_rate(self.positive_percent@)
    }
}

impl View for ExtractedFact {
    type V = FactView;

    open spec fn view(&self) -> FactView {
        FactView {
            count: self.count@,
            count_date: self.count_date@,
            positive_percent: self.positive_percent@,
            positive_percent_date: self.positive_percent_date@,
        }
    }
}

/// The mathematical value of an optional fact.
pub open spec fn fact_view(f: Option<ExtractedFact>) -> Option<FactView> {
    match f {
        Some(x) => Some(x@),
        None => None,
    }
}

/// The fact that a date/count pair and a date/rate pair make: present when
/// both pairs are, the rate has the shape of a number with a fractional part
/// (one point, neither first nor last, before an optional percent sign) and
/// the count is a decimal number. The rate is stored as it was captured,
/// whatever digits it is written in.
pub open spec fn assembled(
    before: Option<(Seq<char>, Seq<char>)>,
    after: Option<(Seq<char>, Seq<char>)>,
) -> Option<FactView> {
    match (before, after) {
        (Some((count_date, literal)), Some((percent_date, percent))) => if is_rate(percent) {
            match normalized(literal) {
                Ok(count) => Some(
                    FactView {
                        count,
                        count_date,
                        positive_percent: percent,
                        positive_percent_date: percent_date,
                    },
                ),
                Err(_) => None,
            }
        } else {
            None
        },
        _ => None,
    }
}

/// The text before the first `marker`, once layout is removed.
pub open spec fn text_before(paragraph: Seq<char>, marker: Seq<char>) -> Seq<char>
    recommends
        first_occurrence(without_layout(paragraph), marker) is Some,
{
    let t = without_layout(paragraph);
    t.subrange(0, first_occurrence(t, marker)->0)
}

/// The text after the first `marker`, once layout is removed.
pub open spec fn text_after(paragraph: Seq<char>, marker: Seq<char>) -> Seq<char>
    recommends
        first_occurrence(without_layout(paragraph), marker) is Some,
{
    let t = without_layout(paragraph);
    t.subrange(first_occurrence(t, marker)->0 + marker.len(), t.len() as int)
}

/// The fact that a paragraph reports around `marker`.
pub open spec fn fact_of(paragraph: Seq<char>, marker: Seq<char>) -> Option<FactView> {
    if first_occurrence(without_layout(paragraph), marker) is Some {
        assembled(
            nearest_pair(DATE_COUNT_PATTERN@, segments(text_before(paragraph, marker))),
            nearest_pair(DATE_PERCENT_PATTERN@, segments(text_after(paragraph, marker))),
        )
    } else {
        None
    }
}

/// Nearness of the count: where the segment at `j` before the marker matches
/// and none between it and the marker does, a fact that is reported has its
/// count and the count's date from that segment.
pub proof fn law_count_from_nearest_segment(paragraph: Seq<char>, marker: Seq<char>, j: int)
    requires
        first_occurrence(without_layout(paragraph), marker) is Some,
        matches_segment(DATE_COUNT_PATTERN@, segments(text_before(paragraph, marker)), j),
        forall|m: int|
            j < m ==> !matches_segment(
                DATE_COUNT_PATTERN@,
                segments(text_before(paragraph, marker)),
                m,
            ),
    ensures
        fact_of(paragraph, marker) is Some ==> ({
            let fact = fact_of(paragraph, marker)->0;
            let pair = pair_of(
                regex_captures(DATE_COUNT_PATTERN@, segments(text_before(paragraph, marker))[j]),
            )->0;
            &&& fact.count_date == pair.0
            &&& normalized(pair.1) == Ok::<NumberView, ParseError>(fact.count)
        }),
{
    law_last_match_is_source(DATE_COUNT_PATTERN@, segments(text_before(paragraph, marker)), j);
}

/// The rate: where the segment at `j` after the marker matches and none
/// after it does, a fact that is reported has its rate and the rate's date
/// from that segment, the rate as the pattern captured it.
pub proof fn law_rate_from_last_segment(paragraph: Seq<char>, marker: Seq<char>, j: int)
    requires
        first_occurrence(without_layout(paragraph), marker) is Some,
        matches_segment(DATE_PERCENT_PATTERN@, segments(text_after(paragraph, marker)), j),
        forall|m: int|
            j < m ==> !matches_segment(
                DATE_PERCENT_PATTERN@,
                segments(text_after(paragraph, marker)),
                m,
            ),
    ensures
        fact_of(paragraph, marker) is Some ==> ({
            let fact = fact_of(paragraph, marker)->0;
            let pair = pair_of(
                regex_captures(DATE_PERCENT_PATTERN@, segments(text_after(paragraph, marker))[j]),
            )->0;
            &&& fact.positive_percent_date == pair.0
            &&& fact.positive_percent == pair.1
        }),
{
    law_last_match_is_source(DATE_PERCENT_PATTERN@, segments(text_after(paragraph, marker)), j);
}

/// A fact is reported exactly when the marker stands in the paragraph, a
/// segment before it and a segment after it match, and the count captured
/// is a decimal number.
pub proof fn law_fact_presence(paragraph: Seq<char>, marker: Seq<char>)
    ensures
        fact_of(paragraph, marker) is Some <==> {
            &&& first_occurrence(without_layout(paragraph), marker) is Some
            &&& nearest_pair(DATE_COUNT_PATTERN@, segments(text_before(paragraph, marker))) is Some
            &&& nearest_pair(
                DATE_PERCENT_PATTERN@,
                segments(text_after(paragraph, marker)),
            ) is Some
            &&& match nearest_pair(
                DATE_COUNT_PATTERN@,
                segments(text_before(paragraph, marker)),
            ) {
                Some((_, literal)) => normalized(literal) is Ok,
                None => false,
            }
            &&& match nearest_pair(
                DATE_PERCENT_PATTERN@,
                segments(text_after(paragraph, marker)),
            ) {
                Some((_, percent)) => is_rate(percent),
                None => false,
            }
        },
{
}

/// The pair that the count pattern captures in the segment at `j` before
/// the marker.
pub open spec fn count_capture(paragraph: Seq<char>, marker: Seq<char>, j: int) -> (
    Seq<char>,
    Seq<char>,
)
    recommends
        matches_segment(DATE_COUNT_PATTERN@, segments(text_before(paragraph, marker)), j),
{
    pair_of(regex_captures(DATE_COUNT_PATTERN@, segments(text_before(paragraph, marker))[j]))->0
}

/// The pair that the rate pattern captures after the marker, if it
/// captures one.
pub open spec fn rate_capture(paragraph: Seq<char>, marker: Seq<char>) -> Option<
    (Seq<char>, Seq<char>),
> {
    nearest_pair(DATE_PERCENT_PATTERN@, segments(text_after(paragraph, marker)))
}

/// The pair that the rate pattern captures after the marker.
pub open spec fn rate_pair(paragraph: Seq<char>, marker: Seq<char>) -> (Seq<char>, Seq<char>)
    recommends
        rate_capture(paragraph, marker) is Some,
{
    rate_capture(paragraph, marker)->0
}

/// The captures around the marker are well shaped: a rate is captured after
/// it and has the shape of a number with a fractional part, and the count
/// captured in the segment at `j` before it is a decimal number.
pub open spec fn well_shaped(paragraph: Seq<char>, marker: Seq<char>, j: int) -> bool {
    &&& rate_capture(paragraph, marker) is Some
    &&& is_rate(rate_pair(paragraph, marker).1)
    &&& normalized(count_capture(paragraph, marker, j).1) is Ok
}

/// Nearness, with presence: where the marker stands in the paragraph, the
/// segment at `j` before it matches and none between it and the marker does,
/// and the captures are well shaped, a fact is reported, and its count and
/// the count's date are those captured in the segment at `j`.
pub proof fn law_nearest_count_is_reported(paragraph: Seq<char>, marker: Seq<char>, j: int)
    requires
        first_occurrence(without_layout(paragraph), marker) is Some,
        matches_segment(DATE_COUNT_PATTERN@, segments(text_before(paragraph, marker)), j),
        forall|m: int|
            j < m ==> !matches_segment(
                DATE_COUNT_PATTERN@,
                segments(text_before(paragraph, marker)),
                m,
            ),
        well_shaped(paragraph, marker, j),
    ensures
        fact_of(paragraph, marker) is Some,
        fact_of(paragraph, marker)->0.count_date == count_capture(paragraph, marker, j).0,
        normalized(count_capture(paragraph, marker, j).1) == Ok::<NumberView, ParseError>(
            fact_of(paragraph, marker)->0.count,
        ),
        fact_of(paragraph, marker)->0.positive_percent_date == rate_pair(paragraph, marker).0,
        fact_of(paragraph, marker)->0.positive_percent == rate_pair(paragraph, marker).1,
{
    law_last_match_is_source(DATE_COUNT_PATTERN@, segments(text_before(paragraph, marker)), j);
}

/// Nearness between two segments: where the segments at `i` and at `j`
/// before the marker both match, `i` before `j`, the count comes from the
/// matching segment closest to the marker, which is no earlier than `j` and
/// never the one at `i`; where the captures there are well shaped, the fact
/// is reported.
pub proof fn law_closer_count_wins(paragraph: Seq<char>, marker: Seq<char>, i: int, j: int)
    requires
        first_occurrence(without_layout(paragraph), marker) is Some,
        i < j,
        matches_segment(DATE_COUNT_PATTERN@, segments(text_before(paragraph, marker)), i),
        matches_segment(DATE_COUNT_PATTERN@, segments(text_before(paragraph, marker)), j),
    ensures
        nearest_index(DATE_COUNT_PATTERN@, segments(text_before(paragraph, marker))) is Some,
        ({
            let k = nearest_index(
                DATE_COUNT_PATTERN@,
                segments(text_before(paragraph, marker)),
            )->0;
            &&& k >= j
            &&& k != i
            &&& matches_segment(DATE_COUNT_PATTERN@, segments(text_before(paragraph, marker)), k)
            &&& fact_of(paragraph, marker) is Some <==> well_shaped(paragraph, marker, k)
            &&& fact_of(paragraph, marker) is Some ==> {
                &&& fact_of(paragraph, marker)->0.count_date == count_capture(
                    paragraph,
                    marker,
                    k,
                ).0
                &&& normalized(count_capture(paragraph, marker, k).1) == Ok::<
                    NumberView,
                    ParseError,
                >(fact_of(paragraph, marker)->0.count)
            }
        }),
{
    law_nearest_pair_source(DATE_COUNT_PATTERN@, segments(text_before(paragraph, marker)));
}

/// A rate that is reported has the shape of a number with a fractional
/// part: a paragraph whose captured rate lacks it reports no fact.
pub proof fn law_rate_has_fraction(paragraph: Seq<char>, marker: Seq<char>)
    ensures
        fact_of(paragraph, marker) is Some ==> is_rate(
            fact_of(paragraph, marker)->0.positive_percent,
        ),
{
}

/// Pairs whose rate lacks the shape of a number with a fractional part make
/// no fact.
pub proof fn law_whole_rate_makes_no_fact(
    before: Option<(Seq<char>, Seq<char>)>,
    percent_date: Seq<char>,
    percent: Seq<char>,
)
    requires
        !is_rate(percent),
    ensures
        assembled(before, Some((percent_date, percent))) is None,
{
}

/// Builds the fact from the two captured pairs.
pub fn assemble_fact(before: Option<(String, String)>, after: Option<(String, String)>) -> (r:
    Option<ExtractedFact>)
    ensures
        fact_view(r) == assembled(pair_view(before), pair_view(after)),
        r is Some ==> r->0.wf(),
{
    match (before, after) {
        (Some((count_date, literal)), Some((percent_date, percent))) => {
            if !check_rate(percent.as_str()) {
                return None;
            }
            match normalize_number(literal.as_str()) {
                Ok(count) => Some(
                    ExtractedFact {
                        count,
                        count_date,
                        positive_percent: percent,
                        positive_percent_date: percent_date,
                    },
                ),
                Err(_) => None,
            }
        },
        _ => None,
    }
}

/// Extracts the fact that `paragraph_text` reports around `marker`.
pub fn extract_fact(paragraph_text: &str, marker: &str) -> (r: Option<ExtractedFact>)
    ensures
        fact_view(r) == fact_of(paragraph_text@, marker@),
        r is Some ==> r->0.wf(),
{
    let collapsed = strip_layout(paragraph_text);
    let t = collapsed.as_str();
    match find_first(t, marker) {
        None => None,
        Some(at) => {
            let n = t.unicode_len();
            let m = marker.unicode_len();
            let before_segs = split_segments(t.substring_char(0, at));
            let after_segs = split_segments(t.substring_char(at + m, n));
            let before = nearest_match(DATE_COUNT_PATTERN, &before_segs);
            let after = nearest_match(DATE_PERCENT_PATTERN, &after_segs);
            assemble_fact(before, after)
        },
    }
}

} // verus!
