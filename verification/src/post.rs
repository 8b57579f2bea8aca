//! The post page scanner: the first paragraph of a post that reports a fact.

use vstd::prelude::*;
use vstd::string::*;
use crate::extract::{extract_fact, fact_of, fact_view, ExtractedFact, FactView, MARKER};
use crate::index::{PostReference, ReferenceView, SelectorError};
use crate::page::{select_texts, selected_texts};
use crate::text::{lemma_no_occurrence, occurs_at, texts, without_layout};

verus! {

/// The paragraphs of a post's content container.
pub const PARAGRAPH_SELECTOR: &'static str = ".TRS_Editor .TRS_Editor p";

/// One post with the fact found in it, if one was.
#[derive(Debug, Clone)]
pub struct PostRecord {
    pub post: PostReference,
    pub data: Option<ExtractedFact>,
}

/// The mathematical value of a `PostRecord`.
pub ghost struct RecordView {
    pub post: ReferenceView,
    pub data: Option<FactView>,
}

impl View for PostRecord {
    type V = RecordView;

    open spec fn view(&self) -> RecordView {
        RecordView { post: self.post@, data: fact_view(self.data) }
    }
}

impl PostRecord {
    /// The data, where present, is well formed.
    pub open spec fn wf(&self) -> bool {
        self.data is Some ==> self.data->0.wf()
    }
}

/// The fact of the first paragraph, in order, that reports one.
pub open spec fn first_fact(paragraphs: Seq<Seq<char>>, marker: Seq<char>) -> Option<FactView>
    decreases paragraphs.len(),
{
    if paragraphs.len() == 0 {
        None
    } else {
        match fact_of(paragraphs[0], marker) {
            Some(f) => Some(f),
            None => first_fact(paragraphs.drop_first(), marker),
        }
    }
}

/// `marker` stands nowhere in the paragraph, layout removed.
pub open spec fn lacks_marker(paragraph: Seq<char>, marker: Seq<char>) -> bool {
    forall|i: int| !occurs_at(without_layout(paragraph), marker, i)
}

/// A paragraph without the marker reports no fact.
pub proof fn law_no_marker_no_fact(paragraph: Seq<char>, marker: Seq<char>)
    requires
        lacks_marker(paragraph, marker),
    ensures
        fact_of(paragraph, marker) is None,
{
    lemma_no_occurrence(without_layout(paragraph), marker);
}

/// A paragraph without the marker is passed over: the scan gives what it
/// gives on the paragraphs after it.
pub proof fn law_scan_passes_over(paragraphs: Seq<Seq<char>>, marker: Seq<char>)
    requires
        paragraphs.len() > 0,
        lacks_marker(paragraphs[0], marker),
    ensures
        first_fact(paragraphs, marker) == first_fact(paragraphs.drop_first(), marker),
{
    law_no_marker_no_fact(paragraphs[0], marker);
}

/// A post in which no paragraph holds the marker has no fact.
pub proof fn law_no_marker_no_data(paragraphs: Seq<Seq<char>>, marker: Seq<char>)
    requires
        forall|k: int| 0 <= k < paragraphs.len() ==> lacks_marker(#[trigger] paragraphs[k], marker),
    ensures
        first_fact(paragraphs, marker) is None,
    decreases paragraphs.len(),
{
    if paragraphs.len() > 0 {
        law_no_marker_no_fact(paragraphs[0], marker);
        let rest = paragraphs.drop_first();
        assert forall|k: int| 0 <= k < rest.len() implies lacks_marker(
            #[trigger] rest[k],
            marker,
        ) by {
            assert(rest[k] == paragraphs[k + 1]);
        }
        law_no_marker_no_data(rest, marker);
    }
}

/// Runs the fact extractor over the paragraphs in order and stops at the
/// first fact.
pub fn scan_paragraphs(paragraphs: &Vec<String>, marker: &str) -> (r: Option<ExtractedFact>)
    ensures
        fact_view(r) == first_fact(texts(paragraphs@), marker@),
        r is Some ==> r->0.wf(),
{
    let mut i: usize = 0;
    proof {
        assert(texts(paragraphs@).subrange(0, paragraphs.len() as int) == texts(paragraphs@));
    }
    while i < paragraphs.len()
        invariant
            i <= paragraphs.len(),
            first_fact(texts(paragraphs@), marker@) == first_fact(
                texts(paragraphs@).subrange(i as int, paragraphs.len() as int),
                marker@,
            ),
        decreases paragraphs.len() - i,
    {
        let found = extract_fact(paragraphs[i].as_str(), marker);
        proof {
            let rest = texts(paragraphs@).subrange(i as int, paragraphs.len() as int);
            assert(rest[0] == paragraphs[i as int]@);
            assert(rest.drop_first() == texts(paragraphs@).subrange(
                i + 1,
                paragraphs.len() as int,
            ));
        }
        if found.is_some() {
            return found;
        }
        i += 1;
    }
    None
}

/// What `scan_post` owes for a document whose paragraphs are `selected`.
pub open spec fn post_scan(selected: Option<Seq<Seq<char>>>) -> Result<
    Option<FactView>,
    SelectorError,
> {
    match selected {
        Some(paragraphs) => Ok(first_fact(paragraphs, MARKER@)),
        None => Err(SelectorError::BadSelector),
    }
}

/// The mathematical value of a scan result.
pub open spec fn scan_view(r: Result<Option<ExtractedFact>, SelectorError>) -> Result<
    Option<FactView>,
    SelectorError,
> {
    match r {
        Ok(f) => Ok(fact_view(f)),
        Err(e) => Err(e),
    }
}

/// Scans the paragraphs of a post page for the first fact.
pub fn scan_post(document_body: &str) -> (r: Result<Option<ExtractedFact>, SelectorError>)
    ensures
        scan_view(r) == post_scan(selected_texts(document_body@, PARAGRAPH_SELECTOR@)),
        r is Ok && r->Ok_0 is Some ==> r->Ok_0->0.wf(),
{
    match select_texts(document_body, PARAGRAPH_SELECTOR) {
        Some(paragraphs) => Ok(scan_paragraphs(&paragraphs, MARKER)),
        None => Err(SelectorError::BadSelector),
    }
}

/// The record of `post` for a document whose paragraphs are `selected`.
pub open spec fn record_scan(post: ReferenceView, selected: Option<Seq<Seq<char>>>) -> Result<
    RecordView,
    SelectorError,
> {
    match selected {
        Some(paragraphs) => Ok(RecordView { post, data: first_fact(paragraphs, MARKER@) }),
        None => Err(SelectorError::BadSelector),
    }
}

/// The mathematical value of a record result.
pub open spec fn record_view(r: Result<PostRecord, SelectorError>) -> Result<
    RecordView,
    SelectorError,
> {
    match r {
        Ok(record) => Ok(record@),
        Err(e) => Err(e),
    }
}

/// Joins a post with what the scan of its page gives.
pub fn record_for(post: PostReference, document_body: &str) -> (r: Result<
    PostRecord,
    SelectorError,
>)
    ensures
        record_view(r) == record_scan(post@, selected_texts(document_body@, PARAGRAPH_SELECTOR@)),
        r is Ok ==> r->Ok_0.post == post && r->Ok_0.wf(),
{
    match scan_post(document_body) {
        Ok(data) => Ok(PostRecord { post, data }),
        Err(e) => Err(e),
    }
}

/// Joins a post with what the scan of its paragraphs gave.
pub fn make_record(post: PostReference, paragraphs: &Vec<String>) -> (r: PostRecord)
    ensures
        r@ == (RecordView { post: post@, data: first_fact(texts(paragraphs@), MARKER@) }),
        r.post == post,
        r.wf(),
{
    let data = scan_paragraphs(paragraphs, MARKER);
    PostRecord { post, data }
}

} // verus!
