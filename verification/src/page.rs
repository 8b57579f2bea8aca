//! Queries on HTML documents, answered by the HTML parser and handed on as
//! plain text.

use vstd::prelude::*;

verus! {

/// The anchor of an index entry.
#[derive(Debug, Clone)]
pub struct Anchor {
    /// The link attribute, if the anchor has one.
    pub href: Option<String>,
    /// The text inside the anchor.
    pub text: String,
}

/// What an index entry node holds: its first anchor and the text of the node
/// that follows the anchor.
#[derive(Debug, Clone)]
pub struct IndexEntry {
    pub anchor: Option<Anchor>,
    pub sibling_text: Option<String>,
}

/// The mathematical value of an `Anchor`.
pub ghost struct AnchorView {
    pub href: Option<Seq<char>>,
    pub text: Seq<char>,
}

/// The mathematical value of an `IndexEntry`.
pub ghost struct EntryView {
    pub anchor: Option<AnchorView>,
    pub sibling_text: Option<Seq<char>>,
}

impl View for Anchor {
    type V = AnchorView;

    open spec fn view(&self) -> AnchorView {
        AnchorView {
            href: match self.href {
                Some(h) => Some(h@),
                None => None,
            },
            text: self.text@,
        }
    }
}

impl View for IndexEntry {
    type V = EntryView;

    open spec fn view(&self) -> EntryView {
        EntryView {
            anchor: match self.anchor {
                Some(a) => Some(a@),
                None => None,
            },
            sibling_text: match self.sibling_text {
                Some(t) => Some(t@),
                None => None,
            },
        }
    }
}

/// The values of a vector of entries.
pub open spec fn entry_views(v: Seq<IndexEntry>) -> Seq<EntryView> {
    v.map_values(|e: IndexEntry| e@)
}

/// The text of every element of the document `body` that `selector` picks,
/// in the order in which the parser yields them; `None` where `selector` is
/// no valid selector.
pub uninterp spec fn selected_texts(body: Seq<char>, selector: Seq<char>) -> Option<
    Seq<Seq<char>>,
>;

/// For every element of the document `body` that `entries` picks, in the
/// order in which the parser yields them: the first element under it that
/// `anchor` picks, with its attribute `attribute` and its text, and the text
/// of the first element under it that `sibling` picks. `None` where one of
/// the three is no valid selector.
pub uninterp spec fn selected_entries(
    body: Seq<char>,
    entries: Seq<char>,
    anchor: Seq<char>,
    sibling: Seq<char>,
    attribute: Seq<char>,
) -> Option<Seq<EntryView>>;

/// Parses `selector` with `scraper::Selector::parse` and `body` with
/// `scraper::Html::parse_document`, runs `Html::select`, and joins the text
/// nodes of each element found (`ElementRef::text`). Not proved: that the
/// texts returned are those the parser finds, which `selected_texts` names.
#[verifier::external_body]
pub(crate) fn select_texts(body: &str, selector: &str) -> (r: Option<Vec<String>>)
    ensures
        match r {
            Some(v) => selected_texts(body@, selector@) == Some(crate::text::texts(v@)),
            None => selected_texts(body@, selector@) is None,
        },
{
    match scraper::Selector::parse(selector) {
        Err(_) => None,
        Ok(sel) => {
            let doc = scraper::Html::parse_document(body);
            Some(doc.select(&sel).map(|e| e.text().collect::<String>()).collect())
        },
    }
}

/// Parses the three selectors with `scraper::Selector::parse` and `body` with
/// `scraper::Html::parse_document`, runs `Html::select` for the entries and
/// `ElementRef::select` under each entry, and reads `ElementRef::attr` and
/// `ElementRef::text`. Not proved: that the entries returned are those the
/// parser finds, which `selected_entries` names.
#[verifier::external_body]
pub(crate) fn select_entries(
    body: &str,
    entries: &str,
    anchor: &str,
    sibling: &str,
    attribute: &str,
) -> (r: Option<Vec<IndexEntry>>)
    ensures
        match r {
            Some(v) => selected_entries(body@, entries@, anchor@, sibling@, attribute@) == Some(
                entry_views(v@),
            ),
            None => selected_entries(body@, entries@, anchor@, sibling@, attribute@) is None,
        },
{
    let es = scraper::Selector::parse(entries).ok()?;
    let an = scraper::Selector::parse(anchor).ok()?;
    let sb = scraper::Selector::parse(sibling).ok()?;
    let doc = scraper::Html::parse_document(body);
    Some(doc.select(&es).map(|e| IndexEntry {
        anchor: e.select(&an).next().map(|a| Anchor {
            href: a.attr(attribute).map(|h| h.to_string()),
            text: a.text().collect(),
        }),
        sibling_text: e.select(&sb).next().map(|s| s.text().collect()),
    }).collect())
}

} // verus!
