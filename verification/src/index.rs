//! The index page scanner: from the entries of the bulletin index to the
//! references of the posts, the featured one first.

use vstd::prelude::*;
use vstd::string::*;
use crate::page::{entry_views, select_entries, selected_entries, EntryView, IndexEntry};
use crate::pattern::{match_whole, regex_captures, text_view, whole_of};
use crate::text::{trim, trimmed};

verus! {

/// The address of the index page, against which links are resolved.
pub const INDEX_URL: &'static str = "https://www.chinacdc.cn/jkzt/crb/zl/szkb_11803/jszl_13141/";

/// The featured entry of the index page.
pub const FEATURED_SELECTOR: &'static str =
    ".main .cn-main .cn-main-right .item-top .item-top-text";

/// The entries below the featured one.
pub const REMAINING_SELECTOR: &'static str =
    ".main .cn-main .cn-main-right .item-top .item-bottom ul li";

/// The link of an entry.
pub const ANCHOR_SELECTOR: &'static str = "a";

/// The node that follows the link and holds the date.
pub const SIBLING_SELECTOR: &'static str = "a + span";

/// The attribute that holds a link's target.
pub const LINK_ATTRIBUTE: &'static str = "href";

/// A date as year, month and day.
pub const DATE_PATTERN: &'static str = "\\d{4}-\\d{2}-\\d{2}";

/// One bulletin post: its title, its date and its absolute address.
#[derive(Debug, Clone)]
pub struct PostReference {
    pub title: String,
    pub date: String,
    pub link: String,
}

/// The mathematical value of a `PostReference`.
pub ghost struct ReferenceView {
    pub title: Seq<char>,
    pub date: Seq<char>,
    pub link: Seq<char>,
}

impl View for PostReference {
    type V = ReferenceView;

    open spec fn view(&self) -> ReferenceView {
        ReferenceView { title: self.title@, date: self.date@, link: self.link@ }
    }
}

/// What an index entry can lack.
#[derive(Debug, PartialEq, Eq, Clone, Copy)]
pub enum EntryFault {
    /// The entry holds no link.
    MissingAnchor,
    /// The link has no target.
    MissingHref,
    /// The target does not resolve against the base address.
    MalformedHref,
    /// No node follows the link.
    MissingDateNode,
    /// The node after the link holds no date.
    MissingDate,
}

/// Why an index page or a post page could not be read.
#[derive(Debug, PartialEq, Eq, Clone, Copy)]
pub enum SelectorError {
    /// A selector is not valid.
    BadSelector,
    /// The page has no featured entry.
    MissingFeatured,
    /// The entry at this place, the featured one counted as 0, lacks a part.
    Entry { entry: usize, fault: EntryFault },
}

/// The absolute address that the URL parser gives for `href` read against
/// `base`; `None` where `base` or `href` does not parse.
pub uninterp spec fn resolved_url(base: Seq<char>, href: Seq<char>) -> Option<Seq<char>>;

/// Parses `base` with `url::Url::parse`, then `href` against it with
/// `url::ParseOptions::parse`, and writes the result out as text. Not proved:
/// that the text returned is the parser's answer, which `resolved_url` names.
#[verifier::external_body]
fn resolve(base: &str, href: &str) -> (r: Option<String>)
    ensures
        text_view(r) == resolved_url(base@, href@),
{
    match url::Url::parse(base) {
        Err(_) => None,
        Ok(b) => match url::Url::options().base_url(Some(&b)).parse(href) {
            Err(_) => None,
            Ok(u) => Some(u.to_string()),
        },
    }
}

/// The reference that an entry makes, given what its link resolved to and
/// the date found after the link. The parts are asked for in the order link,
/// title, date, and the first one missing is the fault.
pub open spec fn reference_given(
    entry: EntryView,
    link: Option<Seq<char>>,
    date: Option<Seq<char>>,
) -> Result<ReferenceView, EntryFault> {
    if entry.anchor is None {
        Err(EntryFault::MissingAnchor)
    } else if entry.anchor->0.href is None {
        Err(EntryFault::MissingHref)
    } else if link is None {
        Err(EntryFault::MalformedHref)
    } else if entry.sibling_text is None {
        Err(EntryFault::MissingDateNode)
    } else if date is None {
        Err(EntryFault::MissingDate)
    } else {
        Ok(ReferenceView { title: trimmed(entry.anchor->0.text), date: date->0, link: link->0 })
    }
}

/// What the link of an entry resolves to against `base`.
pub open spec fn link_of(entry: EntryView, base: Seq<char>) -> Option<Seq<char>> {
    if entry.anchor is Some && entry.anchor->0.href is Some {
        resolved_url(base, entry.anchor->0.href->0)
    } else {
        None
    }
}

/// The first date in the text after the link.
pub open spec fn date_of(entry: EntryView) -> Option<Seq<char>> {
    if entry.sibling_text is Some {
        whole_of(regex_captures(DATE_PATTERN@, trimmed(entry.sibling_text->0)))
    } else {
        None
    }
}

/// The reference that an entry makes on a page at `base`.
pub open spec fn reference_for(entry: EntryView, base: Seq<char>) -> Result<
    ReferenceView,
    EntryFault,
> {
    reference_given(entry, link_of(entry, base), date_of(entry))
}

/// The mathematical value of the result for one entry.
pub open spec fn reference_view(r: Result<PostReference, EntryFault>) -> Result<
    ReferenceView,
    EntryFault,
> {
    match r {
        Ok(p) => Ok(p@),
        Err(e) => Err(e),
    }
}

/// The entries of a page in scan order: the first featured one, then the
/// remaining ones as they stand.
pub open spec fn scan_order(featured: Seq<EntryView>, remaining: Seq<EntryView>) -> Seq<
    EntryView,
>
    recommends
        featured.len() > 0,
{
    seq![featured[0]] + remaining
}

/// `r` is what the scan owes for these entries: the fault of the first entry
/// that lacks a part, or else one reference for each entry, in scan order.
pub open spec fn is_scan_result(
    r: Result<Vec<PostReference>, SelectorError>,
    featured: Seq<EntryView>,
    remaining: Seq<EntryView>,
    base: Seq<char>,
) -> bool {
    if featured.len() == 0 {
        r == Err::<Vec<PostReference>, SelectorError>(SelectorError::MissingFeatured)
    } else {
        let all = scan_order(featured, remaining);
        match r {
            Ok(refs) => {
                &&& refs.len() == all.len()
                &&& forall|k: int|
                    0 <= k < all.len() ==> #[trigger] reference_for(all[k], base) == Ok::<
                        ReferenceView,
                        EntryFault,
                    >(refs[k]@)
            },
            Err(SelectorError::Entry { entry, fault }) => {
                &&& entry < all.len()
                &&& reference_for(all[entry as int], base) == Err::<ReferenceView, EntryFault>(
                    fault,
                )
                &&& forall|k: int| 0 <= k < entry ==> #[trigger] reference_for(all[k], base) is Ok
            },
            Err(_) => false,
        }
    }
}

/// Scan order: a scan that succeeds lists the featured entry first and then
/// the remaining entries as they stand in the page.
pub proof fn law_featured_first(
    r: Result<Vec<PostReference>, SelectorError>,
    featured: Seq<EntryView>,
    remaining: Seq<EntryView>,
    base: Seq<char>,
)
    requires
        is_scan_result(r, featured, remaining, base),
        r is Ok,
    ensures
        featured.len() > 0,
        r->Ok_0@.len() == remaining.len() + 1,
        reference_for(featured[0], base) == Ok::<ReferenceView, EntryFault>(r->Ok_0@[0]@),
        forall|k: int|
            0 <= k < remaining.len() ==> reference_for(#[trigger] remaining[k], base) == Ok::<
                ReferenceView,
                EntryFault,
            >(r->Ok_0@[k + 1]@),
{
    let all = scan_order(featured, remaining);
    assert(all[0] == featured[0]);
    assert(reference_for(all[0], base) is Ok);
    assert forall|k: int| 0 <= k < remaining.len() implies reference_for(
        #[trigger] remaining[k],
        base,
    ) == Ok::<ReferenceView, EntryFault>(r->Ok_0@[k + 1]@) by {
        assert(all[k + 1] == remaining[k]);
        assert(reference_for(all[k + 1], base) is Ok);
    }
}

/// A scan fails exactly when the page has no featured entry or some entry in
/// scan order lacks a part; it then gives no references at all.
pub proof fn law_fault_is_fatal(
    r: Result<Vec<PostReference>, SelectorError>,
    featured: Seq<EntryView>,
    remaining: Seq<EntryView>,
    base: Seq<char>,
)
    requires
        is_scan_result(r, featured, remaining, base),
    ensures
        r is Err <==> featured.len() == 0 || exists|k: int|
            0 <= k < scan_order(featured, remaining).len() && #[trigger] reference_for(
                scan_order(featured, remaining)[k],
                base,
            ) is Err,
{
    if featured.len() > 0 {
        let all = scan_order(featured, remaining);
        match r {
            Ok(refs) => {},
            Err(SelectorError::Entry { entry, fault }) => {
                assert(reference_for(all[entry as int], base) is Err);
            },
            Err(_) => {},
        }
    }
}

/// An entry whose link target does not resolve is at fault, whatever else
/// it holds.
pub proof fn law_malformed_href_is_a_fault(entry: EntryView, base: Seq<char>)
    requires
        entry.anchor is Some,
        entry.anchor->0.href is Some,
        resolved_url(base, entry.anchor->0.href->0) is None,
    ensures
        reference_for(entry, base) == Err::<ReferenceView, EntryFault>(EntryFault::MalformedHref),
{
}

/// Builds the reference of an entry from its parts.
pub fn entry_reference(entry: &IndexEntry, link: Option<String>, date: Option<String>) -> (r:
    Result<PostReference, EntryFault>)
    ensures
        reference_view(r) == reference_given(entry@, text_view(link), text_view(date)),
{
    match &entry.anchor {
        None => Err(EntryFault::MissingAnchor),
        Some(anchor) => {
            if anchor.href.is_none() {
                return Err(EntryFault::MissingHref);
            }
            match link {
                None => Err(EntryFault::MalformedHref),
                Some(link) => {
                    if entry.sibling_text.is_none() {
                        return Err(EntryFault::MissingDateNode);
                    }
                    match date {
                        None => Err(EntryFault::MissingDate),
                        Some(date) => Ok(
                            PostReference { title: trim(anchor.text.as_str()), date, link },
                        ),
                    }
                },
            }
        },
    }
}

/// Resolves the link of an entry against `base`.
pub fn entry_link(entry: &IndexEntry, base: &str) -> (r: Option<String>)
    ensures
        text_view(r) == link_of(entry@, base@),
{
    match &entry.anchor {
        Some(anchor) => match &anchor.href {
            Some(href) => resolve(base, href.as_str()),
            None => None,
        },
        None => None,
    }
}

/// Finds the date in the text after the link of an entry.
pub fn entry_date(entry: &IndexEntry) -> (r: Option<String>)
    ensures
        text_view(r) == date_of(entry@),
{
    match &entry.sibling_text {
        Some(t) => {
            let inner = trim(t.as_str());
            match_whole(DATE_PATTERN, inner.as_str())
        },
        None => None,
    }
}

/// Reads one entry of a page at `base`.
pub fn reference_of(entry: &IndexEntry, base: &str) -> (r: Result<PostReference, EntryFault>)
    ensures
        reference_view(r) == reference_for(entry@, base@),
{
    let link = entry_link(entry, base);
    let date = entry_date(entry);
    entry_reference(entry, link, date)
}

/// Reads the entries in scan order and stops at the first that lacks a part.
pub fn collect_references(featured: &Vec<IndexEntry>, remaining: &Vec<IndexEntry>, base: &str) -> (r:
    Result<Vec<PostReference>, SelectorError>)
    ensures
        is_scan_result(r, entry_views(featured@), entry_views(remaining@), base@),
{
    if featured.len() == 0 {
        return Err(SelectorError::MissingFeatured);
    }
    let ghost all = scan_order(entry_views(featured@), entry_views(remaining@));
    let mut refs: Vec<PostReference> = Vec::new();
    match reference_of(&featured[0], base) {
        Ok(p) => {
            refs.push(p);
        },
        Err(fault) => {
            return Err(SelectorError::Entry { entry: 0, fault });
        },
    }
    let mut i: usize = 0;
    while i < remaining.len()
        invariant
            i <= remaining.len(),
            featured.len() > 0,
            all == scan_order(entry_views(featured@), entry_views(remaining@)),
            refs.len() == i + 1,
            forall|k: int|
                0 <= k < i + 1 ==> #[trigger] reference_for(all[k], base@) == Ok::<
                    ReferenceView,
                    EntryFault,
                >(refs[k]@),
        decreases remaining.len() - i,
    {
        assert(all[i + 1] == remaining[i as int]@);
        match reference_of(&remaining[i], base) {
            Ok(p) => {
                refs.push(p);
            },
            Err(fault) => {
                return Err(SelectorError::Entry { entry: i + 1, fault });
            },
        }
        i += 1;
    }
    Ok(refs)
}

/// What `scan_index` owes for a document, given the entries that the two
/// entry selectors pick in it.
pub open spec fn is_index_result(
    r: Result<Vec<PostReference>, SelectorError>,
    featured: Option<Seq<EntryView>>,
    remaining: Option<Seq<EntryView>>,
    base: Seq<char>,
) -> bool {
    if featured is Some && remaining is Some {
        is_scan_result(r, featured->0, remaining->0, base)
    } else {
        r == Err::<Vec<PostReference>, SelectorError>(SelectorError::BadSelector)
    }
}

/// The references of the posts that an index page at `base` lists.
pub fn scan_index_at(document_body: &str, base: &str) -> (r: Result<
    Vec<PostReference>,
    SelectorError,
>)
    ensures
        is_index_result(
            r,
            selected_entries(
                document_body@,
                FEATURED_SELECTOR@,
                ANCHOR_SELECTOR@,
                SIBLING_SELECTOR@,
                LINK_ATTRIBUTE@,
            ),
            selected_entries(
                document_body@,
                REMAINING_SELECTOR@,
                ANCHOR_SELECTOR@,
                SIBLING_SELECTOR@,
                LINK_ATTRIBUTE@,
            ),
            base@,
        ),
{
    let featured = select_entries(
        document_body,
        FEATURED_SELECTOR,
        ANCHOR_SELECTOR,
        SIBLING_SELECTOR,
        LINK_ATTRIBUTE,
    );
    let remaining = select_entries(
        document_body,
        REMAINING_SELECTOR,
        ANCHOR_SELECTOR,
        SIBLING_SELECTOR,
        LINK_ATTRIBUTE,
    );
    match (featured, remaining) {
        (Some(f), Some(rest)) => collect_references(&f, &rest, base),
        _ => Err(SelectorError::BadSelector),
    }
}

/// The references of the posts that the bulletin index page lists.
pub fn scan_index(document_body: &str) -> (r: Result<Vec<PostReference>, SelectorError>)
    ensures
        is_index_result(
            r,
            selected_entries(
                document_body@,
                FEATURED_SELECTOR@,
                ANCHOR_SELECTOR@,
                SIBLING_SELECTOR@,
                LINK_ATTRIBUTE@,
            ),
            selected_entries(
                document_body@,
                REMAINING_SELECTOR@,
                ANCHOR_SELECTOR@,
                SIBLING_SELECTOR@,
                LINK_ATTRIBUTE@,
            ),
            INDEX_URL@,
        ),
{
    scan_index_at(document_body, INDEX_URL)
}

} // verus!
