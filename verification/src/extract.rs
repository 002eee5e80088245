//! Link extraction: from the text of a page to the addresses it links to.

use vstd::prelude::*;
use crate::address::Url;
use crate::address::target_of;
use crate::outside::select_attr;
use crate::outside::selected_attr;

verus! {

/// The address that a link target written as `href` points to, in a page at
/// `base`. `None` where the anchor carries no `href`, or the `href` does not
/// resolve.
pub open spec fn link_target(base: Seq<char>, href: Option<Seq<char>>) -> Option<Seq<char>> {
    match href {
        Some(written) => target_of(base, written),
        None => None,
    }
}

/// The addresses that the anchors of a page at `base` point to, given the
/// `href` of each anchor: those that resolve, in the order of their anchors.
/// An address stands in the result as often as anchors point to it.
pub open spec fn link_targets(base: Seq<char>, hrefs: Seq<Option<Seq<char>>>) -> Seq<Seq<char>> {
    hrefs.filter_map(|href: Option<Seq<char>>| link_target(base, href))
}

/// The addresses that the page `html`, fetched from `base`, links to.
pub open spec fn page_links(base: Seq<char>, html: Seq<char>) -> Seq<Seq<char>> {
    match selected_attr(html, "a"@, "href"@) {
        Some(hrefs) => link_targets(base, hrefs),
        None => Seq::empty(),
    }
}

/// Resolves the `href` of each anchor of a page at `base`, and keeps the
/// addresses of those that have one and resolve.
pub fn links_from_hrefs(base: &Url, hrefs: &Vec<Option<String>>) -> (links: Vec<Url>)
    ensures
        links.deep_view() == link_targets(base@, hrefs.deep_view()),
{
    let mut links: Vec<Url> = Vec::new();
    let ghost target = |href: Option<Seq<char>>| link_target(base@, href);
    let mut i: usize = 0;
    while i < hrefs.len()
        invariant
            i <= hrefs.len(),
            target == |href: Option<Seq<char>>| link_target(base@, href),
            links.deep_view() == hrefs.deep_view().take(i as int).filter_map(target),
        decreases hrefs.len() - i,
    {
        proof {
            hrefs.deep_view().lemma_filter_map_take_succ(target, i as int);
        }
        if let Some(written) = &hrefs[i] {
            if let Ok(url) = base.join(written.as_str()) {
                links.push(url);
            }
        }
        i += 1;
    }
    assert(hrefs.deep_view().take(hrefs.len() as int) == hrefs.deep_view());
    links
}

/// Finds the links of a page.
///
/// Reads `html` as a document, takes the `href` of every anchor element, and
/// resolves each against `base`, the address the page was fetched from.
/// Anchors without `href`, and `href`s that do not resolve, are passed over.
/// Where the anchors cannot be looked up at all, the page has no links.
pub fn extract_links(base: &Url, html: &str) -> (links: Vec<Url>)
    ensures
        links.deep_view() == page_links(base@, html@),
{
    match select_attr(html, "a", "href") {
        Some(hrefs) => links_from_hrefs(base, &hrefs),
        None => Vec::new(),
    }
}

} // verus!
