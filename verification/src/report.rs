//! What a worker tells the coordinator about the one page it was sent to.

use vstd::prelude::*;
use crate::address::Url;

verus! {

/// A fetched page: its address, and the addresses it links to in the order
/// of its anchors. Made once for a page, and not changed afterwards.
#[derive(Debug, PartialEq, Eq)]
pub struct CrawlResult {
    pub url: Url,
    pub links: Vec<Url>,
}

/// What a [`CrawlResult`] stands for in contracts: the text of its address,
/// and the text of each of its links.
#[verifier::ext_equal]
pub struct PageView {
    pub url: Seq<char>,
    pub links: Seq<Seq<char>>,
}

impl View for CrawlResult {
    type V = PageView;

    open spec fn view(&self) -> PageView {
        PageView { url: self.url@, links: self.links.deep_view() }
    }
}

impl DeepView for CrawlResult {
    type V = PageView;

    open spec fn deep_view(&self) -> PageView {
        self@
    }
}

/// The one message of a worker: the page it fetched, or the address it could
/// not fetch. A page without links is a fetched page; only a failed transfer
/// is a failure.
#[derive(Debug, PartialEq, Eq)]
pub enum Report {
    Fetched(CrawlResult),
    Failed(Url),
}

/// What a [`Report`] stands for in contracts: the page, or the text of the
/// address that could not be fetched.
#[verifier::ext_equal]
pub enum ReportView {
    Fetched(PageView),
    Failed(Seq<char>),
}

impl View for Report {
    type V = ReportView;

    open spec fn view(&self) -> ReportView {
        match *self {
            Report::Fetched(page) => ReportView::Fetched(page@),
            Report::Failed(url) => ReportView::Failed(url@),
        }
    }
}

impl ReportView {
    /// The address the worker was sent to.
    pub open spec fn url(self) -> Seq<char> {
        match self {
            ReportView::Fetched(page) => page.url,
            ReportView::Failed(url) => url,
        }
    }

    /// The page to keep in the store: the fetched page, and nothing for a
    /// failure.
    pub open spec fn stored(self) -> Option<PageView> {
        match self {
            ReportView::Fetched(page) => Some(page),
            ReportView::Failed(_) => None,
        }
    }
}

impl Report {
    /// The address the worker was sent to.
    pub fn url(&self) -> (url: &Url)
        ensures
            url@ == self@.url(),
    {
        match self {
            Report::Fetched(page) => &page.url,
            Report::Failed(url) => url,
        }
    }
}

} // verus!
