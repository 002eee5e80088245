//! The worker's part that is not waiting: from the outcome of its fetch to
//! the report it sends.

use vstd::prelude::*;
use crate::address::Url;
use crate::extract::extract_links;
use crate::extract::page_links;
use crate::report::CrawlResult;
use crate::report::PageView;
use crate::report::Report;
use crate::report::ReportView;

verus! {

/// The seconds a worker waits before it fetches, so that a host is not asked
/// for all its pages at once.
pub const FETCH_DELAY_SECONDS: u64 = 1;

/// The report that is due for `url` once its fetch has ended with `body`:
/// the page and its links where a body came, a failure where none did.
pub open spec fn report_of(url: Seq<char>, body: Option<Seq<char>>) -> ReportView {
    match body {
        Some(html) => ReportView::Fetched(PageView { url, links: page_links(url, html) }),
        None => ReportView::Failed(url),
    }
}

/// Makes the single report of the worker that was sent to `url`.
///
/// `body` is the document the fetch brought, or `None` where the fetch
/// failed. The links of the document are resolved against `url`. A worker
/// sends this report whatever happened, so that the coordinator's count of
/// workers at work stays true.
pub fn report_for(url: Url, body: Option<&str>) -> (report: Report)
    ensures
        report@ == report_of(url@, body.deep_view()),
{
    match body {
        Some(html) => {
            let links = extract_links(&url, html);
            Report::Fetched(CrawlResult { url, links })
        },
        None => Report::Failed(url),
    }
}

} // verus!
