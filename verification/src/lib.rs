//! A same-origin web crawler, split so that every decision it takes is a
//! verified function: which links a page holds, which of them are visited,
//! when the crawl is over, and what is shown of a stored page.
//!
//! The network, the clock and the database stay with the caller. The caller
//! runs the workers and the store, hands each worker's outcome to the
//! [`Coordinator`], and carries out what the coordinator answers.

pub mod address;
pub mod coordinator;
pub mod crawl;
pub mod extract;
pub mod outside;
pub mod record;
pub mod report;
pub mod site;
pub mod worker;

pub use crate::address::Host;
pub use crate::address::HostView;
pub use crate::address::Url;
pub use crate::address::UrlError;
pub use crate::extract::extract_links;
pub use crate::extract::links_from_hrefs;
pub use crate::report::CrawlResult;
pub use crate::report::Report;
pub use crate::worker::report_for;
pub use crate::worker::FETCH_DELAY_SECONDS;
pub use crate::coordinator::Coordinator;
pub use crate::coordinator::Step;
pub use crate::record::listed_keys;
pub use crate::record::summarize;
pub use crate::record::Record;
pub use crate::record::Summary;
pub use crate::record::PREVIEW_LINKS;
