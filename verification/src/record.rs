//! Pages as the store keeps them, and what is shown of them.
//!
//! The store holds texts. A page goes in as the texts of its addresses, under
//! the text of its own address as key, and is read again from those texts.

use vstd::prelude::*;
use vstd::utf8::decode_utf8;
use vstd::utf8::valid_utf8;
use crate::address::address_of;
use crate::address::Url;
use crate::address::UrlError;
use crate::outside::utf8_text;
use crate::report::CrawlResult;
use crate::report::PageView;

verus! {

/// A page as the store keeps it: the text of its address, which is also its
/// key, and the text of each of its links.
#[derive(Debug, PartialEq, Eq)]
pub struct Record {
    pub url: String,
    pub links: Vec<String>,
}

impl View for Record {
    type V = PageView;

    open spec fn view(&self) -> PageView {
        PageView { url: self.url@, links: self.links.deep_view() }
    }
}

/// The page that a record holds: the address that each of its texts stands
/// for. `None` where one of the texts stands for no address.
pub open spec fn page_of(record: PageView) -> Option<PageView> {
    if address_of(record.url).is_some() && forall|i: int|
        0 <= i < record.links.len() ==> address_of(#[trigger] record.links[i]).is_some() {
        Some(
            PageView {
                url: address_of(record.url).unwrap(),
                links: record.links.map_values(|text: Seq<char>| address_of(text).unwrap()),
            },
        )
    } else {
        None
    }
}

impl CrawlResult {
    /// Writes this page as a record. What is written reads back as this
    /// page: [`CrawlResult::from_record`] gives it again, link for link.
    pub fn to_record(&self) -> (record: Record)
        ensures
            record@ == self@,
            page_of(record@) == Some(self@),
    {
        let url = self.url.as_str().to_owned();
        let mut links: Vec<String> = Vec::new();
        let mut i: usize = 0;
        while i < self.links.len()
            invariant
                i <= self.links.len(),
                links.deep_view() == self.links.deep_view().take(i as int),
                forall|k: int|
                    0 <= k < i ==> address_of(#[trigger] self.links.deep_view()[k]) == Some(
                        self.links.deep_view()[k],
                    ),
            decreases self.links.len() - i,
        {
            let ghost before = links.deep_view();
            let text = self.links[i].as_str().to_owned();
            links.push(text);
            assert(links.deep_view() == before.push(self.links[i as int]@));
            i += 1;
        }
        let record = Record { url, links };
        assert(record@.links.map_values(|text: Seq<char>| address_of(text).unwrap())
            == self@.links);
        record
    }

    /// Reads a page from a record. Fails where one of the texts of the record
    /// stands for no address.
    pub fn from_record(record: &Record) -> (outcome: Result<CrawlResult, UrlError>)
        ensures
            match outcome {
                Ok(page) => page_of(record@) == Some(page@),
                Err(error) => page_of(record@).is_none() && error == UrlError::Unparsable,
            },
    {
        let url = match Url::parse(record.url.as_str()) {
            Ok(url) => url,
            Err(error) => {
                return Err(error);
            },
        };
        let ghost texts = record.links.deep_view();
        let ghost read = |text: Seq<char>| address_of(text).unwrap();
        let mut links: Vec<Url> = Vec::new();
        let mut i: usize = 0;
        while i < record.links.len()
            invariant
                i <= record.links.len(),
                texts == record.links.deep_view(),
                read == |text: Seq<char>| address_of(text).unwrap(),
                forall|k: int| 0 <= k < i ==> address_of(#[trigger] texts[k]).is_some(),
                links.deep_view() == texts.take(i as int).map_values(read),
            decreases record.links.len() - i,
        {
            match Url::parse(record.links[i].as_str()) {
                Ok(link) => {
                    links.push(link);
                    assert(texts.take(i + 1).map_values(read) == texts.take(i as int).map_values(
                        read,
                    ).push(read(texts[i as int])));
                },
                Err(error) => {
                    assert(address_of(texts[i as int]).is_none());
                    return Err(error);
                },
            }
            i += 1;
        }
        Ok(CrawlResult { url, links })
    }
}

/// How many links of a page are shown with it.
pub const PREVIEW_LINKS: usize = 5;

/// What is shown of a stored page: its address, the number of its links, and
/// the first few of them.
#[derive(Debug, PartialEq, Eq)]
pub struct Summary {
    pub url: Url,
    pub link_count: usize,
    pub first_links: Vec<Url>,
}

/// The links shown with a page: the first [`PREVIEW_LINKS`] of them, in the
/// order of the page, or all where it has no more.
pub open spec fn preview(links: Seq<Seq<char>>) -> Seq<Seq<char>> {
    if links.len() <= PREVIEW_LINKS {
        links
    } else {
        links.take(PREVIEW_LINKS as int)
    }
}

/// Sums a page up for showing.
pub fn summarize(page: &CrawlResult) -> (summary: Summary)
    ensures
        summary.url@ == page@.url,
        summary.link_count == page@.links.len(),
        summary.first_links.deep_view() == preview(page@.links),
{
    let shown: usize = if page.links.len() <= PREVIEW_LINKS {
        page.links.len()
    } else {
        PREVIEW_LINKS
    };
    let mut first_links: Vec<Url> = Vec::new();
    let mut i: usize = 0;
    while i < shown
        invariant
            i <= shown <= page.links.len(),
            first_links.deep_view() == page.links.deep_view().take(i as int),
        decreases shown - i,
    {
        let ghost before = first_links.deep_view();
        let link = page.links[i].clone();
        first_links.push(link);
        assert(first_links.deep_view() == before.push(page.links[i as int]@));
        i += 1;
    }
    Summary { url: page.url.clone(), link_count: page.links.len(), first_links }
}

/// The key that an entry of the store is listed under: its bytes read as
/// text. `None` for an entry that could not be read, and for a key that is
/// not text.
pub open spec fn listed_key(entry: Option<Seq<u8>>) -> Option<Seq<char>> {
    match entry {
        Some(bytes) if valid_utf8(bytes) => Some(decode_utf8(bytes)),
        _ => None,
    }
}

/// The keys to list for the entries of the store, in the order of the
/// entries. Each entry is the bytes of its key, or `None` where the store
/// could not read the entry. Entries that could not be read, and keys that
/// are not text, are left out.
pub fn listed_keys(entries: &Vec<Option<Vec<u8>>>) -> (keys: Vec<String>)
    ensures
        keys.deep_view() == entries.deep_view().filter_map(
            |entry: Option<Seq<u8>>| listed_key(entry),
        ),
{
    let ghost key_of = |entry: Option<Seq<u8>>| listed_key(entry);
    let mut keys: Vec<String> = Vec::new();
    let mut i: usize = 0;
    while i < entries.len()
        invariant
            i <= entries.len(),
            key_of == |entry: Option<Seq<u8>>| listed_key(entry),
            keys.deep_view() == entries.deep_view().take(i as int).filter_map(key_of),
        decreases entries.len() - i,
    {
        proof {
            entries.deep_view().lemma_filter_map_take_succ(key_of, i as int);
        }
        if let Some(bytes) = &entries[i] {
            assert(bytes.deep_view() == bytes@);
            if let Some(text) = utf8_text(bytes.as_slice()) {
                keys.push(text.to_owned());
            }
        }
        i += 1;
    }
    assert(entries.deep_view().take(entries.len() as int) == entries.deep_view());
    keys
}

} // verus!
