//! The calls into the `url` and `scraper` crates, and the one into `std` that
//! comes without a contract.
//!
//! Nothing in this file is proved. Each function here takes plain values to
//! an outside crate and brings plain values back, and its contract is taken
//! on trust. What the outside crate answers is too long to write out, so each
//! answer has a name, and the contract says only that the function returns
//! what the name stands for: the same answer for the same arguments, every
//! time. What a name is on given arguments is nowhere said.

use vstd::prelude::*;
use vstd::utf8::decode_utf8;
use vstd::utf8::valid_utf8;
use crate::address::Host;
use crate::address::HostView;

verus! {

/// The error of `url::Url::parse` and `url::Url::join`. Nothing is known of
/// its value.
#[verifier::external_type_specification]
#[verifier::external_body]
pub struct ExParseError(url::ParseError);

/// What `url::Url::parse` reads from `input`: the serialization of the URL,
/// and the host that `url::Url::host` reports for it. `None` where
/// `url::Url::parse` refuses `input`.
pub uninterp spec fn parsed(input: Seq<char>) -> Option<(Seq<char>, Option<HostView>)>;

/// The serialization of the URL that `url::Url::join` gives for `href`
/// against the URL that `url::Url::parse` reads from `base`, or `None` where
/// either call refuses.
pub uninterp spec fn resolved(base: Seq<char>, href: Seq<char>) -> Option<Seq<char>>;

/// What `scraper` finds in a document: for each element of `html`, as
/// `scraper::Html::parse_document` reads it, that the selector which
/// `scraper::Selector::parse` reads from `selector` matches, in the order in
/// which `scraper::Html::select` hands the elements out, the value that
/// `scraper::node::Element::attr` gives for `attr`. `None` where
/// `scraper::Selector::parse` refuses `selector`.
pub uninterp spec fn selected_attr(html: Seq<char>, selector: Seq<char>, attr: Seq<char>) -> Option<
    Seq<Option<Seq<char>>>,
>;

/// Calls `url::Url::parse` on `input` and hands back two things of the URL it
/// read: its serialization, which `String::from` takes out of it, and what
/// `url::Url::host` reports, written as a [`Host`]: a domain by its name, an
/// address by its number.
///
/// Claimed: the call is a function of `input` alone, so it returns
/// `parsed(input)`, and its error exactly where that is `None`.
#[verifier::external_body]
pub(crate) fn parse_parts(input: &str) -> (outcome: Result<(String, Option<Host>), url::ParseError>)
    ensures
        match outcome {
            Ok(parts) => parsed(input@) == Some((parts.0@, parts.1.deep_view())),
            Err(_) => parsed(input@).is_none(),
        },
{
    let url = url::Url::parse(input)?;
    let host = match url.host() {
        Some(url::Host::Domain(name)) => Some(Host::Domain(name.to_string())),
        Some(url::Host::Ipv4(address)) => Some(Host::Ipv4(u32::from(address))),
        Some(url::Host::Ipv6(address)) => Some(Host::Ipv6(u128::from(address))),
        None => None,
    };
    Ok((String::from(url), host))
}

/// Calls `url::Url::join` with `href` on the URL that `url::Url::parse` reads
/// from `base`, and hands back the serialization of the URL it gives.
///
/// Claimed: the call is a function of `base` and `href` alone, so it returns
/// `resolved(base, href)`, and an error exactly where that is `None`.
#[verifier::external_body]
pub(crate) fn resolve(base: &str, href: &str) -> (outcome: Result<String, url::ParseError>)
    ensures
        match outcome {
            Ok(text) => resolved(base@, href@) == Some(text@),
            Err(_) => resolved(base@, href@).is_none(),
        },
{
    url::Url::parse(base)?.join(href).map(String::from)
}

/// Calls `scraper::Html::select` on the document that
/// `scraper::Html::parse_document` reads from `html`, with the selector that
/// `scraper::Selector::parse` reads from `selector`, and hands back, for each
/// element that comes out, what `scraper::node::Element::attr` gives for
/// `attr`. Where the selector is refused, hands back `None`.
///
/// Claimed: parsing and selecting are functions of `html`, `selector` and
/// `attr` alone, so the call returns `selected_attr(html, selector, attr)`.
/// Nothing is claimed of which elements match, nor of their order.
#[verifier::external_body]
pub(crate) fn select_attr(html: &str, selector: &str, attr: &str) -> (found: Option<
    Vec<Option<String>>,
>)
    ensures
        found.deep_view() == selected_attr(html@, selector@, attr@),
{
    let selector = scraper::Selector::parse(selector).ok()?;
    let document = scraper::Html::parse_document(html);
    let elements = document.select(&selector);
    Some(elements.map(|element| element.value().attr(attr).map(String::from)).collect())
}

/// Calls `std::str::from_utf8`, which reads bytes as text without copying
/// them.
///
/// Claimed, as its documentation says: it succeeds exactly on bytes that are
/// valid UTF-8, and the text it gives is what those bytes spell.
#[verifier::external_body]
pub(crate) fn utf8_text(bytes: &[u8]) -> (text: Option<&str>)
    ensures
        match text {
            Some(text) => valid_utf8(bytes@) && text@ == decode_utf8(bytes@),
            None => !valid_utf8(bytes@),
        },
{
    std::str::from_utf8(bytes).ok()
}

} // verus!
