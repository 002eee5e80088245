//! Addresses of pages: a normalized URL and the host it names.

use vstd::prelude::*;
use vstd::std_specs::cmp::PartialEqSpecImpl;
use crate::outside::parse_parts;
use crate::outside::parsed;
use crate::outside::resolve;
use crate::outside::resolved;

verus! {

/// The host named by a URL: a registered name or an IP address.
#[derive(Debug, PartialEq, Eq)]
pub enum Host {
    /// A domain name, in the form the URL carries it.
    Domain(String),
    /// An IPv4 address, as its 32-bit number.
    Ipv4(u32),
    /// An IPv6 address, as its 128-bit number.
    Ipv6(u128),
}

/// What a [`Host`] stands for in contracts: the same three kinds, with the
/// name of a domain as the sequence of its characters.
pub enum HostView {
    Domain(Seq<char>),
    Ipv4(u32),
    Ipv6(u128),
}

impl View for Host {
    type V = HostView;

    open spec fn view(&self) -> HostView {
        match *self {
            Host::Domain(name) => HostView::Domain(name@),
            Host::Ipv4(number) => HostView::Ipv4(number),
            Host::Ipv6(number) => HostView::Ipv6(number),
        }
    }
}

impl DeepView for Host {
    type V = HostView;

    open spec fn deep_view(&self) -> HostView {
        self@
    }
}

impl Clone for Host {
    fn clone(&self) -> (copy: Self)
        ensures
            copy@ == self@,
    {
        match self {
            Host::Domain(name) => Host::Domain(name.clone()),
            Host::Ipv4(number) => Host::Ipv4(*number),
            Host::Ipv6(number) => Host::Ipv6(*number),
        }
    }
}

impl Host {
    /// Whether two hosts are the same host: the same kind, and the same name
    /// or number.
    pub fn same_as(&self, other: &Host) -> (same: bool)
        ensures
            same == (self@ == other@),
    {
        match (self, other) {
            (Host::Domain(a), Host::Domain(b)) => *a == *b,
            (Host::Ipv4(a), Host::Ipv4(b)) => *a == *b,
            (Host::Ipv6(a), Host::Ipv6(b)) => *a == *b,
            _ => false,
        }
    }
}

/// Why a text is not the address of a page.
#[derive(Debug, Clone, Copy, PartialEq, Eq, Structural)]
pub enum UrlError {
    /// The text is not a URL, or cannot be resolved against its base.
    Unparsable,
}

/// The normalized form of `input`: what the parser makes of it. `None`
/// where `input` is not a URL.
pub open spec fn normalized(input: Seq<char>) -> Option<Seq<char>> {
    match parsed(input) {
        Some(parts) => Some(parts.0),
        None => None,
    }
}

/// The host that the URL written as `text` names. `None` where `text` is not
/// a URL, or a URL without a host.
pub open spec fn url_host(text: Seq<char>) -> Option<HostView> {
    match parsed(text) {
        Some(parts) => parts.1,
        None => None,
    }
}

/// Whether `text` is an address: a URL that is its own normalized form.
pub open spec fn is_address(text: Seq<char>) -> bool {
    normalized(text) == Some(text)
}

/// Whether the addresses `a` and `b` both name a host, and the same one.
pub open spec fn same_host(a: Seq<char>, b: Seq<char>) -> bool {
    url_host(a).is_some() && url_host(a) == url_host(b)
}

/// `text` where it is an address, and nothing where it is not.
pub open spec fn settled(text: Option<Seq<char>>) -> Option<Seq<char>> {
    match text {
        Some(text) if is_address(text) => Some(text),
        _ => None,
    }
}

/// The address that `input` stands for: its normalized form, where that is
/// an address.
pub open spec fn address_of(input: Seq<char>) -> Option<Seq<char>> {
    settled(normalized(input))
}

/// The address that `href` points to from a page at `base`: what it resolves
/// to, where that is an address.
pub open spec fn target_of(base: Seq<char>, href: Seq<char>) -> Option<Seq<char>> {
    settled(resolved(base, href))
}

/// An absolute, normalized URL.
///
/// A `Url` is its normalized text: two of them are the same address exactly
/// when their texts are equal, and the text of a `Url` reads back as that
/// `Url`. The host is read off the text when the `Url` is made, and kept
/// beside it.
#[derive(Debug)]
pub struct Url {
    text: String,
    host: Option<Host>,
}

impl View for Url {
    type V = Seq<char>;

    closed spec fn view(&self) -> Seq<char> {
        self.text@
    }
}

impl DeepView for Url {
    type V = Seq<char>;

    open spec fn deep_view(&self) -> Seq<char> {
        self@
    }
}

impl Url {
    /// The text reads as itself, and the kept host is the host it names.
    #[verifier::type_invariant]
    spec fn reads_as_itself(self) -> bool {
        parsed(self.text@) == Some((self.text@, self.host.deep_view()))
    }

    /// Makes the `Url` of `text` where `text` is an address.
    fn settle(text: String) -> (outcome: Result<Url, UrlError>)
        ensures
            match outcome {
                Ok(url) => settled(Some(text@)) == Some(url@),
                Err(error) => settled(Some(text@)).is_none() && error == UrlError::Unparsable,
            },
    {
        match parse_parts(text.as_str()) {
            Ok((again, host)) => {
                if again == text {
                    Ok(Url { text, host })
                } else {
                    Err(UrlError::Unparsable)
                }
            },
            Err(_) => Err(UrlError::Unparsable),
        }
    }

    /// Reads an absolute URL from `input` and normalizes it.
    ///
    /// Fails where `input` is not a URL, and where its normalized form would
    /// not read back as itself.
    pub fn parse(input: &str) -> (outcome: Result<Url, UrlError>)
        ensures
            match outcome {
                Ok(url) => address_of(input@) == Some(url@),
                Err(error) => address_of(input@).is_none() && error == UrlError::Unparsable,
            },
    {
        match parse_parts(input) {
            Ok((text, _)) => Url::settle(text),
            Err(_) => Err(UrlError::Unparsable),
        }
    }

    /// Resolves `href`, as it stands in a page at this address, to the address
    /// it points to.
    ///
    /// Fails where `href` does not resolve, and where what it resolves to
    /// would not read back as itself.
    pub fn join(&self, href: &str) -> (outcome: Result<Url, UrlError>)
        ensures
            match outcome {
                Ok(url) => target_of(self@, href@) == Some(url@),
                Err(error) => target_of(self@, href@).is_none() && error == UrlError::Unparsable,
            },
    {
        match resolve(self.text.as_str(), href) {
            Ok(text) => Url::settle(text),
            Err(_) => Err(UrlError::Unparsable),
        }
    }

    /// The normalized text of this address. Read again, it gives this
    /// address.
    pub fn as_str(&self) -> (text: &str)
        ensures
            text@ == self@,
            address_of(text@) == Some(self@),
    {
        proof {
            use_type_invariant(self);
        }
        self.text.as_str()
    }

    /// The host this address names, if it names one.
    pub fn host(&self) -> (host: &Option<Host>)
        ensures
            host.deep_view() == url_host(self@),
    {
        proof {
            use_type_invariant(self);
        }
        &self.host
    }

    /// Whether this address and `other` name a host, and the same one.
    pub fn same_host(&self, other: &Url) -> (same: bool)
        ensures
            same == same_host(self@, other@),
    {
        proof {
            use_type_invariant(self);
            use_type_invariant(other);
        }
        match (&self.host, &other.host) {
            (Some(mine), Some(theirs)) => mine.same_as(theirs),
            _ => false,
        }
    }
}

impl Clone for Url {
    fn clone(&self) -> (copy: Self)
        ensures
            copy@ == self@,
    {
        proof {
            use_type_invariant(self);
        }
        let host = match &self.host {
            Some(host) => Some(host.clone()),
            None => None,
        };
        Url { text: self.text.clone(), host }
    }
}

impl PartialEq for Url {
    fn eq(&self, other: &Url) -> (equal: bool) {
        self.text == other.text
    }
}

impl Eq for Url {}

impl PartialEqSpecImpl for Url {
    open spec fn obeys_eq_spec() -> bool {
        true
    }

    open spec fn eq_spec(&self, other: &Url) -> bool {
        self@ == other@
    }
}

} // verus!
