use my_crawler::Host;
use my_crawler::Url;
use my_crawler::UrlError;

#[test]
fn parse_normalizes() {
    assert_eq!(Url::parse("https://example.com").unwrap().as_str(), "https://example.com/");
    assert_eq!(Url::parse("HTTPS://EXAMPLE.com/A/../b").unwrap().as_str(), "https://example.com/b");
    assert_eq!(Url::parse("http://example.com:80/").unwrap().as_str(), "http://example.com/");
    assert_eq!(
        Url::parse("https://example.com/p?q=1#f").unwrap().as_str(),
        "https://example.com/p?q=1#f"
    );
}

#[test]
fn parse_refuses_what_is_no_absolute_url() {
    assert_eq!(Url::parse("not a url"), Err(UrlError::Unparsable));
    assert_eq!(Url::parse(""), Err(UrlError::Unparsable));
    assert_eq!(Url::parse("/relative/path"), Err(UrlError::Unparsable));
    assert_eq!(Url::parse("http://["), Err(UrlError::Unparsable));
    assert_eq!(Url::parse("https://"), Err(UrlError::Unparsable));
}

#[test]
fn addresses_are_equal_by_normalized_text() {
    assert_eq!(Url::parse("https://example.com").unwrap(), Url::parse("https://EXAMPLE.com/").unwrap());
    assert_ne!(Url::parse("https://example.com/a").unwrap(), Url::parse("https://example.com/b").unwrap());
    assert_ne!(Url::parse("http://example.com/").unwrap(), Url::parse("https://example.com/").unwrap());
    assert_ne!(Url::parse("https://example.com/a").unwrap(), Url::parse("https://example.com/a#f").unwrap());
}

#[test]
fn text_of_an_address_reads_back_as_the_address() {
    for input in [
        "https://example.com",
        "http://127.0.0.1:8080/x y",
        "https://example.com/ä?ö=ü#é",
        "mailto:someone@example.com",
        "http://[::1]/",
        "file:///tmp/x",
    ] {
        let url = Url::parse(input).unwrap();
        let again = Url::parse(url.as_str()).unwrap();
        assert_eq!(again, url);
        assert_eq!(again.as_str(), url.as_str());
        assert_eq!(again.host(), url.host());
    }
}

#[test]
fn join_resolves_as_a_browser_does() {
    let base = Url::parse("https://example.net/a/b.html").unwrap();
    assert_eq!(base.join("c.png").unwrap().as_str(), "https://example.net/a/c.png");
    assert_eq!(base.join("/v1/meta").unwrap().as_str(), "https://example.net/v1/meta");
    assert_eq!(base.join("//eve.com/b").unwrap().as_str(), "https://eve.com/b");
    assert_eq!(base.join("http://eve.com/b").unwrap().as_str(), "http://eve.com/b");
    assert_eq!(base.join("").unwrap().as_str(), "https://example.net/a/b.html");
    assert_eq!(base.join("#top").unwrap().as_str(), "https://example.net/a/b.html#top");
    let dir = Url::parse("https://example.net/a/b/").unwrap();
    assert_eq!(dir.join("c.png").unwrap().as_str(), "https://example.net/a/b/c.png");
}

#[test]
fn join_refuses_what_does_not_resolve() {
    let base = Url::parse("https://example.net/").unwrap();
    assert_eq!(base.join("http://["), Err(UrlError::Unparsable));
    assert_eq!(base.join("https://exa mple.com/"), Err(UrlError::Unparsable));
    let letter = Url::parse("mailto:someone@example.com").unwrap();
    assert_eq!(letter.join("relative"), Err(UrlError::Unparsable));
}

#[test]
fn join_gives_an_address_with_its_own_host() {
    let base = Url::parse("https://example.net/").unwrap();
    let there = base.join("//192.168.0.1/x").unwrap();
    assert_eq!(there.host(), &Some(Host::Ipv4(0xC0A8_0001)));
    assert_eq!(there, Url::parse("https://192.168.0.1/x").unwrap());
}

#[test]
fn host_is_read_off_the_address() {
    assert_eq!(
        Url::parse("https://Example.COM/x").unwrap().host(),
        &Some(Host::Domain("example.com".to_string()))
    );
    assert_eq!(Url::parse("http://127.0.0.1:8080/").unwrap().host(), &Some(Host::Ipv4(2130706433)));
    assert_eq!(Url::parse("http://[::1]/").unwrap().host(), &Some(Host::Ipv6(1)));
    assert_eq!(
        Url::parse("http://[2001:db8::ff00:42:8329]/").unwrap().host(),
        &Some(Host::Ipv6(0x2001_0db8_0000_0000_0000_ff00_0042_8329))
    );
    assert_eq!(Url::parse("mailto:someone@example.com").unwrap().host(), &None);
    assert_eq!(Url::parse("data:text/plain,hi").unwrap().host(), &None);
}

#[test]
fn same_host_needs_a_host_on_both_sides() {
    let a = Url::parse("https://example.com/a").unwrap();
    let b = Url::parse("http://example.com:8080/b").unwrap();
    let www = Url::parse("https://www.example.com/").unwrap();
    let letter = Url::parse("mailto:someone@example.com").unwrap();
    let other_letter = Url::parse("mailto:other@example.com").unwrap();
    assert!(a.same_host(&b));
    assert!(b.same_host(&a));
    assert!(a.same_host(&a));
    assert!(!a.same_host(&www));
    assert!(!a.same_host(&letter));
    assert!(!letter.same_host(&a));
    assert!(!letter.same_host(&other_letter));
    assert!(!letter.same_host(&letter));
}

#[test]
fn hosts_of_different_kinds_differ() {
    let number = Host::Ipv4(1);
    let long_number = Host::Ipv6(1);
    let name = Host::Domain("1".to_string());
    assert!(number.same_as(&Host::Ipv4(1)));
    assert!(!number.same_as(&Host::Ipv4(2)));
    assert!(!number.same_as(&long_number));
    assert!(!long_number.same_as(&number));
    assert!(!name.same_as(&number));
    assert!(name.same_as(&Host::Domain("1".to_string())));
    assert!(!name.same_as(&Host::Domain("2".to_string())));
    assert!(long_number.same_as(&long_number.clone()));
}

#[test]
fn a_name_that_spells_a_number_is_not_that_number() {
    let web = Url::parse("http://1.2.3.4/").unwrap();
    let other = Url::parse("foo://1.2.3.4/").unwrap();
    assert_eq!(web.host(), &Some(Host::Ipv4(0x0102_0304)));
    assert_eq!(other.host(), &Some(Host::Domain("1.2.3.4".to_string())));
    assert!(!web.same_host(&other));
}

#[test]
fn clone_is_the_same_address() {
    let url = Url::parse("https://example.com/a?b#c").unwrap();
    let copy = url.clone();
    assert_eq!(copy, url);
    assert_eq!(copy.as_str(), "https://example.com/a?b#c");
    assert_eq!(copy.host(), url.host());
}
