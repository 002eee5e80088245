use std::collections::HashMap;
use std::collections::VecDeque;

use my_crawler::report_for;
use my_crawler::Coordinator;
use my_crawler::CrawlResult;
use my_crawler::Report;
use my_crawler::Url;

fn url(text: &str) -> Url {
    Url::parse(text).unwrap()
}

fn texts(links: &[Url]) -> Vec<String> {
    links.iter().map(|link| link.as_str().to_string()).collect()
}

fn page(address: &str, links: &[&str]) -> Report {
    Report::Fetched(CrawlResult { url: url(address), links: links.iter().map(|l| url(l)).collect() })
}

fn anchors(hrefs: &[&str]) -> String {
    hrefs.iter().map(|href| format!("<a href=\"{}\">x</a>", href)).collect()
}

/// What a whole crawl did: the addresses workers were sent to, the pages
/// stored, the failures, and the number of reports taken in.
struct Crawl {
    sent: Vec<String>,
    stored: Vec<CrawlResult>,
    failed: Vec<String>,
    reports: usize,
}

/// Runs a crawl of `site` to its end. The worker that reports next is the
/// one sent out first, or the one sent out last.
fn crawl(site: &HashMap<&str, String>, seed: &str, oldest_first: bool) -> Crawl {
    let seed = url(seed);
    let mut coordinator = Coordinator::start(&seed);
    let mut done = Crawl { sent: vec![seed.as_str().to_string()], stored: vec![], failed: vec![], reports: 0 };
    let mut at_work = VecDeque::from(vec![seed]);
    loop {
        assert_eq!(coordinator.pending(), at_work.len());
        assert_eq!(coordinator.is_done(), at_work.is_empty());
        let next = if oldest_first { at_work.pop_front() } else { at_work.pop_back() };
        let Some(address) = next else { break };
        let body = site.get(address.as_str()).map(|body| body.as_str());
        let report = report_for(address, body);
        if let Report::Failed(address) = &report {
            done.failed.push(address.as_str().to_string());
        }
        let step = coordinator.on_report(report);
        done.reports += 1;
        if let Some(page) = step.store {
            done.stored.push(page);
        }
        for address in step.spawn {
            assert!(coordinator.has_seen(&address));
            done.sent.push(address.as_str().to_string());
            at_work.push_back(address);
        }
        assert_eq!(step.done, at_work.is_empty());
        assert!(done.reports <= 100);
    }
    assert_eq!(coordinator.seen_count(), done.sent.len());
    done
}

fn sorted(mut texts: Vec<String>) -> Vec<String> {
    texts.sort();
    texts
}

#[test]
fn start_sees_the_seed_and_counts_its_worker() {
    let seed = url("https://example.com");
    let coordinator = Coordinator::start(&seed);
    assert_eq!(coordinator.pending(), 1);
    assert!(!coordinator.is_done());
    assert!(coordinator.has_seen(&seed));
    assert!(coordinator.has_seen(&url("https://EXAMPLE.com/")));
    assert!(!coordinator.has_seen(&url("https://example.com/foo")));
    assert_eq!(coordinator.seen_count(), 1);
}

#[test]
fn links_on_the_host_are_visited_and_others_only_recorded() {
    let seed = url("https://example.com");
    let mut coordinator = Coordinator::start(&seed);
    let body = r#"<a href="/foo">a</a><a href="https://rust-lang.org">b</a>"#;
    let report = report_for(seed.clone(), Some(body));
    let step = coordinator.on_report(report);

    let stored = step.store.unwrap();
    assert_eq!(stored.url, seed);
    assert_eq!(texts(&stored.links), vec!["https://example.com/foo", "https://rust-lang.org/"]);
    assert_eq!(texts(&step.spawn), vec!["https://example.com/foo"]);
    assert!(!step.done);
    assert_eq!(coordinator.pending(), 1);
    assert!(coordinator.has_seen(&url("https://example.com/foo")));
    assert!(!coordinator.has_seen(&url("https://rust-lang.org/")));
    assert_eq!(coordinator.seen_count(), 2);

    let step = coordinator.on_report(report_for(url("https://example.com/foo"), Some("")));
    assert_eq!(step.store.unwrap().links, vec![]);
    assert_eq!(step.spawn, vec![]);
    assert!(step.done);
    assert!(coordinator.is_done());
}

#[test]
fn an_address_linked_from_two_pages_is_fetched_once() {
    let mut site = HashMap::new();
    site.insert("https://example.com/", anchors(&["/one", "/two"]));
    site.insert("https://example.com/one", anchors(&["/shared"]));
    site.insert("https://example.com/two", anchors(&["/shared"]));
    site.insert("https://example.com/shared", anchors(&[]));
    for oldest_first in [true, false] {
        let done = crawl(&site, "https://example.com", oldest_first);
        let shared = done.sent.iter().filter(|sent| *sent == "https://example.com/shared").count();
        assert_eq!(shared, 1);
        let stored = done.stored.iter().filter(|page| page.url.as_str() == "https://example.com/shared");
        assert_eq!(stored.count(), 1);
        assert_eq!(done.reports, 4);
    }
}

#[test]
fn two_reports_at_once_for_the_same_link_send_one_worker() {
    let mut coordinator = Coordinator::start(&url("https://example.com/"));
    let step = coordinator.on_report(page("https://example.com/", &["https://example.com/one", "https://example.com/two"]));
    assert_eq!(step.spawn.len(), 2);
    assert_eq!(coordinator.pending(), 2);
    let first = coordinator.on_report(page("https://example.com/one", &["https://example.com/shared"]));
    let second = coordinator.on_report(page("https://example.com/two", &["https://example.com/shared"]));
    assert_eq!(texts(&first.spawn), vec!["https://example.com/shared"]);
    assert_eq!(second.spawn, vec![]);
    assert!(!first.done);
    assert!(!second.done);
    assert_eq!(coordinator.pending(), 1);
    assert_eq!(coordinator.seen_count(), 4);
}

#[test]
fn failed_seed_ends_the_crawl_with_nothing_stored() {
    let seed = url("https://example.com");
    let mut coordinator = Coordinator::start(&seed);
    let report = report_for(seed.clone(), None);
    assert_eq!(report, Report::Failed(seed.clone()));
    let step = coordinator.on_report(report);
    assert_eq!(step.store, None);
    assert_eq!(step.spawn, vec![]);
    assert!(step.done);
    assert_eq!(coordinator.pending(), 0);
    assert!(coordinator.is_done());

    let done = crawl(&HashMap::new(), "https://example.com", true);
    assert_eq!(done.stored, vec![]);
    assert_eq!(done.failed, vec!["https://example.com/"]);
    assert_eq!(done.reports, 1);
}

#[test]
fn a_failure_in_the_middle_drops_only_its_own_links() {
    let mut site = HashMap::new();
    site.insert("https://example.com/", anchors(&["/gone", "/here"]));
    site.insert("https://example.com/here", anchors(&["/deeper"]));
    site.insert("https://example.com/deeper", anchors(&[]));
    for oldest_first in [true, false] {
        let done = crawl(&site, "https://example.com/", oldest_first);
        assert_eq!(done.failed, vec!["https://example.com/gone"]);
        let stored: Vec<String> = done.stored.iter().map(|page| page.url.as_str().to_string()).collect();
        assert_eq!(
            sorted(stored),
            vec!["https://example.com/", "https://example.com/deeper", "https://example.com/here"]
        );
        assert_eq!(done.reports, 4);
    }
}

#[test]
fn a_link_held_twice_by_one_page_is_accepted_once() {
    let mut coordinator = Coordinator::start(&url("https://example.com/"));
    let step = coordinator.on_report(page(
        "https://example.com/",
        &[
            "https://example.com/a",
            "https://example.com/b",
            "https://example.com/a",
            "https://EXAMPLE.com/a",
            "https://example.com/",
            "https://example.com/b#part",
        ],
    ));
    assert_eq!(
        texts(&step.spawn),
        vec!["https://example.com/a", "https://example.com/b", "https://example.com/b#part"]
    );
    assert_eq!(step.store.unwrap().links.len(), 6);
    assert_eq!(coordinator.pending(), 3);
    assert_eq!(coordinator.seen_count(), 4);
}

#[test]
fn only_the_host_decides_not_the_scheme_or_the_port() {
    let mut coordinator = Coordinator::start(&url("https://example.com/"));
    let step = coordinator.on_report(page(
        "https://example.com/",
        &[
            "http://example.com/plain",
            "https://example.com:8443/port",
            "https://www.example.com/",
            "https://example.org/",
            "https://93.184.216.34/",
            "mailto:someone@example.com",
            "ftp://example.com/file",
        ],
    ));
    assert_eq!(
        texts(&step.spawn),
        vec!["http://example.com/plain", "https://example.com:8443/port", "ftp://example.com/file"]
    );
    assert!(!coordinator.has_seen(&url("https://www.example.com/")));
    assert!(!coordinator.has_seen(&url("https://example.org/")));
    assert!(!coordinator.has_seen(&url("mailto:someone@example.com")));
}

#[test]
fn a_page_without_host_sends_no_worker() {
    let seed = url("mailto:someone@example.com");
    let mut coordinator = Coordinator::start(&seed);
    let step = coordinator.on_report(page(
        "mailto:someone@example.com",
        &["mailto:other@example.com", "https://example.com/"],
    ));
    assert_eq!(step.spawn, vec![]);
    assert_eq!(step.store.unwrap().links.len(), 2);
    assert!(step.done);
}

#[test]
fn the_count_goes_down_by_one_and_up_by_each_worker_sent() {
    let mut coordinator = Coordinator::start(&url("http://10.0.0.1/"));
    assert_eq!(coordinator.pending(), 1);
    let step = coordinator.on_report(page("http://10.0.0.1/", &["http://10.0.0.1/a", "http://10.0.0.1/b", "http://10.0.0.1/c"]));
    assert_eq!(step.spawn.len(), 3);
    assert_eq!(coordinator.pending(), 3);
    let step = coordinator.on_report(Report::Failed(url("http://10.0.0.1/a")));
    assert_eq!((step.store, step.spawn.len(), step.done), (None, 0, false));
    assert_eq!(coordinator.pending(), 2);
    let step = coordinator.on_report(page("http://10.0.0.1/b", &["http://10.0.0.1/a", "http://10.0.0.1/d", "http://10.0.0.2/"]));
    assert_eq!(texts(&step.spawn), vec!["http://10.0.0.1/d"]);
    assert_eq!(coordinator.pending(), 2);
    let step = coordinator.on_report(page("http://10.0.0.1/c", &[]));
    assert!(!step.done);
    assert_eq!(coordinator.pending(), 1);
    let step = coordinator.on_report(page("http://10.0.0.1/d", &["http://10.0.0.1/"]));
    assert!(step.done);
    assert_eq!(coordinator.pending(), 0);
    assert_eq!(coordinator.seen_count(), 5);
}

#[test]
fn a_crawl_of_a_site_with_cycles_ends_with_each_page_stored_once() {
    let mut site = HashMap::new();
    site.insert("https://example.com/", anchors(&["/a", "/b", "https://elsewhere.example/", "/"]));
    site.insert("https://example.com/a", anchors(&["/b", "/", "/a"]));
    site.insert("https://example.com/b", anchors(&["/c", "/a"]));
    site.insert("https://example.com/c", anchors(&["/", "/d", "/d"]));
    site.insert("https://example.com/d", anchors(&["https://elsewhere.example/x"]));
    site.insert("https://example.com/island", anchors(&["/"]));
    site.insert("https://elsewhere.example/", anchors(&["https://example.com/island"]));
    let reachable = vec![
        "https://example.com/",
        "https://example.com/a",
        "https://example.com/b",
        "https://example.com/c",
        "https://example.com/d",
    ];
    for oldest_first in [true, false] {
        let done = crawl(&site, "https://example.com", oldest_first);
        assert_eq!(done.reports, reachable.len());
        assert_eq!(sorted(done.sent.clone()), reachable);
        let stored: Vec<String> = done.stored.iter().map(|page| page.url.as_str().to_string()).collect();
        assert_eq!(sorted(stored), reachable);
        assert_eq!(done.failed, Vec::<String>::new());
        for page in &done.stored {
            assert_eq!(page.links, my_crawler::extract_links(&page.url, &site[page.url.as_str()]));
        }
    }
}

#[test]
fn report_for_a_body_holds_its_links() {
    let address = url("https://example.com/dir/");
    let report = report_for(address.clone(), Some(r#"<a href="x">x</a><a>none</a><a href="/y">y</a>"#));
    assert_eq!(
        report,
        Report::Fetched(CrawlResult {
            url: address.clone(),
            links: vec![url("https://example.com/dir/x"), url("https://example.com/y")],
        })
    );
    assert_eq!(report.url(), &address);
    let empty = report_for(address.clone(), Some(""));
    assert_eq!(empty, Report::Fetched(CrawlResult { url: address.clone(), links: vec![] }));
    let failed = report_for(address.clone(), None);
    assert_eq!(failed, Report::Failed(address.clone()));
    assert_eq!(failed.url(), &address);
}

#[test]
fn a_worker_waits_one_second_before_it_fetches() {
    assert_eq!(my_crawler::FETCH_DELAY_SECONDS, 1);
}
