//! A crawl against a web site: that it ends, that it reaches everything
//! that can be reached, and that it stores each page once.
//!
//! The site is what the workers find: which addresses can be fetched, and
//! what each page links to. The order in which the workers report is free;
//! what is shown here holds of every order.

use vstd::prelude::*;
use vstd::seq_lib::lemma_seq_contains_after_push;
use vstd::set_lib::lemma_len_subset;
use vstd::set_lib::lemma_subset_equality;
use crate::address::same_host;
use crate::crawl::at_work;
use crate::crawl::dispatched;
use crate::crawl::lemma_accepted_once;
use crate::crawl::lemma_dispatched_once;
use crate::crawl::lemma_pending_counts_workers;
use crate::crawl::orderly;
use crate::crawl::reported;
use crate::crawl::run;
use crate::report::PageView;
use crate::report::ReportView;

verus! {

/// A web site as a crawl meets it: for each address that can be fetched, the
/// links of the page found there. An address that is not among `pages`
/// cannot be fetched.
#[verifier::ext_equal]
pub struct Site {
    pub pages: Map<Seq<char>, Seq<Seq<char>>>,
}

impl Site {
    /// The report of a worker that was sent to `url` on this site.
    pub open spec fn report(self, url: Seq<char>) -> ReportView {
        if self.pages.dom().contains(url) {
            ReportView::Fetched(PageView { url, links: self.pages[url] })
        } else {
            ReportView::Failed(url)
        }
    }

    /// Whether each of `reports` says of its address what this site holds.
    pub open spec fn truthful(self, reports: Seq<ReportView>) -> bool {
        forall|k: int| 0 <= k < reports.len() ==> #[trigger] reports[k] == self.report(reports[k].url())
    }

    /// Whether a crawl goes from `from` on to `to`: the page at `from` can be
    /// fetched, it links to `to`, and `to` is on its host.
    pub open spec fn follows(self, from: Seq<char>, to: Seq<char>) -> bool {
        self.pages.dom().contains(from) && self.pages[from].contains(to) && same_host(to, from)
    }

    /// Whether `path` leads from `seed` along links that a crawl follows.
    pub open spec fn is_path(self, seed: Seq<char>, path: Seq<Seq<char>>) -> bool {
        &&& path.len() > 0
        &&& path[0] == seed
        &&& forall|i: int| 0 <= i < path.len() - 1 ==> self.follows(#[trigger] path[i], path[i + 1])
    }

    /// The addresses that can be reached from `seed` without leaving a host.
    pub open spec fn reachable(self, seed: Seq<char>) -> Set<Seq<char>> {
        Set::new(|url: Seq<char>| exists|path: Seq<Seq<char>>| #[trigger]
            self.is_path(seed, path) && path.last() == url)
    }
}

/// The pages that the coordinator asked to have stored, in the order of
/// their reports.
pub open spec fn kept(reports: Seq<ReportView>) -> Seq<PageView> {
    reports.filter_map(|report: ReportView| report.stored())
}

/// The addresses of the pages that the coordinator asked to have stored: the
/// keys that the store is written under, in the order of writing.
pub open spec fn kept_urls(reports: Seq<ReportView>) -> Seq<Seq<char>> {
    kept(reports).map_values(|page: PageView| page.url)
}

/// Reports that say what the site holds still do so when the last is left
/// out.
proof fn lemma_truthful_without_last(site: Site, reports: Seq<ReportView>)
    requires
        site.truthful(reports),
        reports.len() > 0,
    ensures
        site.truthful(reports.drop_last()),
        reports.last() == site.report(reports.last().url()),
{
    let earlier = reports.drop_last();
    assert forall|k: int| 0 <= k < earlier.len() implies #[trigger] earlier[k] == site.report(
        earlier[k].url(),
    ) by {
        assert(earlier[k] == reports[k]);
    }
}

/// A path without its last address is a path.
proof fn lemma_path_without_last(site: Site, seed: Seq<char>, path: Seq<Seq<char>>)
    requires
        site.is_path(seed, path),
        path.len() > 1,
    ensures
        site.is_path(seed, path.drop_last()),
        site.follows(path.drop_last().last(), path.last()),
{
    let shorter = path.drop_last();
    assert forall|i: int| 0 <= i < shorter.len() - 1 implies site.follows(
        #[trigger] shorter[i],
        shorter[i + 1],
    ) by {
        assert(site.follows(path[i], path[i + 1]));
    }
}

/// A path with one more address that its last address leads on to is a path.
proof fn lemma_path_with_next(site: Site, seed: Seq<char>, path: Seq<Seq<char>>, next: Seq<char>)
    requires
        site.is_path(seed, path),
        site.follows(path.last(), next),
    ensures
        site.is_path(seed, path.push(next)),
{
    let longer = path.push(next);
    assert forall|i: int| 0 <= i < longer.len() - 1 implies site.follows(
        #[trigger] longer[i],
        longer[i + 1],
    ) by {
        if i < path.len() - 1 {
            assert(site.follows(path[i], path[i + 1]));
        }
    }
}

/// The seed is the first address a worker is sent to.
proof fn lemma_seed_is_dispatched(seed: Seq<char>, reports: Seq<ReportView>)
    ensures
        dispatched(seed, reports).len() > 0,
        dispatched(seed, reports)[0] == seed,
    decreases reports.len(),
{
    if reports.len() > 0 {
        lemma_seed_is_dispatched(seed, reports.drop_last());
    }
}

/// A crawl sees only what can be reached from its seed.
proof fn lemma_seen_is_reachable(site: Site, seed: Seq<char>, reports: Seq<ReportView>)
    requires
        orderly(seed, reports),
        site.truthful(reports),
    ensures
        run(seed, reports).seen.subset_of(site.reachable(seed)),
    decreases reports.len(),
{
    if reports.len() == 0 {
        assert(site.is_path(seed, seq![seed]));
    } else {
        let earlier = reports.drop_last();
        let last = reports.last();
        let before = run(seed, earlier);
        lemma_truthful_without_last(site, reports);
        lemma_seen_is_reachable(site, seed, earlier);
        assert forall|url: Seq<char>| run(seed, reports).seen.contains(url) implies site.reachable(
            seed,
        ).contains(url) by {
            if !before.seen.contains(url) {
                let page = last->Fetched_0;
                lemma_accepted_once(before.seen, page.url, page.links);
                let path = choose|path: Seq<Seq<char>>| #[trigger]
                    site.is_path(seed, path) && path.last() == page.url;
                lemma_path_with_next(site, seed, path, url);
            }
        }
    }
}

/// Every link that a crawl follows from a page that has reported is seen.
proof fn lemma_links_are_followed(site: Site, seed: Seq<char>, reports: Seq<ReportView>)
    requires
        orderly(seed, reports),
        site.truthful(reports),
    ensures
        forall|from: Seq<char>, to: Seq<char>|
            reported(reports).contains(from) && #[trigger] site.follows(from, to) ==> run(
                seed,
                reports,
            ).seen.contains(to),
    decreases reports.len(),
{
    if reports.len() > 0 {
        let earlier = reports.drop_last();
        let last = reports.last();
        let before = run(seed, earlier);
        lemma_truthful_without_last(site, reports);
        lemma_links_are_followed(site, seed, earlier);
        assert(reported(reports) == reported(earlier).push(last.url()));
        assert forall|from: Seq<char>, to: Seq<char>|
            reported(reports).contains(from) && #[trigger] site.follows(from, to) implies run(
            seed,
            reports,
        ).seen.contains(to) by {
            if !reported(earlier).contains(from) {
                lemma_seq_contains_after_push(reported(earlier), last.url(), from);
                let page = last->Fetched_0;
                lemma_accepted_once(before.seen, page.url, page.links);
            }
        }
    }
}

/// Once nothing is at work, whatever a path leads to has been seen.
proof fn lemma_path_is_seen(
    site: Site,
    seed: Seq<char>,
    reports: Seq<ReportView>,
    path: Seq<Seq<char>>,
)
    requires
        orderly(seed, reports),
        site.truthful(reports),
        run(seed, reports).done(),
        site.is_path(seed, path),
    ensures
        run(seed, reports).seen.contains(path.last()),
    decreases path.len(),
{
    lemma_dispatched_once(seed, reports);
    if path.len() == 1 {
        lemma_seed_is_dispatched(seed, reports);
    } else {
        let from = path.drop_last().last();
        lemma_path_without_last(site, seed, path);
        lemma_path_is_seen(site, seed, reports, path.drop_last());
        lemma_pending_counts_workers(seed, reports);
        lemma_links_are_followed(site, seed, reports);
        assert(!at_work(seed, reports).contains(from));
    }
}

/// A crawl whose count has reached zero is complete: it has seen exactly the
/// addresses that can be reached from the seed on its host, and the worker of
/// each of them has reported, once.
pub proof fn lemma_done_is_complete(site: Site, seed: Seq<char>, reports: Seq<ReportView>)
    requires
        orderly(seed, reports),
        site.truthful(reports),
        run(seed, reports).done(),
    ensures
        run(seed, reports).seen == site.reachable(seed),
        reported(reports).to_set() == site.reachable(seed),
        reported(reports).no_duplicates(),
{
    lemma_pending_counts_workers(seed, reports);
    lemma_seen_is_reachable(site, seed, reports);
    assert forall|url: Seq<char>| site.reachable(seed).contains(url) implies run(
        seed,
        reports,
    ).seen.contains(url) by {
        let path = choose|path: Seq<Seq<char>>| #[trigger]
            site.is_path(seed, path) && path.last() == url;
        lemma_path_is_seen(site, seed, reports, path);
    }
    assert forall|url: Seq<char>| run(seed, reports).seen.contains(url) implies reported(
        reports,
    ).to_set().contains(url) by {
        assert(!at_work(seed, reports).contains(url));
    }
}

/// A crawl of a site with finitely many reachable addresses ends: it takes
/// in at most one report for each of them, and with the last of them its
/// count is zero.
pub proof fn lemma_crawl_is_bounded(site: Site, seed: Seq<char>, reports: Seq<ReportView>)
    requires
        site.reachable(seed).finite(),
        orderly(seed, reports),
        site.truthful(reports),
    ensures
        reports.len() <= site.reachable(seed).len(),
        reports.len() == site.reachable(seed).len() ==> run(seed, reports).done(),
{
    let visited = reported(reports).to_set();
    lemma_pending_counts_workers(seed, reports);
    lemma_seen_is_reachable(site, seed, reports);
    reported(reports).unique_seq_to_set();
    lemma_len_subset(visited, site.reachable(seed));
    if reports.len() == site.reachable(seed).len() {
        lemma_subset_equality(visited, site.reachable(seed));
        assert(at_work(seed, reports) =~= Set::<Seq<char>>::empty());
    }
}

/// A crawl that is not over can go on: a worker is at work, and when it
/// reports what the site holds, the reports are still in order.
pub proof fn lemma_crawl_goes_on(site: Site, seed: Seq<char>, reports: Seq<ReportView>)
    requires
        orderly(seed, reports),
        site.truthful(reports),
        !run(seed, reports).done(),
    ensures
        exists|url: Seq<char>| #[trigger]
            at_work(seed, reports).contains(url) && orderly(seed, reports.push(site.report(url)))
                && site.truthful(reports.push(site.report(url))),
{
    lemma_pending_counts_workers(seed, reports);
    let url = at_work(seed, reports).choose();
    let longer = reports.push(site.report(url));
    assert(longer.drop_last() == reports);
    assert(orderly(seed, longer));
    assert forall|k: int| 0 <= k < longer.len() implies #[trigger] longer[k] == site.report(
        longer[k].url(),
    ) by {
        if k < reports.len() {
            assert(longer[k] == reports[k]);
        }
    }
}

/// Each page is stored once: the pages to store are the pages of the
/// addresses that reported and could be fetched, each as the site holds it,
/// and no two of them have the same address.
pub proof fn lemma_kept_once(site: Site, seed: Seq<char>, reports: Seq<ReportView>)
    requires
        orderly(seed, reports),
        site.truthful(reports),
    ensures
        kept_urls(reports).no_duplicates(),
        forall|page: PageView|
            kept(reports).contains(page) <==> reported(reports).contains(page.url) && site.report(
                page.url,
            ) == ReportView::Fetched(page),
    decreases reports.len(),
{
    if reports.len() > 0 {
        let earlier = reports.drop_last();
        let last = reports.last();
        lemma_truthful_without_last(site, reports);
        lemma_kept_once(site, seed, earlier);
        lemma_pending_counts_workers(seed, earlier);
        assert(reported(reports) == reported(earlier).push(last.url()));
        if let ReportView::Fetched(page) = last {
            assert(kept(reports) == kept(earlier).push(page));
            assert(kept_urls(reports) == kept_urls(earlier).push(page.url));
            assert forall|i: int| 0 <= i < kept(earlier).len() implies kept_urls(earlier)[i]
                != page.url by {
                assert(kept(earlier).contains(kept(earlier)[i]));
            }
        }
        assert forall|page: PageView|
            kept(reports).contains(page) <==> reported(reports).contains(page.url) && site.report(
                page.url,
            ) == ReportView::Fetched(page) by {
            lemma_seq_contains_after_push(reported(earlier), last.url(), page.url);
            if last is Fetched {
                lemma_seq_contains_after_push(kept(earlier), last->Fetched_0, page);
            }
        }
    }
}

/// A crawl of a site with finitely many reachable addresses ends, and ends
/// complete.
///
/// It takes in one report for each reachable address and no other, so its
/// count is zero exactly when it has taken in as many reports as there are
/// reachable addresses. By then each reachable page that could be fetched has
/// been stored, once, and nothing else has.
pub proof fn lemma_crawl_ends_complete(site: Site, seed: Seq<char>, reports: Seq<ReportView>)
    requires
        site.reachable(seed).finite(),
        orderly(seed, reports),
        site.truthful(reports),
    ensures
        reports.len() <= site.reachable(seed).len(),
        run(seed, reports).done() <==> reports.len() == site.reachable(seed).len(),
        kept_urls(reports).no_duplicates(),
        run(seed, reports).done() ==> forall|url: Seq<char>|
            kept_urls(reports).contains(url) <==> site.reachable(seed).contains(url)
                && site.pages.dom().contains(url),
{
    lemma_crawl_is_bounded(site, seed, reports);
    lemma_kept_once(site, seed, reports);
    if run(seed, reports).done() {
        lemma_done_is_complete(site, seed, reports);
        reported(reports).unique_seq_to_set();
        assert forall|url: Seq<char>|
            kept_urls(reports).contains(url) <==> site.reachable(seed).contains(url)
                && site.pages.dom().contains(url) by {
            if kept_urls(reports).contains(url) {
                let i = choose|i: int|
                    0 <= i < kept_urls(reports).len() && kept_urls(reports)[i] == url;
                assert(kept(reports).contains(kept(reports)[i]));
            }
            if site.reachable(seed).contains(url) && site.pages.dom().contains(url) {
                let page = PageView { url, links: site.pages[url] };
                assert(kept(reports).contains(page));
                let i = choose|i: int| 0 <= i < kept(reports).len() && kept(reports)[i] == page;
                assert(kept_urls(reports)[i] == url);
            }
        }
    }
}

} // verus!
