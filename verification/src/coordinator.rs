//! The coordinator: the one owner of the set of addresses seen and of the
//! count of workers at work.
//!
//! The coordinator does not run anything. It is told of each report as it
//! arrives and answers with what is to be done: the page to store, the
//! addresses to send workers to, and whether the crawl is over.

use vstd::prelude::*;
use vstd::hash_set::StringHashSet;
use crate::address::same_host;
use crate::address::Url;
use crate::report::CrawlResult;
use crate::report::PageView;
use crate::report::Report;
use crate::report::ReportView;

verus! {

/// Whether a page at `page` may send a worker to `link`: the link is on the
/// host of the page, and was not seen.
pub open spec fn admissible(seen: Set<Seq<char>>, page: Seq<char>, link: Seq<char>) -> bool {
    same_host(link, page) && !seen.contains(link)
}

/// The links of a page that are accepted for a visit: its admissible links,
/// in the order in which the page holds them, each where it first occurs.
pub open spec fn accepted(seen: Set<Seq<char>>, page: Seq<char>, links: Seq<Seq<char>>) -> Seq<
    Seq<char>,
> {
    links.filter(|link: Seq<char>| admissible(seen, page, link)).remove_duplicates(Seq::empty())
}

/// A page without links has none accepted.
pub proof fn lemma_accepted_none(seen: Set<Seq<char>>, page: Seq<char>)
    ensures
        accepted(seen, page, Seq::empty()) == Seq::<Seq<char>>::empty(),
{
    let none = Seq::<Seq<char>>::empty();
    assert(none.filter(|link: Seq<char>| admissible(seen, page, link)) == none);
}

/// One more link at the end of a page is accepted where it is admissible and
/// not accepted already, and changes nothing of what was accepted before it.
pub proof fn lemma_accepted_step(
    seen: Set<Seq<char>>,
    page: Seq<char>,
    links: Seq<Seq<char>>,
    link: Seq<char>,
)
    ensures
        accepted(seen, page, links.push(link)) == if admissible(seen, page, link) && !accepted(
            seen,
            page,
            links,
        ).contains(link) {
            accepted(seen, page, links).push(link)
        } else {
            accepted(seen, page, links)
        },
{
    let admitted = |link: Seq<char>| admissible(seen, page, link);
    let none = Seq::<Seq<char>>::empty();
    let kept = links.filter(admitted);
    links.lemma_filter_push(link, admitted);
    kept.lemma_remove_duplicates_properties(none);
    kept.lemma_remove_duplicates_append(link, none);
    assert(kept + none == kept);
    assert(kept + seq![link] == kept.push(link));
    assert(kept.remove_duplicates(none) + seq![link] == kept.remove_duplicates(none).push(link));
}

/// What a [`Coordinator`] stands for in contracts.
#[verifier::ext_equal]
pub struct CrawlState {
    /// The addresses a worker was ever sent to.
    pub seen: Set<Seq<char>>,
    /// The number of workers sent out that have not reported.
    pub pending: nat,
}

impl CrawlState {
    /// The state in which the crawl begins: the seed is seen, and the one
    /// worker sent to it is at work.
    pub open spec fn start(seed: Seq<char>) -> CrawlState {
        CrawlState { seen: set![seed], pending: 1 }
    }

    /// The addresses to send workers to when `report` arrives.
    pub open spec fn spawned(self, report: ReportView) -> Seq<Seq<char>> {
        match report {
            ReportView::Fetched(page) => accepted(self.seen, page.url, page.links),
            ReportView::Failed(_) => Seq::empty(),
        }
    }

    /// The state after `report` has arrived: its worker is no longer at work,
    /// and each address a worker is sent to is seen and has a worker at work.
    pub open spec fn after(self, report: ReportView) -> CrawlState {
        let spawned = self.spawned(report);
        CrawlState {
            seen: self.seen.union(spawned.to_set()),
            pending: (self.pending - 1 + spawned.len()) as nat,
        }
    }

    /// Whether the crawl is over: no worker is at work.
    pub open spec fn done(self) -> bool {
        self.pending == 0
    }
}

/// What the coordinator asks for in answer to one report.
#[derive(Debug, PartialEq, Eq)]
pub struct Step {
    /// The page to put in the store, under the text of its address.
    pub store: Option<CrawlResult>,
    /// The addresses to send one worker each to.
    pub spawn: Vec<Url>,
    /// Whether the crawl is over.
    pub done: bool,
}

/// What a [`Step`] stands for in contracts: the page to store, the texts of
/// the addresses to send workers to, and whether the crawl is over.
#[verifier::ext_equal]
pub struct StepView {
    pub store: Option<PageView>,
    pub spawn: Seq<Seq<char>>,
    pub done: bool,
}

impl View for Step {
    type V = StepView;

    open spec fn view(&self) -> StepView {
        StepView { store: self.store.deep_view(), spawn: self.spawn.deep_view(), done: self.done }
    }
}

/// The coordinator of one crawl.
pub struct Coordinator {
    seen: StringHashSet,
    pending: usize,
}

impl View for Coordinator {
    type V = CrawlState;

    closed spec fn view(&self) -> CrawlState {
        CrawlState { seen: self.seen@, pending: self.pending as nat }
    }
}

impl Coordinator {
    /// Every worker at work was sent to an address of its own, and all of
    /// those are seen. This holds of every coordinator that [`start`] made,
    /// whatever reports it took in since.
    ///
    /// [`start`]: Coordinator::start
    pub closed spec fn wf(&self) -> bool {
        self.seen@.finite() && self.pending <= self.seen@.len()
    }

    /// Begins a crawl at `seed`. The caller sends the first worker to `seed`.
    pub fn start(seed: &Url) -> (coordinator: Coordinator)
        ensures
            coordinator.wf(),
            coordinator@ == CrawlState::start(seed@),
    {
        let mut seen = StringHashSet::new();
        seen.insert(seed.as_str().to_owned());
        Coordinator { seen, pending: 1 }
    }

    /// The number of workers sent out that have not reported.
    pub fn pending(&self) -> (pending: usize)
        ensures
            pending == self@.pending,
    {
        self.pending
    }

    /// Whether the crawl is over: no worker is at work.
    pub fn is_done(&self) -> (done: bool)
        ensures
            done == self@.done(),
    {
        self.pending == 0
    }

    /// Whether a worker was ever sent to `url`.
    pub fn has_seen(&self, url: &Url) -> (seen: bool)
        ensures
            seen == self@.seen.contains(url@),
    {
        self.seen.contains(url.as_str())
    }

    /// The number of addresses a worker was ever sent to.
    pub fn seen_count(&self) -> (count: usize)
        ensures
            count == self@.seen.len(),
    {
        self.seen.len()
    }

    /// Takes in the report of one worker and says what to do next.
    ///
    /// A fetched page is to be stored, and a worker is to be sent to each of
    /// its links that is on the host of the page and was not seen before. A
    /// failure is only counted. The crawl is over when this was the report of
    /// the last worker at work and it sends out no other.
    pub fn on_report(&mut self, report: Report) -> (step: Step)
        requires
            old(self).wf(),
            old(self)@.pending > 0,
        ensures
            final(self).wf(),
            final(self)@ == old(self)@.after(report@),
            step@ == (StepView {
                store: report@.stored(),
                spawn: old(self)@.spawned(report@),
                done: final(self)@.done(),
            }),
    {
        let ghost before = self@;
        self.pending = self.pending - 1;
        match report {
            Report::Fetched(page) => {
                let mut spawn: Vec<Url> = Vec::new();
                let mut i: usize = 0;
                proof {
                    lemma_accepted_none(before.seen, page.url@);
                    assert(page.links.deep_view().take(0) == Seq::<Seq<char>>::empty());
                }
                while i < page.links.len()
                    invariant
                        i <= page.links.len(),
                        self.seen@.finite(),
                        self.seen@ == before.seen.union(spawn.deep_view().to_set()),
                        spawn.deep_view() == accepted(
                            before.seen,
                            page.url@,
                            page.links.deep_view().take(i as int),
                        ),
                        self.pending == before.pending - 1 + spawn.len(),
                        self.pending <= self.seen@.len(),
                    decreases page.links.len() - i,
                {
                    let link = &page.links[i];
                    let ghost links = page.links.deep_view();
                    let ghost earlier = spawn.deep_view();
                    proof {
                        assert(links.take(i + 1) == links.take(i as int).push(link@));
                        lemma_accepted_step(before.seen, page.url@, links.take(i as int), link@);
                    }
                    if link.same_host(&page.url) && !self.seen.contains(link.as_str()) {
                        self.seen.insert(link.as_str().to_owned());
                        // The set has grown by this address, and its size is a
                        // `usize`: the count, which was no larger than the set
                        // before, has room for one more.
                        assert(self.pending < self.seen.len()) by {
                            broadcast use vstd::hash_set::group_hash_set_axioms;
                        }
                        self.pending = self.pending + 1;
                        spawn.push(link.clone());
                        proof {
                            assert(spawn.deep_view() == earlier.push(link@));
                            earlier.lemma_push_to_set_commute(link@);
                        }
                    }
                    i += 1;
                }
                assert(page.links.deep_view().take(i as int) == page.links.deep_view());
                Step { store: Some(page), spawn, done: self.pending == 0 }
            },
            Report::Failed(_) => {
                assert(before.seen.union(Seq::<Seq<char>>::empty().to_set()) == before.seen);
                Step { store: None, spawn: Vec::new(), done: self.pending == 0 }
            },
        }
    }
}

} // verus!
