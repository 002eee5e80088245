//! The crawl as a whole: what holds of every step of a coordinator, and of
//! every run of reports it may be given.
//!
//! A run is the sequence of reports that a coordinator has taken in since it
//! was started at a seed. The state of the coordinator after a run is
//! `run(seed, reports)`: each call of `Coordinator::on_report` takes it one
//! report on, as `lemma_run_step` says.

use vstd::prelude::*;
use vstd::seq_lib::lemma_no_dup_in_concat;
use vstd::seq_lib::lemma_seq_contains_after_push;
use vstd::seq_lib::seq_to_set_distributes_over_add;
use vstd::seq_lib::seq_to_set_is_finite;
use vstd::set_lib::lemma_set_disjoint_lens;
use crate::address::same_host;
use crate::coordinator::accepted;
use crate::coordinator::lemma_accepted_none;
use crate::coordinator::lemma_accepted_step;
use crate::coordinator::CrawlState;
use crate::report::ReportView;

verus! {

/// The state of a crawl that began at `seed`, after `reports` have arrived
/// in this order.
pub open spec fn run(seed: Seq<char>, reports: Seq<ReportView>) -> CrawlState
    decreases reports.len(),
{
    if reports.len() == 0 {
        CrawlState::start(seed)
    } else {
        run(seed, reports.drop_last()).after(reports.last())
    }
}

/// Every address a worker was sent to in the course of a crawl, in the order
/// of sending: the seed, then what each report made the coordinator send out.
pub open spec fn dispatched(seed: Seq<char>, reports: Seq<ReportView>) -> Seq<Seq<char>>
    decreases reports.len(),
{
    if reports.len() == 0 {
        seq![seed]
    } else {
        dispatched(seed, reports.drop_last()) + run(seed, reports.drop_last()).spawned(
            reports.last(),
        )
    }
}

/// The addresses whose workers have reported, in the order of their reports.
pub open spec fn reported(reports: Seq<ReportView>) -> Seq<Seq<char>> {
    reports.map_values(|report: ReportView| report.url())
}

/// The addresses whose workers are at work: sent out, and not yet reported.
pub open spec fn at_work(seed: Seq<char>, reports: Seq<ReportView>) -> Set<Seq<char>> {
    run(seed, reports).seen.difference(reported(reports).to_set())
}

/// Whether each of `reports` came from a worker that was at work when it
/// arrived: every worker reports once, and only workers that were sent out
/// report.
pub open spec fn orderly(seed: Seq<char>, reports: Seq<ReportView>) -> bool
    decreases reports.len(),
{
    reports.len() > 0 ==> orderly(seed, reports.drop_last()) && at_work(
        seed,
        reports.drop_last(),
    ).contains(reports.last().url())
}

/// One more report takes a crawl one step on.
pub proof fn lemma_run_step(seed: Seq<char>, reports: Seq<ReportView>, report: ReportView)
    ensures
        run(seed, reports.push(report)) == run(seed, reports).after(report),
        dispatched(seed, reports.push(report)) == dispatched(seed, reports) + run(
            seed,
            reports,
        ).spawned(report),
{
    assert(reports.push(report).drop_last() == reports);
}

/// A link is accepted exactly when the page holds it, it is on the host of
/// the page, and it was not seen; and no link is accepted twice, however
/// often the page holds it.
pub proof fn lemma_accepted_once(seen: Set<Seq<char>>, page: Seq<char>, links: Seq<Seq<char>>)
    ensures
        accepted(seen, page, links).no_duplicates(),
        forall|link: Seq<char>|
            accepted(seen, page, links).contains(link) <==> links.contains(link) && same_host(
                link,
                page,
            ) && !seen.contains(link),
    decreases links.len(),
{
    if links.len() == 0 {
        lemma_accepted_none(seen, page);
        assert(links == Seq::<Seq<char>>::empty());
    } else {
        let shorter = links.drop_last();
        let last = links.last();
        let earlier = accepted(seen, page, shorter);
        lemma_accepted_once(seen, page, shorter);
        lemma_accepted_step(seen, page, shorter, last);
        assert(links == shorter.push(last));
        assert forall|link: Seq<char>|
            accepted(seen, page, links).contains(link) <==> links.contains(link) && same_host(
                link,
                page,
            ) && !seen.contains(link) by {
            lemma_seq_contains_after_push(shorter, last, link);
            lemma_seq_contains_after_push(earlier, last, link);
        }
    }
}

/// A link on another host than the page that holds it is never sent a
/// worker and never comes to be seen through that page, whether or not it was
/// seen before.
pub proof fn lemma_other_hosts_stay_out(state: CrawlState, report: ReportView, link: Seq<char>)
    requires
        !same_host(link, report.url()),
    ensures
        !state.spawned(report).contains(link),
        state.after(report).seen.contains(link) ==> state.seen.contains(link),
{
    if let ReportView::Fetched(page) = report {
        lemma_accepted_once(state.seen, page.url, page.links);
    }
}

/// What a report makes the coordinator send out is new: no address twice,
/// none that was seen, and each on the host of the page.
proof fn lemma_spawned_is_new(state: CrawlState, report: ReportView)
    ensures
        state.spawned(report).no_duplicates(),
        forall|url: Seq<char>| #[trigger]
            state.spawned(report).contains(url) ==> !state.seen.contains(url) && same_host(
                url,
                report.url(),
            ),
{
    if let ReportView::Fetched(page) = report {
        lemma_accepted_once(state.seen, page.url, page.links);
    }
}

/// No address is ever sent a second worker: over a whole crawl, whatever the
/// reports and however many pages link to the same address, the addresses
/// sent out are pairwise different, and they are exactly the addresses seen.
pub proof fn lemma_dispatched_once(seed: Seq<char>, reports: Seq<ReportView>)
    ensures
        dispatched(seed, reports).no_duplicates(),
        dispatched(seed, reports).to_set() == run(seed, reports).seen,
        run(seed, reports).seen.finite(),
    decreases reports.len(),
{
    if reports.len() == 0 {
        assert(seq![seed][0] == seed);
    } else {
        let before = run(seed, reports.drop_last());
        let sent = dispatched(seed, reports.drop_last());
        let spawned = before.spawned(reports.last());
        lemma_dispatched_once(seed, reports.drop_last());
        lemma_spawned_is_new(before, reports.last());
        assert forall|i: int, j: int| 0 <= i < sent.len() && 0 <= j < spawned.len() implies sent[i]
            != spawned[j] by {
            assert(spawned.contains(spawned[j]));
        }
        lemma_no_dup_in_concat(sent, spawned);
        seq_to_set_distributes_over_add(sent, spawned);
        seq_to_set_is_finite(spawned);
    }
}

/// The count of the coordinator is the number of workers at work: it never
/// falls below zero, and it is zero exactly when every worker that was sent
/// out has reported.
pub proof fn lemma_pending_counts_workers(seed: Seq<char>, reports: Seq<ReportView>)
    requires
        orderly(seed, reports),
    ensures
        at_work(seed, reports).finite(),
        run(seed, reports).pending == at_work(seed, reports).len(),
        run(seed, reports).done() <==> at_work(seed, reports) == Set::<Seq<char>>::empty(),
        reported(reports).no_duplicates(),
        reported(reports).to_set().subset_of(run(seed, reports).seen),
    decreases reports.len(),
{
    lemma_dispatched_once(seed, reports);
    if reports.len() == 0 {
        assert(at_work(seed, reports) =~= set![seed]);
    } else {
        let earlier = reports.drop_last();
        let last = reports.last();
        let before = run(seed, earlier);
        let spawned = before.spawned(last);
        let fresh = spawned.to_set();
        let rest = at_work(seed, earlier).remove(last.url());
        lemma_pending_counts_workers(seed, earlier);
        lemma_dispatched_once(seed, earlier);
        lemma_spawned_is_new(before, last);
        assert(reported(reports) == reported(earlier).push(last.url()));
        reported(earlier).lemma_push_to_set_commute(last.url());
        assert forall|i: int| 0 <= i < reported(earlier).len() implies reported(earlier)[i]
            != last.url() by {
        }
        assert forall|url: Seq<char>| fresh.contains(url) implies !before.seen.contains(url) by {
        }
        assert(at_work(seed, reports) =~= rest + fresh);
        spawned.unique_seq_to_set();
        seq_to_set_is_finite(spawned);
        lemma_set_disjoint_lens(rest, fresh);
    }
    if at_work(seed, reports).len() == 0 {
        at_work(seed, reports).lemma_len0_is_empty();
    }
}

/// A crawl stays on the host of its seed: whatever it sees besides the seed
/// is on the seed's host.
pub proof fn lemma_crawl_stays_on_host(seed: Seq<char>, reports: Seq<ReportView>)
    requires
        orderly(seed, reports),
    ensures
        forall|url: Seq<char>| #[trigger]
            run(seed, reports).seen.contains(url) ==> url == seed || same_host(url, seed),
    decreases reports.len(),
{
    if reports.len() > 0 {
        let last = reports.last();
        let before = run(seed, reports.drop_last());
        lemma_crawl_stays_on_host(seed, reports.drop_last());
        lemma_spawned_is_new(before, last);
        assert forall|url: Seq<char>| #[trigger]
            run(seed, reports).seen.contains(url) implies url == seed || same_host(url, seed) by {
            if !before.seen.contains(url) {
            }
        }
    }
}

} // verus!
