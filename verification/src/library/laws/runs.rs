//! Whole discoveries and whole scannings: the steps of the engine taken one
//! after the other, and what no step changes.

use crate::library::scan::{
    after_cleanup, after_command, after_discover, after_entries, after_scan, consistent,
    discover_events, next_directory, scan_events, DirEntryView, ScanCommand, ScanEvent, ScanState,
    ScanView,
};
use vstd::prelude::*;

verus! {

/// The engine after a run of discovery steps, in which the host found
/// `listings`, one for each step in order.
pub open spec fn after_discovery(s: ScanView, listings: Seq<Option<Seq<DirEntryView>>>) -> ScanView
    decreases listings.len(),
{
    if listings.len() == 0 {
        s
    } else {
        after_discover(after_discovery(s, listings.drop_last()), listings.last())
    }
}

/// What a run of discovery steps makes the engine report, in order.
pub open spec fn discovery_events(
    s: ScanView,
    listings: Seq<Option<Seq<DirEntryView>>>,
) -> Seq<ScanEvent>
    decreases listings.len(),
{
    if listings.len() == 0 {
        Seq::empty()
    } else {
        discovery_events(s, listings.drop_last()) + discover_events(
            after_discovery(s, listings.drop_last()),
            listings.last(),
        )
    }
}

/// The engine after a run of scanning steps, in which the host extracted the
/// metadata of the files as `outcomes` says, one outcome for each step in
/// order.
pub open spec fn after_scanning(s: ScanView, outcomes: Seq<bool>) -> ScanView
    decreases outcomes.len(),
{
    if outcomes.len() == 0 {
        s
    } else {
        after_scan(after_scanning(s, outcomes.drop_last()), outcomes.last())
    }
}

/// What a run of scanning steps makes the engine report, in order.
pub open spec fn scanning_events(s: ScanView, outcomes: Seq<bool>) -> Seq<ScanEvent>
    decreases outcomes.len(),
{
    if outcomes.len() == 0 {
        Seq::empty()
    } else {
        scanning_events(s, outcomes.drop_last()) + scan_events(
            after_scanning(s, outcomes.drop_last()),
            outcomes.last(),
        )
    }
}

/// How many of the outcomes are extractions.
pub open spec fn extractions(outcomes: Seq<bool>) -> nat
    decreases outcomes.len(),
{
    if outcomes.len() == 0 {
        0
    } else if outcomes.last() {
        extractions(outcomes.drop_last()) + 1
    } else {
        extractions(outcomes.drop_last())
    }
}

/// Looking at entries changes neither the phase nor the roots, providers or
/// expanded directories; the queue of files only grows at its end, by as
/// many files as are newly counted as found.
pub proof fn lemma_entries_frame(s: ScanView, entries: Seq<DirEntryView>)
    ensures
        after_entries(s, entries).state == s.state,
        after_entries(s, entries).roots == s.roots,
        after_entries(s, entries).providers == s.providers,
        after_entries(s, entries).visited == s.visited,
        after_entries(s, entries).scanned == s.scanned,
        s.to_process.is_prefix_of(after_entries(s, entries).to_process),
        after_entries(s, entries).discovered_total - s.discovered_total == after_entries(
            s,
            entries,
        ).to_process.len() - s.to_process.len(),
        consistent(s) && s.state == ScanState::Discovering ==> consistent(after_entries(s, entries)),
    decreases entries.len(),
{
    if entries.len() > 0 {
        lemma_entries_frame(s, entries.drop_last());
    }
}

/// A discovery step changes neither the roots nor the providers; the queue
/// of files only grows at its end, and the engine stays consistent.
pub proof fn lemma_discover_frame(s: ScanView, listing: Option<Seq<DirEntryView>>)
    ensures
        after_discover(s, listing).roots == s.roots,
        after_discover(s, listing).providers == s.providers,
        s.to_process.is_prefix_of(after_discover(s, listing).to_process),
        consistent(s) ==> consistent(after_discover(s, listing)),
{
    if next_directory(s) is Some && listing is Some {
        lemma_entries_frame(ScanView { discovered: s.discovered.drop_last(), ..s }, listing->0);
    }
}

/// A discovery changes neither the roots nor the providers.
pub proof fn lemma_discovery_keeps_providers(s: ScanView, listings: Seq<Option<Seq<DirEntryView>>>)
    ensures
        after_discovery(s, listings).providers == s.providers,
        after_discovery(s, listings).roots == s.roots,
    decreases listings.len(),
{
    if listings.len() > 0 {
        lemma_discovery_keeps_providers(s, listings.drop_last());
        lemma_discover_frame(after_discovery(s, listings.drop_last()), listings.last());
    }
}

/// A discovery taken in two parts is the discovery taken in one.
pub proof fn lemma_discovery_in_two_parts(
    s: ScanView,
    first: Seq<Option<Seq<DirEntryView>>>,
    second: Seq<Option<Seq<DirEntryView>>>,
)
    ensures
        after_discovery(s, first + second) == after_discovery(after_discovery(s, first), second),
    decreases second.len(),
{
    if second.len() == 0 {
        assert(first + second =~= first);
    } else {
        lemma_discovery_in_two_parts(s, first, second.drop_last());
        assert((first + second).drop_last() =~= first + second.drop_last());
        assert((first + second).last() == second.last());
    }
}

/// Every step keeps the counters and the queue of a run in agreement.
pub proof fn lemma_steps_keep_consistency(
    s: ScanView,
    command: ScanCommand,
    missing: Seq<Seq<char>>,
    listing: Option<Seq<DirEntryView>>,
    extracted: bool,
)
    requires
        consistent(s),
    ensures
        consistent(after_command(s, command)),
        consistent(after_cleanup(s, missing)),
        consistent(after_discover(s, listing)),
        consistent(after_scan(s, extracted)),
{
    lemma_discover_frame(s, listing);
}

} // verus!
