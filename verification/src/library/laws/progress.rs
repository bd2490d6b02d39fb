//! Progress is reported at every twentieth file found and every fifth file
//! processed, and a run ends with `ScanCompleteIdle`.

use crate::library::laws::runs::{
    after_discovery, after_scanning, discovery_events, extractions, scanning_events,
};
use crate::library::scan::{
    after_discover, after_entries, after_scan, entries_events, entry_events, next_directory,
    scan_events, DirEntryView, ScanEvent, ScanState, ScanView, DISCOVER_PROGRESS_STEP,
    SCAN_PROGRESS_STEP,
};
use vstd::prelude::*;

verus! {

/// The `DiscoverProgress` events that are due while the count of found files
/// goes from `from` to `to`: one for every multiple of twenty that the count
/// reaches, in rising order, each with the count that it marks.
pub open spec fn discover_marks(from: nat, to: nat) -> Seq<ScanEvent>
    decreases to,
{
    if to <= from {
        Seq::empty()
    } else if to % (DISCOVER_PROGRESS_STEP as nat) == 0 {
        discover_marks(from, (to - 1) as nat).push(ScanEvent::DiscoverProgress(to as u64))
    } else {
        discover_marks(from, (to - 1) as nat)
    }
}

/// There is one mark for every twenty files: as many marks as there are
/// multiples of twenty above `from` and up to `to`.
pub proof fn lemma_discover_marks_count(from: nat, to: nat)
    requires
        from <= to,
    ensures
        discover_marks(from, to).len() == to / (DISCOVER_PROGRESS_STEP as nat) - from / (
            DISCOVER_PROGRESS_STEP as nat),
    decreases to,
{
    if to > from {
        lemma_discover_marks_count(from, (to - 1) as nat);
    }
}

/// Marks of two stretches that follow one another are the marks of the
/// whole.
pub proof fn lemma_discover_marks_join(from: nat, mid: nat, to: nat)
    requires
        from <= mid <= to,
    ensures
        discover_marks(from, mid) + discover_marks(mid, to) == discover_marks(from, to),
    decreases to,
{
    if to > mid {
        lemma_discover_marks_join(from, mid, (to - 1) as nat);
        if to % (DISCOVER_PROGRESS_STEP as nat) == 0 {
            assert(discover_marks(from, mid) + discover_marks(mid, (to - 1) as nat).push(
                ScanEvent::DiscoverProgress(to as u64),
            ) =~= (discover_marks(from, mid) + discover_marks(mid, (to - 1) as nat)).push(
                ScanEvent::DiscoverProgress(to as u64),
            ));
        }
    } else {
        assert(discover_marks(from, mid) + discover_marks(mid, to) =~= discover_marks(from, mid));
    }
}

/// Looking at entries reports exactly the marks that are due for the files
/// it finds: a `DiscoverProgress` at the twentieth, the fortieth and every
/// further twentieth file of the run, and at no other.
pub proof fn lemma_entries_report_every_twentieth(s: ScanView, entries: Seq<DirEntryView>)
    ensures
        s.discovered_total <= after_entries(s, entries).discovered_total,
        entries_events(s, entries) == discover_marks(
            s.discovered_total,
            after_entries(s, entries).discovered_total,
        ),
    decreases entries.len(),
{
    if entries.len() > 0 {
        let front = entries.drop_last();
        lemma_entries_report_every_twentieth(s, front);
        let mid = after_entries(s, front);
        let done = after_entries(s, entries);
        lemma_discover_marks_join(s.discovered_total, mid.discovered_total, done.discovered_total);
        assert(entry_events(mid, entries.last()) =~= discover_marks(
            mid.discovered_total,
            done.discovered_total,
        )) by {
            if done.discovered_total > mid.discovered_total {
                assert(done.discovered_total == mid.discovered_total + 1);
                assert(discover_marks(mid.discovered_total, mid.discovered_total) =~= Seq::<
                    ScanEvent,
                >::empty());
            }
        }
    }
}

/// A discovery reports exactly the marks that are due for the files it
/// finds, over all its steps.
pub proof fn lemma_discovery_reports_every_twentieth(
    s: ScanView,
    listings: Seq<Option<Seq<DirEntryView>>>,
)
    ensures
        s.discovered_total <= after_discovery(s, listings).discovered_total,
        discovery_events(s, listings) == discover_marks(
            s.discovered_total,
            after_discovery(s, listings).discovered_total,
        ),
    decreases listings.len(),
{
    if listings.len() > 0 {
        let front = listings.drop_last();
        lemma_discovery_reports_every_twentieth(s, front);
        let mid = after_discovery(s, front);
        let listing = listings.last();
        let done = after_discover(mid, listing);
        if next_directory(mid) is Some && listing is Some {
            lemma_entries_report_every_twentieth(
                ScanView { discovered: mid.discovered.drop_last(), ..mid },
                listing->0,
            );
        } else {
            assert(discover_marks(mid.discovered_total, mid.discovered_total) =~= Seq::<
                ScanEvent,
            >::empty());
        }
        lemma_discover_marks_join(s.discovered_total, mid.discovered_total, done.discovered_total);
    }
}

/// The `ScanProgress` events that are due while the count of processed files
/// goes from `from` to `to` in a run that found `total`: one for every
/// multiple of five that the count reaches, in rising order.
pub open spec fn scan_marks(from: nat, to: nat, total: nat) -> Seq<ScanEvent>
    decreases to,
{
    if to <= from {
        Seq::empty()
    } else if to % (SCAN_PROGRESS_STEP as nat) == 0 {
        scan_marks(from, (to - 1) as nat, total).push(
            ScanEvent::ScanProgress { current: to as u64, total: total as u64 },
        )
    } else {
        scan_marks(from, (to - 1) as nat, total)
    }
}

/// There is one mark for every five files.
pub proof fn lemma_scan_marks_count(from: nat, to: nat, total: nat)
    requires
        from <= to,
    ensures
        scan_marks(from, to, total).len() == to / (SCAN_PROGRESS_STEP as nat) - from / (
            SCAN_PROGRESS_STEP as nat),
    decreases to,
{
    if to > from {
        lemma_scan_marks_count(from, (to - 1) as nat, total);
    }
}

/// While files wait, the scanning reports exactly the marks that are due
/// for the files it processes: a `ScanProgress` at the fifth, the tenth and
/// every further fifth file whose metadata was extracted, and at no other.
/// Each file leaves the queue, and those with metadata are counted.
pub proof fn lemma_scanning_reports_every_fifth(s: ScanView, outcomes: Seq<bool>)
    requires
        s.state == ScanState::Scanning,
        outcomes.len() <= s.to_process.len(),
    ensures
        after_scanning(s, outcomes).state == ScanState::Scanning,
        after_scanning(s, outcomes).discovered_total == s.discovered_total,
        after_scanning(s, outcomes).record == s.record,
        after_scanning(s, outcomes).to_process == s.to_process.take(
            s.to_process.len() - outcomes.len(),
        ),
        after_scanning(s, outcomes).scanned == s.scanned + extractions(outcomes),
        scanning_events(s, outcomes) == scan_marks(
            s.scanned,
            after_scanning(s, outcomes).scanned,
            s.discovered_total,
        ),
    decreases outcomes.len(),
{
    if outcomes.len() > 0 {
        let front = outcomes.drop_last();
        lemma_scanning_reports_every_fifth(s, front);
        let mid = after_scanning(s, front);
        assert(mid.to_process.len() > 0);
        assert(mid.to_process.drop_last() =~= s.to_process.take(
            s.to_process.len() - outcomes.len(),
        ));
        if !outcomes.last() {
            assert(scanning_events(s, outcomes) =~= scanning_events(s, front));
        }
    } else {
        assert(s.to_process.take(s.to_process.len() as int) =~= s.to_process);
    }
}

/// A scanning that is given one outcome for each file that waits, and one
/// more, ends with the engine idle, the queue empty and `ScanCompleteIdle`
/// as the last thing reported.
pub proof fn lemma_scanning_ends_idle(s: ScanView, outcomes: Seq<bool>)
    requires
        s.state == ScanState::Scanning,
        outcomes.len() == s.to_process.len() + 1,
    ensures
        after_scanning(s, outcomes).state == ScanState::Idle,
        after_scanning(s, outcomes).to_process.len() == 0,
        after_scanning(s, outcomes).record == s.record,
        scanning_events(s, outcomes).len() > 0,
        scanning_events(s, outcomes).last() == ScanEvent::ScanCompleteIdle,
{
    lemma_scanning_reports_every_fifth(s, outcomes.drop_last());
}

/// With nothing queued, the scanning is over at its first step: the engine
/// is idle and reports `ScanCompleteIdle` and nothing else, whatever the
/// host hands in.
pub proof fn lemma_empty_queue_completes(s: ScanView, extracted: bool)
    requires
        s.state == ScanState::Scanning,
        s.to_process.len() == 0,
    ensures
        after_scan(s, extracted).state == ScanState::Idle,
        after_scan(s, extracted).record == s.record,
        scan_events(s, extracted) == seq![ScanEvent::ScanCompleteIdle],
{
}

/// The `ScanProgress` events among `events`, in order.
pub open spec fn scan_progress_of(events: Seq<ScanEvent>) -> Seq<ScanEvent>
    decreases events.len(),
{
    if events.len() == 0 {
        Seq::empty()
    } else if events.last() is ScanProgress {
        scan_progress_of(events.drop_last()).push(events.last())
    } else {
        scan_progress_of(events.drop_last())
    }
}

/// `ScanProgress` comes once for every five processed files, whatever else
/// happens: over any run of scanning steps, in whatever phase it starts and
/// whether or not it comes to the end of the queue, the `ScanProgress`
/// events that the engine reports are exactly the marks that are due for the
/// files it processes, and the total that they name is the count of files
/// found, which no scanning step changes.
pub proof fn lemma_scan_progress_comes_every_fifth(s: ScanView, outcomes: Seq<bool>)
    ensures
        after_scanning(s, outcomes).discovered_total == s.discovered_total,
        s.scanned <= after_scanning(s, outcomes).scanned,
        scan_progress_of(scanning_events(s, outcomes)) == scan_marks(
            s.scanned,
            after_scanning(s, outcomes).scanned,
            s.discovered_total,
        ),
    decreases outcomes.len(),
{
    if outcomes.len() > 0 {
        let front = outcomes.drop_last();
        lemma_scan_progress_comes_every_fifth(s, front);
        let mid = after_scanning(s, front);
        let before = scanning_events(s, front);
        let step = scan_events(mid, outcomes.last());
        if step.len() == 0 {
            assert(before + step =~= before);
        } else {
            assert(step.len() == 1);
            assert((before + step).drop_last() =~= before);
            assert((before + step).last() == step[0]);
        }
    }
}

} // verus!
