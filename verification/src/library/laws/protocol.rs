//! Commands, the sweep and the events: what `Stop` and `Scan` do in every
//! phase, what the sweep removes and deletes, and which events are given.

use crate::library::scan::{
    after_cleanup, after_command, after_commands, after_entries, command_events, commands_events,
    consistent, delete_requests, deletes_exactly, discover_events, entries_events, entry_events,
    next_directory, scan_events, sweeps, DirEntryView, ScanCommand, ScanEvent, ScanState, ScanView,
};
use crate::library::sync::StoreRequestView;
use vstd::prelude::*;

verus! {

/// `Stop` ends whatever goes on: the engine is idle and the three queues are
/// empty. The record keeps what the run has written to it.
pub proof fn lemma_stop_returns_to_idle(s: ScanView)
    ensures
        after_command(s, ScanCommand::Stop).state == ScanState::Idle,
        after_command(s, ScanCommand::Stop).discovered.len() == 0,
        after_command(s, ScanCommand::Stop).visited.len() == 0,
        after_command(s, ScanCommand::Stop).to_process.len() == 0,
        after_command(s, ScanCommand::Stop).record == s.record,
        consistent(after_command(s, ScanCommand::Stop)),
{
}

/// A run that is begun after `Stop` owes nothing to the run that was
/// stopped: whatever the engine was doing, the new run starts in `Cleanup`
/// with the roots waiting, nothing expanded, nothing queued and both
/// counters at zero. Only the record is carried over.
pub proof fn lemma_scan_after_stop_starts_afresh(s: ScanView)
    ensures
        after_command(after_command(s, ScanCommand::Stop), ScanCommand::Scan) == (ScanView {
            state: ScanState::Cleanup,
            roots: s.roots,
            providers: s.providers,
            visited: Seq::empty(),
            discovered: s.roots,
            to_process: Seq::empty(),
            record: s.record,
            scanned: 0,
            discovered_total: 0,
        }),
        command_events(after_command(s, ScanCommand::Stop), ScanCommand::Scan) == seq![
            ScanEvent::Cleaning,
        ],
{
}

/// `Scan` is without effect while a run is under way.
pub proof fn lemma_scan_during_run_is_ignored(s: ScanView)
    requires
        s.state != ScanState::Idle,
    ensures
        after_command(s, ScanCommand::Scan) == s,
        command_events(s, ScanCommand::Scan) == Seq::<ScanEvent>::empty(),
{
}

/// The sweep removes exactly the entries of the files that are gone: an
/// entry is there afterwards if and only if it was there before and its path
/// is not among `missing`, and it then holds the time it held.
pub proof fn lemma_cleanup_removes_exactly_the_missing(
    s: ScanView,
    missing: Seq<Seq<char>>,
    path: Seq<char>,
)
    requires
        s.state == ScanState::Cleanup,
    ensures
        after_cleanup(s, missing).record.contains_key(path) <==> (s.record.contains_key(path)
            && !missing.contains(path)),
        after_cleanup(s, missing).record.contains_key(path) ==> after_cleanup(
            s,
            missing,
        ).record[path] == s.record[path],
        after_cleanup(s, missing).state == ScanState::Discovering,
{
}

/// The sweep asks for exactly one delete per entry that it removes: the
/// requests are deletes, no two of them are the same, and the track at
/// `path` is deleted if and only if `path` had an entry and is among
/// `missing`.
pub proof fn lemma_sweep_deletes_once_each(
    requests: Seq<StoreRequestView>,
    record: Map<Seq<char>, u64>,
    missing: Seq<Seq<char>>,
    path: Seq<char>,
)
    requires
        sweeps(requests, record, missing),
    ensures
        requests.no_duplicates(),
        forall|i: int| 0 <= i < requests.len() ==> (#[trigger] requests[i]) is DeleteTrack,
        requests.contains(StoreRequestView::DeleteTrack { location: path }) <==> (
        record.contains_key(path) && missing.contains(path)),
{
    let deleted = choose|deleted: Seq<Seq<char>>|
        #[trigger] delete_requests(deleted) == requests && deletes_exactly(deleted, record, missing);
    let wanted = StoreRequestView::DeleteTrack { location: path };
    assert forall|i: int, j: int|
        0 <= i < requests.len() && 0 <= j < requests.len() && i != j implies requests[i]
        != requests[j] by {
        assert(requests[i] == StoreRequestView::DeleteTrack { location: deleted[i] });
        assert(requests[j] == StoreRequestView::DeleteTrack { location: deleted[j] });
    }
    if requests.contains(wanted) {
        let i = choose|i: int| 0 <= i < requests.len() && requests[i] == wanted;
        assert(deleted[i] == path);
        assert(deleted.to_set().contains(path));
    }
    if record.contains_key(path) && missing.contains(path) {
        assert(missing.to_set().contains(path));
        assert(deleted.to_set().contains(path));
        let i = choose|i: int| 0 <= i < deleted.len() && deleted[i] == path;
        assert(requests[i] == wanted);
    }
}

/// Whether an event is one that the engine gives: `ScanCompleteWatching` is
/// kept for later and is not among them.
pub open spec fn is_given(event: ScanEvent) -> bool {
    event != ScanEvent::ScanCompleteWatching
}

/// No command makes the engine report `ScanCompleteWatching`.
pub proof fn lemma_commands_never_report_watching(s: ScanView, commands: Seq<ScanCommand>)
    ensures
        forall|i: int|
            0 <= i < commands_events(s, commands).len() ==> is_given(
                #[trigger] commands_events(s, commands)[i],
            ),
    decreases commands.len(),
{
    if commands.len() > 0 {
        lemma_commands_never_report_watching(s, commands.drop_last());
        let front = commands_events(s, commands.drop_last());
        let step = command_events(after_commands(s, commands.drop_last()), commands.last());
        assert forall|i: int| 0 <= i < (front + step).len() implies is_given(
            #[trigger] (front + step)[i],
        ) by {
            if i < front.len() {
                assert((front + step)[i] == front[i]);
            } else {
                assert((front + step)[i] == step[i - front.len()]);
            }
        }
    }
}

/// No entry makes the engine report `ScanCompleteWatching`.
pub proof fn lemma_entries_never_report_watching(s: ScanView, entries: Seq<DirEntryView>)
    ensures
        forall|i: int|
            0 <= i < entries_events(s, entries).len() ==> is_given(
                #[trigger] entries_events(s, entries)[i],
            ),
    decreases entries.len(),
{
    if entries.len() > 0 {
        lemma_entries_never_report_watching(s, entries.drop_last());
        let front = entries_events(s, entries.drop_last());
        let step = entry_events(after_entries(s, entries.drop_last()), entries.last());
        assert forall|i: int| 0 <= i < (front + step).len() implies is_given(
            #[trigger] (front + step)[i],
        ) by {
            if i < front.len() {
                assert((front + step)[i] == front[i]);
            } else {
                assert((front + step)[i] == step[i - front.len()]);
            }
        }
    }
}

/// No step makes the engine report `ScanCompleteWatching`.
pub proof fn lemma_steps_never_report_watching(
    s: ScanView,
    command: ScanCommand,
    listing: Option<Seq<DirEntryView>>,
    extracted: bool,
)
    ensures
        forall|i: int|
            0 <= i < command_events(s, command).len() ==> is_given(
                #[trigger] command_events(s, command)[i],
            ),
        forall|i: int|
            0 <= i < discover_events(s, listing).len() ==> is_given(
                #[trigger] discover_events(s, listing)[i],
            ),
        forall|i: int|
            0 <= i < scan_events(s, extracted).len() ==> is_given(
                #[trigger] scan_events(s, extracted)[i],
            ),
{
    if next_directory(s) is Some && listing is Some {
        lemma_entries_never_report_watching(
            ScanView { discovered: s.discovered.drop_last(), ..s },
            listing->0,
        );
    }
}

/// A sweep that finds none of the recorded files gone asks nothing of the
/// store.
pub proof fn lemma_nothing_missing_nothing_deleted(
    requests: Seq<StoreRequestView>,
    record: Map<Seq<char>, u64>,
    missing: Seq<Seq<char>>,
)
    requires
        sweeps(requests, record, missing),
        forall|path: Seq<char>| missing.contains(path) ==> !record.contains_key(path),
    ensures
        requests.len() == 0,
{
    let deleted = choose|deleted: Seq<Seq<char>>|
        #[trigger] delete_requests(deleted) == requests && deletes_exactly(deleted, record, missing);
    if deleted.len() > 0 {
        assert(deleted.to_set().contains(deleted[0]));
        assert(missing.to_set().contains(deleted[0]));
    }
}

} // verus!
