//! Files that did not change are skipped, files without a provider are
//! passed over, and a second scan of an unchanged library finds nothing.

use crate::library::path::path_extension;
use crate::library::record::unchanged;
use crate::library::laws::runs::{
    after_discovery, discovery_events, lemma_discover_frame, lemma_discovery_in_two_parts,
    lemma_discovery_keeps_providers, lemma_entries_frame,
};
use crate::library::laws::traversal::{lemma_discover_keeps_place, same_place};
use crate::library::scan::{
    after_discover, after_entries, after_entry, entries_events, entry_events, has_provider,
    next_directory, DirEntryView, EntryKind, ScanEvent, ScanView,
};
use vstd::prelude::*;

verus! {

/// Whether every entry of `entries` that is a file at `path` with a readable
/// time carries the time `observed`.
pub open spec fn lists_at(entries: Seq<DirEntryView>, path: Seq<char>, observed: u64) -> bool {
    forall|i: int|
        0 <= i < entries.len() && (#[trigger] entries[i]).path == path ==> (entries[i].kind
            matches EntryKind::File { modified: Some(time) } ==> time == observed)
}

/// Whether the record holds, for every file among `entries` that has a
/// provider and a readable time, that very time: nothing that is listed has
/// changed since it was recorded.
pub open spec fn nothing_changed(s: ScanView, entries: Seq<DirEntryView>) -> bool {
    forall|i: int|
        0 <= i < entries.len() ==> ((#[trigger] entries[i]).kind matches EntryKind::File {
            modified: Some(time),
        } ==> (has_provider(s.providers, path_extension(entries[i].path)) ==> unchanged(
            s.record,
            entries[i].path,
            time,
        )))
}

/// Whether no path is listed in `entries` as a file with two different
/// readable times.
pub open spec fn times_agree(entries: Seq<DirEntryView>) -> bool {
    forall|i: int, j: int|
        0 <= i < entries.len() && 0 <= j < entries.len() && (#[trigger] entries[i]).path == (
        #[trigger] entries[j]).path ==> (entries[i].kind matches EntryKind::File {
            modified: Some(first),
        } ==> (entries[j].kind matches EntryKind::File { modified: Some(second) } ==> first
            == second))
}

/// Whether every file among `entries` with a readable time carries the time
/// that `disk` holds for its path: the listing was read off that disk.
pub open spec fn read_off(entries: Seq<DirEntryView>, disk: Map<Seq<char>, u64>) -> bool {
    forall|i: int|
        0 <= i < entries.len() ==> ((#[trigger] entries[i]).kind matches EntryKind::File {
            modified: Some(time),
        } ==> disk.contains_key(entries[i].path) && disk[entries[i].path] == time)
}

/// Whether every listing of a discovery was read off `disk`.
pub open spec fn all_read_off(
    listings: Seq<Option<Seq<DirEntryView>>>,
    disk: Map<Seq<char>, u64>,
) -> bool {
    forall|k: int|
        0 <= k < listings.len() && (#[trigger] listings[k]) is Some ==> read_off(
            listings[k]->0,
            disk,
        )
}

/// A file whose time is unchanged is skipped: if the record holds the time
/// `observed` for `path` and `path` is listed with no other time, then
/// looking at the entries puts `path` on the queue at no place where it was
/// not before, and the record still holds `observed` for it.
pub proof fn lemma_unchanged_file_is_skipped(
    s: ScanView,
    entries: Seq<DirEntryView>,
    path: Seq<char>,
    observed: u64,
)
    requires
        unchanged(s.record, path, observed),
        lists_at(entries, path, observed),
    ensures
        unchanged(after_entries(s, entries).record, path, observed),
        forall|k: int|
            s.to_process.len() <= k < after_entries(s, entries).to_process.len() ==> after_entries(
                s,
                entries,
            ).to_process[k] != path,
    decreases entries.len(),
{
    if entries.len() > 0 {
        let front = entries.drop_last();
        assert forall|i: int| 0 <= i < front.len() && (#[trigger] front[i]).path == path implies (
        front[i].kind matches EntryKind::File { modified: Some(time) } ==> time == observed) by {
            assert(front[i] == entries[i]);
        }
        lemma_unchanged_file_is_skipped(s, front, path, observed);
        lemma_entries_frame(s, front);
        let last = entries[entries.len() - 1];
        assert(last == entries.last());
    }
}

/// A file that is looked at is recorded: if `entries` names a file with a
/// provider and the readable time `observed`, and names that path with no
/// other time, then the record holds `observed` for the path afterwards,
/// whatever it held before and whatever becomes of the file.
pub proof fn lemma_listed_file_is_recorded(
    s: ScanView,
    entries: Seq<DirEntryView>,
    i: int,
    observed: u64,
)
    requires
        0 <= i < entries.len(),
        entries[i].kind == (EntryKind::File { modified: Some(observed) }),
        has_provider(s.providers, path_extension(entries[i].path)),
        lists_at(entries, entries[i].path, observed),
    ensures
        unchanged(after_entries(s, entries).record, entries[i].path, observed),
    decreases entries.len(),
{
    let front = entries.drop_last();
    let path = entries[i].path;
    lemma_entries_frame(s, front);
    assert(entries.last() == entries[entries.len() - 1]);
    if i < front.len() {
        assert(front[i] == entries[i]);
        assert forall|k: int| 0 <= k < front.len() && (#[trigger] front[k]).path == path implies (
        front[k].kind matches EntryKind::File { modified: Some(time) } ==> time == observed) by {
            assert(front[k] == entries[k]);
        }
        lemma_listed_file_is_recorded(s, front, i, observed);
    }
}

/// A file without a provider leaves no trace: it is not queued, not counted,
/// not recorded and not reported.
pub proof fn lemma_file_without_provider_is_ignored(s: ScanView, entry: DirEntryView)
    requires
        entry.kind is File,
        !has_provider(s.providers, path_extension(entry.path)),
    ensures
        after_entry(s, entry) == s,
        entry_events(s, entry) == Seq::<ScanEvent>::empty(),
{
}

/// A path whose extension no provider accepts is never put on the queue,
/// whatever is listed.
pub proof fn lemma_path_without_provider_is_never_queued(
    s: ScanView,
    entries: Seq<DirEntryView>,
    path: Seq<char>,
)
    requires
        !has_provider(s.providers, path_extension(path)),
    ensures
        forall|k: int|
            s.to_process.len() <= k < after_entries(s, entries).to_process.len() ==> after_entries(
                s,
                entries,
            ).to_process[k] != path,
    decreases entries.len(),
{
    if entries.len() > 0 {
        lemma_path_without_provider_is_never_queued(s, entries.drop_last(), path);
        lemma_entries_frame(s, entries.drop_last());
    }
}

/// A queue that grew twice at its end, each time without `path`, grew
/// without `path` altogether.
proof fn lemma_queue_grows_without(
    start: Seq<Seq<char>>,
    mid: Seq<Seq<char>>,
    end: Seq<Seq<char>>,
    path: Seq<char>,
)
    requires
        start.is_prefix_of(mid),
        mid.is_prefix_of(end),
        forall|k: int| start.len() <= k < mid.len() ==> mid[k] != path,
        forall|k: int| mid.len() <= k < end.len() ==> end[k] != path,
    ensures
        start.is_prefix_of(end),
        forall|k: int| start.len() <= k < end.len() ==> end[k] != path,
{
    assert forall|k: int| 0 <= k < mid.len() implies mid[k] == end[k] by {
        assert(mid[k] == end.subrange(0, mid.len() as int)[k]);
    }
    assert forall|k: int| 0 <= k < start.len() implies start[k] == mid[k] by {
        assert(start[k] == mid.subrange(0, start.len() as int)[k]);
    }
    assert(start =~= end.subrange(0, start.len() as int));
}

/// Skipping unchanged files, over a whole discovery: let the record hold the
/// time `observed` for `path`, as a run that took the file up has left it,
/// and let the file be listed with no other time. Then no step of the
/// discovery puts `path` on the queue, and the record still holds `observed`
/// for it afterwards.
pub proof fn lemma_discovery_skips_unchanged_file(
    s: ScanView,
    listings: Seq<Option<Seq<DirEntryView>>>,
    path: Seq<char>,
    observed: u64,
)
    requires
        unchanged(s.record, path, observed),
        forall|k: int|
            0 <= k < listings.len() && (#[trigger] listings[k]) is Some ==> lists_at(
                listings[k]->0,
                path,
                observed,
            ),
    ensures
        unchanged(after_discovery(s, listings).record, path, observed),
        s.to_process.is_prefix_of(after_discovery(s, listings).to_process),
        forall|k: int|
            s.to_process.len() <= k < after_discovery(s, listings).to_process.len()
                ==> after_discovery(s, listings).to_process[k] != path,
    decreases listings.len(),
{
    if listings.len() > 0 {
        let front = listings.drop_last();
        assert forall|k: int| 0 <= k < front.len() && (#[trigger] front[k]) is Some implies lists_at(
            front[k]->0,
            path,
            observed,
        ) by {
            assert(front[k] == listings[k]);
        }
        lemma_discovery_skips_unchanged_file(s, front, path, observed);
        let mid = after_discovery(s, front);
        let listing = listings.last();
        lemma_discover_frame(mid, listing);
        if next_directory(mid) is Some && listing is Some {
            assert(listing == listings[listings.len() - 1]);
            lemma_unchanged_file_is_skipped(
                ScanView { discovered: mid.discovered.drop_last(), ..mid },
                listing->0,
                path,
                observed,
            );
        }
        lemma_queue_grows_without(s.to_process, mid.to_process, after_discover(mid, listing).to_process, path);
    }
}

/// Files without a provider, over a whole discovery: a path whose extension
/// no provider accepts is put on the queue by no step.
pub proof fn lemma_discovery_never_queues_without_provider(
    s: ScanView,
    listings: Seq<Option<Seq<DirEntryView>>>,
    path: Seq<char>,
)
    requires
        !has_provider(s.providers, path_extension(path)),
    ensures
        after_discovery(s, listings).providers == s.providers,
        s.to_process.is_prefix_of(after_discovery(s, listings).to_process),
        forall|k: int|
            s.to_process.len() <= k < after_discovery(s, listings).to_process.len()
                ==> after_discovery(s, listings).to_process[k] != path,
    decreases listings.len(),
{
    if listings.len() > 0 {
        let front = listings.drop_last();
        lemma_discovery_never_queues_without_provider(s, front, path);
        let mid = after_discovery(s, front);
        let listing = listings.last();
        lemma_discover_frame(mid, listing);
        if next_directory(mid) is Some && listing is Some {
            lemma_path_without_provider_is_never_queued(
                ScanView { discovered: mid.discovered.drop_last(), ..mid },
                listing->0,
                path,
            );
        }
        lemma_queue_grows_without(s.to_process, mid.to_process, after_discover(mid, listing).to_process, path);
    }
}

/// Looking a second time finds nothing: where nothing that is listed has
/// changed since it was recorded, looking at the entries leaves the engine
/// as it was, but for the directories that wait, and reports nothing.
pub proof fn lemma_nothing_changed_nothing_found(s: ScanView, entries: Seq<DirEntryView>)
    requires
        nothing_changed(s, entries),
    ensures
        after_entries(s, entries).record == s.record,
        after_entries(s, entries).to_process == s.to_process,
        after_entries(s, entries).discovered_total == s.discovered_total,
        entries_events(s, entries) == Seq::<ScanEvent>::empty(),
    decreases entries.len(),
{
    if entries.len() > 0 {
        let front = entries.drop_last();
        assert forall|i: int| 0 <= i < front.len() implies ((#[trigger] front[i]).kind
            matches EntryKind::File { modified: Some(time) } ==> (has_provider(
            s.providers,
            path_extension(front[i].path),
        ) ==> unchanged(s.record, front[i].path, time))) by {
            assert(front[i] == entries[i]);
        }
        lemma_nothing_changed_nothing_found(s, front);
        lemma_entries_frame(s, front);
        assert(entries.last() == entries[entries.len() - 1]);
    }
}

/// What a pass over entries records: afterwards the record holds, for every
/// file among them that has a provider and a readable time, that time,
/// provided that no path is listed with two times.
pub proof fn lemma_pass_records_what_it_lists(s: ScanView, entries: Seq<DirEntryView>)
    requires
        times_agree(entries),
    ensures
        nothing_changed(after_entries(s, entries), entries),
    decreases entries.len(),
{
    let done = after_entries(s, entries);
    lemma_entries_frame(s, entries);
    if entries.len() > 0 {
        let front = entries.drop_last();
        let last = entries.last();
        assert(last == entries[entries.len() - 1]);
        assert forall|i: int, j: int|
            0 <= i < front.len() && 0 <= j < front.len() && (#[trigger] front[i]).path == (
            #[trigger] front[j]).path implies (front[i].kind matches EntryKind::File {
            modified: Some(first),
        } ==> (front[j].kind matches EntryKind::File { modified: Some(second) } ==> first
            == second)) by {
            assert(front[i] == entries[i]);
            assert(front[j] == entries[j]);
        }
        lemma_pass_records_what_it_lists(s, front);
        let mid = after_entries(s, front);
        lemma_entries_frame(s, front);
        assert forall|i: int| 0 <= i < entries.len() implies ((#[trigger] entries[i]).kind
            matches EntryKind::File { modified: Some(time) } ==> (has_provider(
            done.providers,
            path_extension(entries[i].path),
        ) ==> unchanged(done.record, entries[i].path, time))) by {
            if i < front.len() {
                assert(front[i] == entries[i]);
            }
        }
    }
}

/// A second scan finds nothing new. Let a first pass look at `entries`, in
/// which no path is listed with two times, and let a second pass start from
/// the record that the first has left. Then the second pass leaves the
/// record as it is, queues nothing, counts nothing as found and reports
/// nothing.
pub proof fn lemma_second_pass_finds_nothing(
    first: ScanView,
    second: ScanView,
    entries: Seq<DirEntryView>,
)
    requires
        times_agree(entries),
        second.providers == first.providers,
        second.record == after_entries(first, entries).record,
    ensures
        after_entries(second, entries).record == second.record,
        after_entries(second, entries).to_process == second.to_process,
        after_entries(second, entries).discovered_total == second.discovered_total,
        entries_events(second, entries) == Seq::<ScanEvent>::empty(),
{
    lemma_pass_records_what_it_lists(first, entries);
    lemma_entries_frame(first, entries);
    let done = after_entries(first, entries);
    assert forall|i: int| 0 <= i < entries.len() implies ((#[trigger] entries[i]).kind
        matches EntryKind::File { modified: Some(time) } ==> (has_provider(
        second.providers,
        path_extension(entries[i].path),
    ) ==> unchanged(second.record, entries[i].path, time))) by {
    }
    lemma_nothing_changed_nothing_found(second, entries);
}

/// A run over an unchanged library has nothing to do. Where nothing that the
/// host lists during a discovery has changed since it was recorded, the
/// discovery leaves the record as it is, queues nothing, counts nothing as
/// found and reports nothing.
pub proof fn lemma_discovery_of_unchanged_library(
    s: ScanView,
    listings: Seq<Option<Seq<DirEntryView>>>,
)
    requires
        forall|k: int|
            0 <= k < listings.len() && (#[trigger] listings[k]) is Some ==> nothing_changed(
                s,
                listings[k]->0,
            ),
    ensures
        after_discovery(s, listings).record == s.record,
        after_discovery(s, listings).providers == s.providers,
        after_discovery(s, listings).to_process == s.to_process,
        after_discovery(s, listings).discovered_total == s.discovered_total,
        discovery_events(s, listings) == Seq::<ScanEvent>::empty(),
    decreases listings.len(),
{
    if listings.len() > 0 {
        let front = listings.drop_last();
        assert forall|k: int| 0 <= k < front.len() && (#[trigger] front[k]) is Some implies nothing_changed(
            s,
            front[k]->0,
        ) by {
            assert(front[k] == listings[k]);
        }
        lemma_discovery_of_unchanged_library(s, front);
        let mid = after_discovery(s, front);
        let listing = listings.last();
        lemma_discover_frame(mid, listing);
        if next_directory(mid) is Some && listing is Some {
            assert(listing == listings[listings.len() - 1]);
            let popped = ScanView { discovered: mid.discovered.drop_last(), ..mid };
            assert(nothing_changed(s, listing->0));
            assert(nothing_changed(popped, listing->0));
            lemma_nothing_changed_nothing_found(popped, listing->0);
        }
    }
}

/// A listing that was read off a disk names no path with two times, and
/// names each path of the disk with the disk's time.
proof fn lemma_read_off_agrees(entries: Seq<DirEntryView>, disk: Map<Seq<char>, u64>)
    requires
        read_off(entries, disk),
    ensures
        times_agree(entries),
        forall|path: Seq<char>| #[trigger]
            disk.contains_key(path) ==> lists_at(entries, path, disk[path]),
{
}

/// The second run over an unchanged library, as far as its first `n` steps:
/// see [`lemma_second_run_finds_nothing`].
proof fn lemma_second_run_so_far(
    first: ScanView,
    second: ScanView,
    disk: Map<Seq<char>, u64>,
    listings: Seq<Option<Seq<DirEntryView>>>,
    n: int,
)
    requires
        0 <= n <= listings.len(),
        all_read_off(listings, disk),
        same_place(first, second),
        second.providers == first.providers,
        second.record == after_discovery(first, listings).record,
    ensures
        same_place(
            after_discovery(first, listings.take(n)),
            after_discovery(second, listings.take(n)),
        ),
        after_discovery(second, listings.take(n)).providers == second.providers,
        after_discovery(second, listings.take(n)).record == second.record,
        after_discovery(second, listings.take(n)).to_process == second.to_process,
        after_discovery(second, listings.take(n)).discovered_total == second.discovered_total,
        discovery_events(second, listings.take(n)) == Seq::<ScanEvent>::empty(),
    decreases n,
{
    if n > 0 {
        lemma_second_run_so_far(first, second, disk, listings, n - 1);
        let done = listings.take(n);
        let front = listings.take(n - 1);
        let rest = listings.skip(n);
        let listing = listings[n - 1];
        assert(done.drop_last() =~= front);
        assert(done.last() == listing);
        let a = after_discovery(first, front);
        let b = after_discovery(second, front);
        lemma_discover_keeps_place(a, b, listing);
        lemma_discover_frame(b, listing);
        lemma_discovery_keeps_providers(first, front);
        if next_directory(b) is Some && listing is Some {
            let entries = listing->0;
            let popped_a = ScanView { discovered: a.discovered.drop_last(), ..a };
            let popped_b = ScanView { discovered: b.discovered.drop_last(), ..b };
            let next_a = after_discover(a, listing);
            assert(read_off(entries, disk));
            lemma_read_off_agrees(entries, disk);
            lemma_pass_records_what_it_lists(popped_a, entries);
            lemma_entries_frame(popped_a, entries);
            assert(listings =~= done + rest);
            lemma_discovery_in_two_parts(first, done, rest);
            assert(after_discovery(first, done) == next_a);
            assert forall|i: int| 0 <= i < entries.len() implies ((#[trigger] entries[i]).kind
                matches EntryKind::File { modified: Some(time) } ==> (has_provider(
                popped_b.providers,
                path_extension(entries[i].path),
            ) ==> unchanged(popped_b.record, entries[i].path, time))) by {
                match entries[i].kind {
                    EntryKind::File { modified: Some(time) } => {
                        if has_provider(popped_b.providers, path_extension(entries[i].path)) {
                            let path = entries[i].path;
                            assert(unchanged(next_a.record, path, time));
                            assert forall|k: int|
                                0 <= k < rest.len() && (#[trigger] rest[k]) is Some implies lists_at(
                                rest[k]->0,
                                path,
                                time,
                            ) by {
                                assert(rest[k] == listings[n + k]);
                                lemma_read_off_agrees(rest[k]->0, disk);
                            }
                            lemma_discovery_skips_unchanged_file(next_a, rest, path, time);
                        }
                    },
                    _ => {},
                }
            }
            lemma_nothing_changed_nothing_found(popped_b, entries);
        }
    } else {
        assert(listings.take(0) =~= Seq::<Option<Seq<DirEntryView>>>::empty());
    }
}

/// Scanning twice is scanning once. Let two runs go over the same disk, on
/// which no file changes: the host finds the same listings in both, and the
/// second run starts at the same place as the first, with the record that
/// the discovery of the first has left. Then the discovery of the second run
/// queues nothing, counts nothing as found, leaves the record as it is and
/// reports no progress.
pub proof fn lemma_second_run_finds_nothing(
    first: ScanView,
    second: ScanView,
    disk: Map<Seq<char>, u64>,
    listings: Seq<Option<Seq<DirEntryView>>>,
)
    requires
        all_read_off(listings, disk),
        same_place(first, second),
        second.providers == first.providers,
        second.record == after_discovery(first, listings).record,
    ensures
        after_discovery(second, listings).record == second.record,
        after_discovery(second, listings).to_process == second.to_process,
        after_discovery(second, listings).discovered_total == second.discovered_total,
        discovery_events(second, listings) == Seq::<ScanEvent>::empty(),
{
    lemma_second_run_so_far(first, second, disk, listings, listings.len() as int);
    assert(listings.take(listings.len() as int) =~= listings);
}

} // verus!
