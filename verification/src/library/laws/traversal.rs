//! The traversal: where it goes does not depend on the record, no directory
//! is expanded twice, and on a finite disk it ends.

use crate::library::laws::runs::{after_discovery, lemma_entries_frame};
use crate::library::scan::{
    after_discover, after_entries, next_directory, DirEntryView, ScanState, ScanView,
};
use vstd::prelude::*;

verus! {

/// Whether two engines are at the same place of the traversal: in the same
/// phase, with the same directories expanded and the same ones waiting.
pub open spec fn same_place(a: ScanView, b: ScanView) -> bool {
    a.state == b.state && a.visited == b.visited && a.discovered == b.discovered
}

/// Where the traversal goes does not depend on the record: two engines at
/// the same place are at the same place after they looked at the same
/// entries.
pub proof fn lemma_entries_keep_place(a: ScanView, b: ScanView, entries: Seq<DirEntryView>)
    requires
        same_place(a, b),
    ensures
        same_place(after_entries(a, entries), after_entries(b, entries)),
    decreases entries.len(),
{
    if entries.len() > 0 {
        lemma_entries_keep_place(a, b, entries.drop_last());
    }
}

/// Two engines at the same place are at the same place after the same
/// discovery step.
pub proof fn lemma_discover_keeps_place(
    a: ScanView,
    b: ScanView,
    listing: Option<Seq<DirEntryView>>,
)
    requires
        same_place(a, b),
    ensures
        same_place(after_discover(a, listing), after_discover(b, listing)),
{
    if next_directory(a) is Some && listing is Some {
        lemma_entries_keep_place(
            ScanView { discovered: a.discovered.drop_last(), ..a },
            ScanView { discovered: b.discovered.drop_last(), ..b },
            listing->0,
        );
    }
}

/// Two engines at the same place are at the same place after the same
/// discovery.
pub proof fn lemma_discovery_keeps_place(
    a: ScanView,
    b: ScanView,
    listings: Seq<Option<Seq<DirEntryView>>>,
)
    requires
        same_place(a, b),
    ensures
        same_place(after_discovery(a, listings), after_discovery(b, listings)),
    decreases listings.len(),
{
    if listings.len() > 0 {
        lemma_discovery_keeps_place(a, b, listings.drop_last());
        lemma_discover_keeps_place(
            after_discovery(a, listings.drop_last()),
            after_discovery(b, listings.drop_last()),
            listings.last(),
        );
    }
}

/// No directory is expanded twice in a run: the expanded directories are
/// all different at the start of a run, when there are none, and stay so
/// through every discovery step. A directory that the file system leads
/// back to is therefore passed over.
pub proof fn lemma_no_directory_is_expanded_twice(
    s: ScanView,
    listings: Seq<Option<Seq<DirEntryView>>>,
)
    requires
        s.visited.no_duplicates(),
    ensures
        after_discovery(s, listings).visited.no_duplicates(),
    decreases listings.len(),
{
    if listings.len() > 0 {
        lemma_no_directory_is_expanded_twice(s, listings.drop_last());
        let mid = after_discovery(s, listings.drop_last());
        let listing = listings.last();
        if next_directory(mid) is Some && listing is Some {
            lemma_entries_frame(
                ScanView { discovered: mid.discovered.drop_last(), ..mid },
                listing->0,
            );
            let directory = mid.discovered.last();
            assert(!mid.visited.contains(directory));
            assert forall|i: int, j: int|
                0 <= i < mid.visited.push(directory).len() && 0 <= j < mid.visited.push(
                    directory,
                ).len() && i != j implies mid.visited.push(directory)[i] != mid.visited.push(
                directory,
            )[j] by {
                if i < mid.visited.len() {
                    assert(mid.visited.contains(mid.visited[i]));
                }
                if j < mid.visited.len() {
                    assert(mid.visited.contains(mid.visited[j]));
                }
            }
        }
    }
}

/// How many of `entries` are directories.
pub open spec fn subdirectories(entries: Seq<DirEntryView>) -> nat
    decreases entries.len(),
{
    if entries.len() == 0 {
        0
    } else if entries.last().kind is Directory {
        subdirectories(entries.drop_last()) + 1
    } else {
        subdirectories(entries.drop_last())
    }
}

/// The listing that the host finds for the next directory on a disk that
/// holds the directories of `disk` with their children: `None` where the
/// engine asks for none, or for a directory that the disk does not hold.
pub open spec fn listing_on(
    disk: Map<Seq<char>, Seq<DirEntryView>>,
    s: ScanView,
) -> Option<Seq<DirEntryView>> {
    match next_directory(s) {
        Some(directory) => if disk.contains_key(directory) {
            Some(disk[directory])
        } else {
            None
        },
        None => None,
    }
}

/// The engine after so many discovery steps on a disk.
pub open spec fn after_steps_on(
    s: ScanView,
    disk: Map<Seq<char>, Seq<DirEntryView>>,
    steps: nat,
) -> ScanView
    decreases steps,
{
    if steps == 0 {
        s
    } else {
        after_steps_on(after_discover(s, listing_on(disk, s)), disk, (steps - 1) as nat)
    }
}

/// What the directories of a disk that are not expanded yet can still put
/// on the queue, and one for each of them: every directory of `directories`
/// that is not among `visited` counts one more than it has subdirectories.
pub open spec fn unexpanded(
    directories: Seq<Seq<char>>,
    disk: Map<Seq<char>, Seq<DirEntryView>>,
    visited: Seq<Seq<char>>,
) -> nat
    decreases directories.len(),
{
    if directories.len() == 0 {
        0
    } else if visited.contains(directories.last()) {
        unexpanded(directories.drop_last(), disk, visited)
    } else {
        unexpanded(directories.drop_last(), disk, visited) + 1 + subdirectories(
            disk[directories.last()],
        )
    }
}

/// The work that a discovery has left on a disk whose directories are
/// `directories`: the directories that wait, and what the unexpanded ones
/// can add.
pub open spec fn work_left(
    s: ScanView,
    disk: Map<Seq<char>, Seq<DirEntryView>>,
    directories: Seq<Seq<char>>,
) -> nat {
    s.discovered.len() + unexpanded(directories, disk, s.visited)
}

/// Looking at entries puts as many directories on the queue as there are
/// among them.
proof fn lemma_entries_queue_subdirectories(s: ScanView, entries: Seq<DirEntryView>)
    ensures
        after_entries(s, entries).discovered.len() == s.discovered.len() + subdirectories(entries),
    decreases entries.len(),
{
    if entries.len() > 0 {
        lemma_entries_queue_subdirectories(s, entries.drop_last());
    }
}

/// Expanding a directory that is not one of `directories` leaves their
/// weight as it is.
proof fn lemma_expanding_a_stranger(
    directories: Seq<Seq<char>>,
    disk: Map<Seq<char>, Seq<DirEntryView>>,
    visited: Seq<Seq<char>>,
    directory: Seq<char>,
)
    requires
        !directories.contains(directory),
    ensures
        unexpanded(directories, disk, visited.push(directory)) == unexpanded(
            directories,
            disk,
            visited,
        ),
    decreases directories.len(),
{
    if directories.len() > 0 {
        let front = directories.drop_last();
        let last = directories.last();
        assert(directories[directories.len() - 1] == last);
        assert(last != directory);
        assert forall|i: int| 0 <= i < front.len() implies front[i] != directory by {
            assert(front[i] == directories[i]);
        }
        lemma_expanding_a_stranger(front, disk, visited, directory);
        vstd::seq_lib::lemma_seq_contains_after_push(visited, directory, last);
    }
}

/// Expanding one of `directories` that was not expanded before takes its
/// weight off: one, and one for each of its subdirectories.
proof fn lemma_expanding_lightens(
    directories: Seq<Seq<char>>,
    disk: Map<Seq<char>, Seq<DirEntryView>>,
    visited: Seq<Seq<char>>,
    directory: Seq<char>,
)
    requires
        directories.no_duplicates(),
        directories.contains(directory),
        !visited.contains(directory),
    ensures
        unexpanded(directories, disk, visited.push(directory)) + 1 + subdirectories(
            disk[directory],
        ) == unexpanded(directories, disk, visited),
    decreases directories.len(),
{
    let front = directories.drop_last();
    let last = directories.last();
    assert(directories[directories.len() - 1] == last);
    vstd::seq_lib::lemma_seq_contains_after_push(visited, directory, last);
    if last == directory {
        assert forall|i: int| 0 <= i < front.len() implies front[i] != directory by {
            assert(front[i] == directories[i]);
        }
        lemma_expanding_a_stranger(front, disk, visited, directory);
    } else {
        let k = choose|k: int| 0 <= k < directories.len() && directories[k] == directory;
        assert(front[k] == directory);
        assert forall|i: int, j: int|
            0 <= i < front.len() && 0 <= j < front.len() && i != j implies front[i]
            != front[j] by {
            assert(front[i] == directories[i]);
            assert(front[j] == directories[j]);
        }
        lemma_expanding_lightens(front, disk, visited, directory);
    }
}

/// Every discovery step on a disk does some of the work that is left: with
/// directories waiting, less is left after the step than before, and with
/// none waiting the discovery is over.
pub proof fn lemma_discovery_step_does_work(
    s: ScanView,
    disk: Map<Seq<char>, Seq<DirEntryView>>,
    directories: Seq<Seq<char>>,
)
    requires
        s.state == ScanState::Discovering,
        directories.no_duplicates(),
        directories.to_set() == disk.dom(),
    ensures
        s.discovered.len() == 0 ==> after_discover(s, listing_on(disk, s)).state
            == ScanState::Scanning,
        s.discovered.len() > 0 ==> after_discover(s, listing_on(disk, s)).state
            == ScanState::Discovering && work_left(
            after_discover(s, listing_on(disk, s)),
            disk,
            directories,
        ) < work_left(s, disk, directories),
{
    if s.discovered.len() > 0 {
        let listing = listing_on(disk, s);
        if next_directory(s) is Some && listing is Some {
            let directory = s.discovered.last();
            let popped = ScanView { discovered: s.discovered.drop_last(), ..s };
            lemma_entries_frame(popped, disk[directory]);
            lemma_entries_queue_subdirectories(popped, disk[directory]);
            assert(directories.to_set().contains(directory));
            lemma_expanding_lightens(directories, disk, s.visited, directory);
        }
    }
}

/// The traversal ends. On a disk with finitely many directories, whatever
/// their children are and however they lead back to one another, a
/// discovery comes to its end within as many steps as work is left, and one
/// more: the scanning begins.
pub proof fn lemma_discovery_ends(
    s: ScanView,
    disk: Map<Seq<char>, Seq<DirEntryView>>,
    directories: Seq<Seq<char>>,
) -> (steps: nat)
    requires
        s.state == ScanState::Discovering,
        directories.no_duplicates(),
        directories.to_set() == disk.dom(),
    ensures
        steps <= work_left(s, disk, directories) + 1,
        after_steps_on(s, disk, steps).state == ScanState::Scanning,
    decreases work_left(s, disk, directories),
{
    lemma_discovery_step_does_work(s, disk, directories);
    let next = after_discover(s, listing_on(disk, s));
    if s.discovered.len() == 0 {
        assert(after_steps_on(next, disk, 0) == next);
        1
    } else {
        let rest = lemma_discovery_ends(next, disk, directories);
        rest + 1
    }
}

} // verus!
