//! The library scan engine.
//!
//! A scan is one run through `Cleanup`, `Discovering` and `Scanning`, started
//! by a `Scan` command and ended by its completion or by `Stop`. The engine
//! holds the state of the run and decides; the host does the outside work
//! that a step needs (listing a directory, decoding a file, talking to the
//! track store) and hands the outcome to the step.

use crate::library::path::{extension_of, path_extension};
use crate::library::queue::{clear_paths, contains_path, pop_path, push_path};
use crate::library::record::{json_entries, loaded_entries, unchanged, ScanRecord};
use crate::library::sync::{
    begun, delete_track_request, FileInformation, StoreRequest, StoreRequestView, UpdateMetadata,
};
use crate::media::metadata::copy_texts;
use crate::settings::scan::ScanSettings;
use vstd::prelude::*;

verus! {

/// What the engine reports to its caller.
#[derive(Debug, PartialEq, Eq, Structural, Clone, Copy)]
pub enum ScanEvent {
    /// A run has begun and the record is being swept.
    Cleaning,
    /// So many files have been found to scan in this run.
    DiscoverProgress(u64),
    /// `current` of the `total` found files have been processed.
    ScanProgress { current: u64, total: u64 },
    /// Reserved for a run that ends with the library being watched.
    ScanCompleteWatching,
    /// The run is complete and the engine idle again.
    ScanCompleteIdle,
}

/// What a caller can ask of the engine.
#[derive(Debug, PartialEq, Eq, Structural, Clone, Copy)]
pub enum ScanCommand {
    /// Begin a run. Without effect while a run is under way.
    Scan,
    /// Abandon the run, if any.
    Stop,
}

/// Phase of the engine.
#[derive(Debug, PartialEq, Eq, Structural, Clone, Copy)]
pub enum ScanState {
    Idle,
    Cleanup,
    Discovering,
    Scanning,
}

/// What a directory entry is, as the host found it.
#[derive(Debug, PartialEq, Eq, Structural, Clone, Copy)]
pub enum EntryKind {
    Directory,
    /// Anything that is not a directory, with its modification time in
    /// seconds since the Unix epoch, or `None` where the host could not read
    /// the time.
    File { modified: Option<u64> },
}

/// One child of a directory: its canonical path and what it is.
#[derive(Debug, Clone, PartialEq, Eq)]
pub struct DirEntry {
    pub path: String,
    pub kind: EntryKind,
}

/// Mathematical value of a [`DirEntry`].
pub struct DirEntryView {
    pub path: Seq<char>,
    pub kind: EntryKind,
}

impl View for DirEntry {
    type V = DirEntryView;

    open spec fn view(&self) -> DirEntryView {
        DirEntryView { path: self.path@, kind: self.kind }
    }
}

impl DeepView for DirEntry {
    type V = DirEntryView;

    open spec fn deep_view(&self) -> DirEntryView {
        self@
    }
}

/// Whether a provider that declares the extensions `exts` takes a file with
/// the extension `extension`: the extension is there and is one of them,
/// letter for letter.
pub open spec fn accepts(exts: Seq<Seq<char>>, extension: Option<Seq<char>>) -> bool {
    extension matches Some(e) && exts.contains(e)
}

/// Whether the provider at `index` is the first of `table` that accepts
/// `extension`.
pub open spec fn is_first_provider(
    table: Seq<Seq<Seq<char>>>,
    extension: Option<Seq<char>>,
    index: int,
) -> bool {
    &&& 0 <= index < table.len()
    &&& accepts(table[index], extension)
    &&& forall|j: int| 0 <= j < index ==> !accepts(#[trigger] table[j], extension)
}

/// Whether any provider of `table` accepts `extension`.
pub open spec fn has_provider(table: Seq<Seq<Seq<char>>>, extension: Option<Seq<char>>) -> bool {
    exists|i: int| 0 <= i < table.len() && accepts(#[trigger] table[i], extension)
}

/// The provider table of an engine: the extension lists that the providers
/// declare, in the order in which the providers were registered.
pub fn build_provider_table(declared: &Vec<Vec<String>>) -> (table: Vec<Vec<String>>)
    ensures
        table.deep_view() == declared.deep_view(),
{
    let mut table: Vec<Vec<String>> = Vec::new();
    let mut i: usize = 0;
    while i < declared.len()
        invariant
            i <= declared.len(),
            table@.len() == i,
            forall|k: int| 0 <= k < i ==> table@[k].deep_view() == declared@[k].deep_view(),
        decreases declared.len() - i,
    {
        table.push(copy_texts(&declared[i]));
        i += 1;
    }
    assert(table.deep_view() =~= declared.deep_view());
    table
}

/// Whether `extension` is one of `exts`.
pub fn extension_matches(extension: &Option<String>, exts: &Vec<String>) -> (found: bool)
    ensures
        found == accepts(exts.deep_view(), extension.deep_view()),
{
    match extension {
        None => false,
        Some(ext) => {
            let mut i: usize = 0;
            while i < exts.len()
                invariant
                    i <= exts.len(),
                    extension.deep_view() == Some(ext@),
                    forall|k: int| 0 <= k < i ==> exts@[k]@ != ext@,
                decreases exts.len() - i,
            {
                if exts[i] == *ext {
                    assert(exts.deep_view()[i as int] == ext@);
                    assert(exts.deep_view().contains(ext@));
                    return true;
                }
                i += 1;
            }
            assert forall|k: int| 0 <= k < exts.deep_view().len() implies exts.deep_view()[k]
                != ext@ by {
                assert(exts.deep_view()[k] == exts@[k]@);
            }
            false
        },
    }
}

/// Whether a provider that declares `exts` takes the file at `path`, going by
/// the extension of the path.
pub fn file_is_scannable_with_provider(path: &str, exts: &Vec<String>) -> (scannable: bool)
    ensures
        scannable == accepts(exts.deep_view(), path_extension(path@)),
{
    let extension = extension_of(path);
    extension_matches(&extension, exts)
}

/// The first provider of `table` that takes a file with `extension`.
pub fn find_provider(table: &Vec<Vec<String>>, extension: &Option<String>) -> (found: Option<usize>)
    ensures
        match found {
            Some(i) => is_first_provider(table.deep_view(), extension.deep_view(), i as int),
            None => !has_provider(table.deep_view(), extension.deep_view()),
        },
{
    let mut i: usize = 0;
    while i < table.len()
        invariant
            i <= table.len(),
            forall|k: int| 0 <= k < i ==> !accepts(#[trigger] table.deep_view()[k], extension.deep_view()),
        decreases table.len() - i,
    {
        assert(table.deep_view()[i as int] == table@[i as int].deep_view());
        if extension_matches(extension, &table[i]) {
            return Some(i);
        }
        i += 1;
    }
    None
}

/// Every how many found files a `DiscoverProgress` is reported.
pub const DISCOVER_PROGRESS_STEP: u64 = 20;

/// Every how many processed files a `ScanProgress` is reported.
pub const SCAN_PROGRESS_STEP: u64 = 5;

/// Mathematical state of the engine.
pub struct ScanView {
    pub state: ScanState,
    /// The configured root directories.
    pub roots: Seq<Seq<char>>,
    /// The extension lists of the providers, in registration order.
    pub providers: Seq<Seq<Seq<char>>>,
    /// Directories expanded in this run.
    pub visited: Seq<Seq<char>>,
    /// Directories still to expand; the last one is next.
    pub discovered: Seq<Seq<char>>,
    /// Files still to process; the last one is next.
    pub to_process: Seq<Seq<char>>,
    pub record: Map<Seq<char>, u64>,
    /// Files processed in this run.
    pub scanned: nat,
    /// Files found to scan in this run.
    pub discovered_total: nat,
}

/// What ties the counters of a run to its queue. Outside a run nothing waits
/// to be processed; until the scanning begins every found file waits and
/// none is processed; while it goes on, the processed and the waiting files
/// are among the found ones.
pub open spec fn consistent(s: ScanView) -> bool {
    match s.state {
        ScanState::Idle => s.to_process.len() == 0,
        ScanState::Cleanup => s.to_process.len() == 0 && s.discovered_total == 0 && s.scanned == 0,
        ScanState::Discovering => s.discovered_total == s.to_process.len() && s.scanned == 0,
        ScanState::Scanning => s.scanned + s.to_process.len() <= s.discovered_total,
    }
}

/// The engine before its first command: idle, with nothing queued.
pub open spec fn initial(
    roots: Seq<Seq<char>>,
    providers: Seq<Seq<Seq<char>>>,
    record: Map<Seq<char>, u64>,
) -> ScanView {
    ScanView {
        state: ScanState::Idle,
        roots,
        providers,
        visited: Seq::empty(),
        discovered: Seq::empty(),
        to_process: Seq::empty(),
        record,
        scanned: 0,
        discovered_total: 0,
    }
}

/// The engine after one command. `Scan` begins a run only from `Idle`: the
/// queues are made afresh, the roots wait to be expanded and the counters
/// start at zero. `Stop` ends whatever goes on and empties the queues. The
/// record is touched by neither.
pub open spec fn after_command(s: ScanView, command: ScanCommand) -> ScanView {
    match command {
        ScanCommand::Scan => if s.state == ScanState::Idle {
            ScanView {
                state: ScanState::Cleanup,
                visited: Seq::empty(),
                discovered: s.roots,
                to_process: Seq::empty(),
                scanned: 0,
                discovered_total: 0,
                ..s
            }
        } else {
            s
        },
        ScanCommand::Stop => ScanView {
            state: ScanState::Idle,
            visited: Seq::empty(),
            discovered: Seq::empty(),
            to_process: Seq::empty(),
            ..s
        },
    }
}

/// What one command makes the engine report: `Cleaning` where it begins a
/// run, nothing otherwise.
pub open spec fn command_events(s: ScanView, command: ScanCommand) -> Seq<ScanEvent> {
    if command == ScanCommand::Scan && s.state == ScanState::Idle {
        seq![ScanEvent::Cleaning]
    } else {
        Seq::empty()
    }
}

/// The engine after a sequence of commands, taken in order.
pub open spec fn after_commands(s: ScanView, commands: Seq<ScanCommand>) -> ScanView
    decreases commands.len(),
{
    if commands.len() == 0 {
        s
    } else {
        after_command(after_commands(s, commands.drop_last()), commands.last())
    }
}

/// What a sequence of commands makes the engine report, in order.
pub open spec fn commands_events(s: ScanView, commands: Seq<ScanCommand>) -> Seq<ScanEvent>
    decreases commands.len(),
{
    if commands.len() == 0 {
        Seq::empty()
    } else {
        commands_events(s, commands.drop_last()) + command_events(
            after_commands(s, commands.drop_last()),
            commands.last(),
        )
    }
}

/// Whether the engine takes up a file: the host could read its modification
/// time, some provider accepts its extension, and the record does not hold
/// that very time for it.
pub open spec fn takes_up(
    providers: Seq<Seq<Seq<char>>>,
    record: Map<Seq<char>, u64>,
    path: Seq<char>,
    modified: Option<u64>,
) -> bool {
    &&& modified is Some
    &&& has_provider(providers, path_extension(path))
    &&& !unchanged(record, path, modified->0)
}

/// The engine after it looked at one directory entry. A directory waits to
/// be expanded. A file that is taken up is recorded with its time at once,
/// whatever becomes of it later, waits to be processed and counts as found.
/// Any other file leaves no trace.
pub open spec fn after_entry(s: ScanView, entry: DirEntryView) -> ScanView {
    match entry.kind {
        EntryKind::Directory => ScanView { discovered: s.discovered.push(entry.path), ..s },
        EntryKind::File { modified } => if takes_up(s.providers, s.record, entry.path, modified) {
            ScanView {
                record: s.record.insert(entry.path, modified->0),
                to_process: s.to_process.push(entry.path),
                discovered_total: s.discovered_total + 1,
                ..s
            }
        } else {
            s
        },
    }
}

/// What one directory entry makes the engine report: the new count of found
/// files where the entry is taken up and that count is a multiple of
/// [`DISCOVER_PROGRESS_STEP`].
pub open spec fn entry_events(s: ScanView, entry: DirEntryView) -> Seq<ScanEvent> {
    match entry.kind {
        EntryKind::Directory => Seq::empty(),
        EntryKind::File { modified } => if takes_up(s.providers, s.record, entry.path, modified)
            && (s.discovered_total + 1) % (DISCOVER_PROGRESS_STEP as nat) == 0 {
            seq![ScanEvent::DiscoverProgress((s.discovered_total + 1) as u64)]
        } else {
            Seq::empty()
        },
    }
}

/// The engine after it looked at the entries of a directory, in order.
pub open spec fn after_entries(s: ScanView, entries: Seq<DirEntryView>) -> ScanView
    decreases entries.len(),
{
    if entries.len() == 0 {
        s
    } else {
        after_entry(after_entries(s, entries.drop_last()), entries.last())
    }
}

/// What the entries of a directory make the engine report, in order.
pub open spec fn entries_events(s: ScanView, entries: Seq<DirEntryView>) -> Seq<ScanEvent>
    decreases entries.len(),
{
    if entries.len() == 0 {
        Seq::empty()
    } else {
        entries_events(s, entries.drop_last()) + entry_events(
            after_entries(s, entries.drop_last()),
            entries.last(),
        )
    }
}

/// The directory that a discovery step expands: the next of the queue,
/// unless the engine is not discovering, the queue is empty or the directory
/// was expanded before in this run.
pub open spec fn next_directory(s: ScanView) -> Option<Seq<char>> {
    if s.state == ScanState::Discovering && s.discovered.len() > 0 && !s.visited.contains(
        s.discovered.last(),
    ) {
        Some(s.discovered.last())
    } else {
        None
    }
}

/// The engine after one discovery step, in which the host listed the next
/// directory and found `listing`, or could not list it (`None`).
///
/// With an empty queue the discovery is over and the scanning begins.
/// Otherwise the next directory leaves the queue. If it was expanded before,
/// or cannot be listed, nothing else happens: its subtree is passed over.
/// Else its entries are looked at in order and it counts as expanded.
pub open spec fn after_discover(s: ScanView, listing: Option<Seq<DirEntryView>>) -> ScanView {
    if s.state != ScanState::Discovering {
        s
    } else if s.discovered.len() == 0 {
        ScanView { state: ScanState::Scanning, ..s }
    } else {
        let popped = ScanView { discovered: s.discovered.drop_last(), ..s };
        if next_directory(s) is Some && listing is Some {
            let expanded = after_entries(popped, listing->0);
            ScanView { visited: expanded.visited.push(s.discovered.last()), ..expanded }
        } else {
            popped
        }
    }
}

/// What one discovery step makes the engine report.
pub open spec fn discover_events(s: ScanView, listing: Option<Seq<DirEntryView>>) -> Seq<ScanEvent> {
    if next_directory(s) is Some && listing is Some {
        entries_events(ScanView { discovered: s.discovered.drop_last(), ..s }, listing->0)
    } else {
        Seq::empty()
    }
}

/// The engine after one scanning step, in which the host tried to extract
/// the metadata of the next file and did (`extracted`) or did not.
///
/// With an empty queue the run is complete and the engine idle. Otherwise
/// the next file leaves the queue, and counts as processed if its metadata
/// was extracted.
pub open spec fn after_scan(s: ScanView, extracted: bool) -> ScanView {
    if s.state != ScanState::Scanning {
        s
    } else if s.to_process.len() == 0 {
        ScanView { state: ScanState::Idle, ..s }
    } else if extracted {
        ScanView { to_process: s.to_process.drop_last(), scanned: s.scanned + 1, ..s }
    } else {
        ScanView { to_process: s.to_process.drop_last(), ..s }
    }
}

/// What one scanning step makes the engine report: `ScanCompleteIdle` where
/// the run is complete; the progress where a file was processed and the
/// count of processed files is a multiple of [`SCAN_PROGRESS_STEP`].
pub open spec fn scan_events(s: ScanView, extracted: bool) -> Seq<ScanEvent> {
    if s.state != ScanState::Scanning {
        Seq::empty()
    } else if s.to_process.len() == 0 {
        seq![ScanEvent::ScanCompleteIdle]
    } else if extracted && (s.scanned + 1) % (SCAN_PROGRESS_STEP as nat) == 0 {
        seq![
            ScanEvent::ScanProgress {
                current: (s.scanned + 1) as u64,
                total: s.discovered_total as u64,
            },
        ]
    } else {
        Seq::empty()
    }
}

/// The engine after the sweep, in which the host found the files at
/// `missing` gone: their entries leave the record, every other entry stays,
/// and the discovery begins.
pub open spec fn after_cleanup(s: ScanView, missing: Seq<Seq<char>>) -> ScanView {
    if s.state != ScanState::Cleanup {
        s
    } else {
        ScanView {
            state: ScanState::Discovering,
            record: s.record.remove_keys(missing.to_set()),
            ..s
        }
    }
}

/// Whether `deleted` names each entry of `record` whose path is among
/// `missing` exactly once, and nothing else.
pub open spec fn deletes_exactly(
    deleted: Seq<Seq<char>>,
    record: Map<Seq<char>, u64>,
    missing: Seq<Seq<char>>,
) -> bool {
    &&& deleted.no_duplicates()
    &&& deleted.to_set() == record.dom().intersect(missing.to_set())
}

/// How long an idle engine waits before it looks for commands again, in
/// milliseconds.
pub const IDLE_INTERVAL_MS: u64 = 100;

/// The outside work that the engine needs next.
#[derive(Debug, Clone, PartialEq, Eq)]
pub enum ScanAction {
    /// Nothing: wait for so many milliseconds.
    Sleep { millis: u64 },
    /// Find out which of these recorded files are gone, then call
    /// [`ScanThread::cleanup`] with those.
    Sweep { paths: Vec<String> },
    /// List this directory, then call [`ScanThread::discover`] with what was
    /// found.
    List { directory: String },
    /// Nothing: call [`ScanThread::discover`] without a listing.
    Advance,
    /// Extract the metadata of this file with the provider of that index,
    /// then call [`ScanThread::scan`] with it.
    Extract { path: String, provider: Option<usize> },
    /// Nothing: call [`ScanThread::scan`], which completes the run.
    Complete,
}

/// What a scanning step did.
#[derive(Debug, Clone, PartialEq, Eq)]
pub enum ScanStep {
    /// Nothing: the engine is not scanning.
    NotScanning,
    /// The run is complete. `record` is the scan record as JSON, for the
    /// host to store; `None` where it could not be encoded.
    Complete { record: Option<String> },
    /// This file's metadata was extracted; the update brings the store in
    /// step with it.
    Processed { update: UpdateMetadata },
    /// No metadata could be extracted for this file; it is passed over.
    Skipped { path: String },
}

/// The engine: the state of the worker that runs the scans.
pub struct ScanThread {
    scan_settings: ScanSettings,
    visited: Vec<String>,
    discovered: Vec<String>,
    to_process: Vec<String>,
    scan_state: ScanState,
    provider_table: Vec<Vec<String>>,
    scan_record: ScanRecord,
    scanned: u64,
    discovered_total: u64,
}

impl View for ScanThread {
    type V = ScanView;

    closed spec fn view(&self) -> ScanView {
        ScanView {
            state: self.scan_state,
            roots: self.scan_settings.paths.deep_view(),
            providers: self.provider_table.deep_view(),
            visited: self.visited.deep_view(),
            discovered: self.discovered.deep_view(),
            to_process: self.to_process.deep_view(),
            record: self.scan_record@,
            scanned: self.scanned as nat,
            discovered_total: self.discovered_total as nat,
        }
    }
}

/// The requests that delete the tracks at `locations`, in order.
pub open spec fn delete_requests(locations: Seq<Seq<char>>) -> Seq<StoreRequestView> {
    locations.map_values(|location: Seq<char>| StoreRequestView::DeleteTrack { location })
}

/// Whether `requests` delete the track of each entry of `record` whose path
/// is among `missing`, once each, and ask nothing else.
pub open spec fn sweeps(
    requests: Seq<StoreRequestView>,
    record: Map<Seq<char>, u64>,
    missing: Seq<Seq<char>>,
) -> bool {
    exists|deleted: Seq<Seq<char>>|
        #[trigger] delete_requests(deleted) == requests && deletes_exactly(deleted, record, missing)
}

proof fn lemma_take_next_contains<A>(s: Seq<A>, i: int, x: A)
    requires
        0 <= i < s.len(),
    ensures
        s.take(i + 1).contains(x) <==> (s.take(i).contains(x) || x == s[i]),
{
    assert(s.take(i + 1) =~= s.take(i).push(s[i]));
    vstd::seq_lib::lemma_seq_contains_after_push(s.take(i), s[i], x);
}

/// Whether `action` is the outside work that an engine in the state `s`
/// needs next. Idle, it sleeps for the idle interval. In the sweep it needs
/// to know which of the recorded files are gone, and names each of them
/// once. Discovering, it needs the listing of the next directory, unless
/// there is none or it was expanded before. Scanning, it needs the metadata
/// of the next file, from the first provider that takes its extension,
/// unless no file waits.
pub open spec fn is_due(s: ScanView, action: ScanAction) -> bool {
    match action {
        ScanAction::Sleep { millis } => s.state == ScanState::Idle && millis == IDLE_INTERVAL_MS,
        ScanAction::Sweep { paths } => s.state == ScanState::Cleanup
            && paths.deep_view().no_duplicates() && paths.deep_view().to_set() == s.record.dom(),
        ScanAction::List { directory } => next_directory(s) == Some(directory@),
        ScanAction::Advance => s.state == ScanState::Discovering && next_directory(s) is None,
        ScanAction::Extract { path, provider } => s.state == ScanState::Scanning
            && s.to_process.len() > 0 && path@ == s.to_process.last() && match provider {
            Some(i) => is_first_provider(s.providers, path_extension(path@), i as int),
            None => !has_provider(s.providers, path_extension(path@)),
        },
        ScanAction::Complete => s.state == ScanState::Scanning && s.to_process.len() == 0,
    }
}

impl ScanThread {
    /// The invariant of the engine: its counters and its queue agree.
    pub open spec fn wf(&self) -> bool {
        consistent(self@)
    }

    /// An idle engine for the roots of `settings` and the providers that
    /// declare `providers`, with the record that the host has stored as
    /// `stored_record` (`None`: it has none), and the interface through which
    /// a caller commands it. A stored text that is not a record is passed
    /// over: the engine then starts with an empty record.
    pub fn start(
        settings: ScanSettings,
        providers: &Vec<Vec<String>>,
        stored_record: Option<&str>,
    ) -> (started: (ScanThread, ScanInterface))
        ensures
            started.0@ == initial(
                settings.paths.deep_view(),
                providers.deep_view(),
                loaded_entries(stored_record),
            ),
            started.0.wf(),
            started.1@ == (ScanInterfaceView { events: Some(Seq::empty()), commands: Seq::empty() }),
    {
        let thread = ScanThread {
            scan_settings: settings,
            visited: Vec::new(),
            discovered: Vec::new(),
            to_process: Vec::new(),
            scan_state: ScanState::Idle,
            provider_table: build_provider_table(providers),
            scan_record: ScanRecord::load(stored_record),
            scanned: 0,
            discovered_total: 0,
        };
        proof {
            assert(thread.visited.deep_view() =~= Seq::<Seq<char>>::empty());
            assert(thread.discovered.deep_view() =~= Seq::<Seq<char>>::empty());
            assert(thread.to_process.deep_view() =~= Seq::<Seq<char>>::empty());
        }
        (thread, ScanInterface::new(Some(Vec::new()), Vec::new()))
    }

    /// The phase of the engine.
    pub fn state(&self) -> (state: ScanState)
        ensures
            state == self@.state,
    {
        self.scan_state
    }

    /// How many files were processed in this run.
    pub fn scanned(&self) -> (scanned: u64)
        ensures
            scanned == self@.scanned,
    {
        self.scanned
    }

    /// How many files were found to scan in this run.
    pub fn discovered_total(&self) -> (total: u64)
        ensures
            total == self@.discovered_total,
    {
        self.discovered_total
    }

    /// The files that wait to be processed; the last one is next.
    pub fn to_process(&self) -> (queue: Vec<String>)
        ensures
            queue.deep_view() == self@.to_process,
    {
        copy_texts(&self.to_process)
    }

    /// The directories that wait to be expanded; the last one is next.
    pub fn discovered(&self) -> (queue: Vec<String>)
        ensures
            queue.deep_view() == self@.discovered,
    {
        copy_texts(&self.discovered)
    }

    /// The directories expanded in this run.
    pub fn visited(&self) -> (visited: Vec<String>)
        ensures
            visited.deep_view() == self@.visited,
    {
        copy_texts(&self.visited)
    }

    /// The scan record.
    pub fn scan_record(&self) -> (record: &ScanRecord)
        ensures
            record@ == self@.record,
    {
        &self.scan_record
    }

    /// Takes one command.
    pub fn handle_command(&mut self, command: ScanCommand) -> (events: Vec<ScanEvent>)
        requires
            old(self).wf(),
        ensures
            final(self).wf(),
            final(self)@ == after_command(old(self)@, command),
            events@ == command_events(old(self)@, command),
    {
        let mut events: Vec<ScanEvent> = Vec::new();
        match command {
            ScanCommand::Scan => {
                if self.scan_state == ScanState::Idle {
                    self.discovered = copy_texts(&self.scan_settings.paths);
                    clear_paths(&mut self.visited);
                    clear_paths(&mut self.to_process);
                    self.scan_state = ScanState::Cleanup;
                    self.scanned = 0;
                    self.discovered_total = 0;
                    events.push(ScanEvent::Cleaning);
                }
            },
            ScanCommand::Stop => {
                self.scan_state = ScanState::Idle;
                clear_paths(&mut self.visited);
                clear_paths(&mut self.discovered);
                clear_paths(&mut self.to_process);
            },
        }
        events
    }

    /// Takes the commands that have arrived, in order, and returns what the
    /// engine reports on them.
    pub fn read_commands(&mut self, commands: &Vec<ScanCommand>) -> (events: Vec<ScanEvent>)
        requires
            old(self).wf(),
        ensures
            final(self).wf(),
            final(self)@ == after_commands(old(self)@, commands@),
            events@ == commands_events(old(self)@, commands@),
    {
        let mut events: Vec<ScanEvent> = Vec::new();
        let mut i: usize = 0;
        while i < commands.len()
            invariant
                i <= commands.len(),
                self.wf(),
                self@ == after_commands(old(self)@, commands@.take(i as int)),
                events@ == commands_events(old(self)@, commands@.take(i as int)),
            decreases commands.len() - i,
        {
            proof {
                assert(commands@.take(i + 1).drop_last() =~= commands@.take(i as int));
                assert(commands@.take(i + 1).last() == commands@[i as int]);
            }
            let mut reported = self.handle_command(commands[i]);
            events.append(&mut reported);
            i += 1;
        }
        assert(commands@.take(i as int) =~= commands@);
        events
    }

    /// The outside work that the engine needs next, by its phase.
    pub fn next_action(&self) -> (action: ScanAction)
        ensures
            is_due(self@, action),
    {
        match self.scan_state {
            ScanState::Idle => ScanAction::Sleep { millis: IDLE_INTERVAL_MS },
            ScanState::Cleanup => ScanAction::Sweep { paths: self.scan_record.paths() },
            ScanState::Discovering => {
                let n = self.discovered.len();
                if n == 0 {
                    ScanAction::Advance
                } else {
                    assert(self.discovered.deep_view().last() == self.discovered@[n - 1]@);
                    if contains_path(&self.visited, &self.discovered[n - 1]) {
                        ScanAction::Advance
                    } else {
                        ScanAction::List { directory: self.discovered[n - 1].clone() }
                    }
                }
            },
            ScanState::Scanning => {
                let n = self.to_process.len();
                if n == 0 {
                    ScanAction::Complete
                } else {
                    assert(self.to_process.deep_view().last() == self.to_process@[n - 1]@);
                    let path = self.to_process[n - 1].clone();
                    let provider = self.read_metadata_for_path(&path);
                    ScanAction::Extract { path, provider }
                }
            },
        }
    }

    /// One turn of the worker's loop, up to the outside work: the commands
    /// that have arrived are taken in order, and the work that the engine
    /// then needs is named. A command counts from the turn in which it is
    /// read: the step of that turn is already the step of the new phase.
    pub fn run(&mut self, commands: &Vec<ScanCommand>) -> (turn: (Vec<ScanEvent>, ScanAction))
        requires
            old(self).wf(),
        ensures
            final(self).wf(),
            final(self)@ == after_commands(old(self)@, commands@),
            turn.0@ == commands_events(old(self)@, commands@),
            is_due(final(self)@, turn.1),
    {
        let events = self.read_commands(commands);
        let action = self.next_action();
        (events, action)
    }

    /// The provider to extract the metadata of `path` with: the first one
    /// registered whose extensions hold the extension of the path.
    pub fn read_metadata_for_path(&self, path: &String) -> (provider: Option<usize>)
        ensures
            match provider {
                Some(i) => is_first_provider(self@.providers, path_extension(path@), i as int),
                None => !has_provider(self@.providers, path_extension(path@)),
            },
    {
        let extension = extension_of(path.as_str());
        find_provider(&self.provider_table, &extension)
    }

    /// Decides whether the file at `path`, last modified at `modified`, is to
    /// be scanned in this run, and records its time if it is. The time is
    /// recorded before the file is processed, so that a file that cannot be
    /// processed is not taken up again until it changes.
    pub fn file_is_scannable(&mut self, path: &String, modified: Option<u64>) -> (scannable: bool)
        ensures
            scannable == takes_up(old(self)@.providers, old(self)@.record, path@, modified),
            final(self)@ == if scannable {
                ScanView { record: old(self)@.record.insert(path@, modified->0), ..old(self)@ }
            } else {
                old(self)@
            },
    {
        let provider = self.read_metadata_for_path(path);
        self.take_up(path, provider.is_some(), modified)
    }

    /// Takes the file at `path` up for this run, or does not: it is taken up
    /// if it has a provider, the host could read its time, and the record
    /// does not hold that very time for it. Its time is then recorded at
    /// once.
    pub fn take_up(&mut self, path: &String, has_provider: bool, modified: Option<u64>) -> (taken: bool)
        ensures
            taken == (has_provider && modified is Some && !unchanged(
                old(self)@.record,
                path@,
                modified->0,
            )),
            final(self)@ == if taken {
                ScanView { record: old(self)@.record.insert(path@, modified->0), ..old(self)@ }
            } else {
                old(self)@
            },
    {
        match modified {
            None => false,
            Some(timestamp) => {
                if !has_provider || self.scan_record.is_unchanged(path, timestamp) {
                    false
                } else {
                    self.scan_record.insert(path.clone(), timestamp);
                    true
                }
            },
        }
    }

    /// Drops the record entry of the file at `path`, which is gone, and
    /// returns the request that deletes its track. `None` where the record
    /// has no such entry: nothing is then to delete.
    pub fn delete_track(&mut self, path: &String) -> (request: Option<StoreRequest>)
        ensures
            final(self)@ == (ScanView { record: old(self)@.record.remove(path@), ..old(self)@ }),
            request.deep_view() == if old(self)@.record.contains_key(path@) {
                Some(StoreRequestView::DeleteTrack { location: path@ })
            } else {
                None
            },
    {
        if self.scan_record.remove(path) {
            Some(delete_track_request(path))
        } else {
            None
        }
    }

    /// The sweep, after the host found the recorded files at `missing` gone:
    /// the entry of each leaves the record, and the requests returned delete
    /// their tracks, one request for each entry that left. Entries of other
    /// files stay as they are. The discovery begins.
    ///
    /// This is one step: no command is looked at while it goes on.
    pub fn cleanup(&mut self, missing: &Vec<String>) -> (requests: Vec<StoreRequest>)
        requires
            old(self).wf(),
        ensures
            final(self).wf(),
            final(self)@ == after_cleanup(old(self)@, missing.deep_view()),
            old(self)@.state == ScanState::Cleanup ==> sweeps(
                requests.deep_view(),
                old(self)@.record,
                missing.deep_view(),
            ),
            old(self)@.state != ScanState::Cleanup ==> requests@.len() == 0,
    {
        let mut requests: Vec<StoreRequest> = Vec::new();
        if self.scan_state != ScanState::Cleanup {
            return requests;
        }
        let ghost before = self@;
        let ghost gone = missing.deep_view();
        let ghost mut deleted: Seq<Seq<char>> = Seq::empty();
        let mut i: usize = 0;
        proof {
            assert(gone.take(0).to_set() =~= Set::<Seq<char>>::empty());
            assert(before.record.remove_keys(gone.take(0).to_set()) =~= before.record);
            assert(deleted.to_set() =~= before.record.dom().intersect(gone.take(0).to_set()));
            assert(requests.deep_view() =~= delete_requests(deleted));
        }
        while i < missing.len()
            invariant
                i <= missing.len(),
                gone == missing.deep_view(),
                self@ == (ScanView {
                    record: before.record.remove_keys(gone.take(i as int).to_set()),
                    ..before
                }),
                deleted.no_duplicates(),
                deleted.to_set() == before.record.dom().intersect(gone.take(i as int).to_set()),
                requests.deep_view() == delete_requests(deleted),
            decreases missing.len() - i,
        {
            let ghost path = gone[i as int];
            let ghost requested = requests.deep_view();
            assert(path == missing@[i as int]@);
            proof {
                assert forall|x: Seq<char>|
                    gone.take(i + 1).to_set().contains(x) <==> (gone.take(i as int).to_set().contains(
                        x,
                    ) || x == path) by {
                    lemma_take_next_contains(gone, i as int, x);
                }
                let next = before.record.remove_keys(gone.take(i + 1).to_set());
                let step = before.record.remove_keys(gone.take(i as int).to_set()).remove(path);
                assert forall|x: Seq<char>| next.dom().contains(x) <==> step.dom().contains(
                    x,
                ) by {
                    lemma_take_next_contains(gone, i as int, x);
                }
                assert(next =~= step);
            }
            match self.delete_track(&missing[i]) {
                Some(request) => {
                    requests.push(request);
                    proof {
                        let ghost prev = deleted;
                        assert(!prev.to_set().contains(path));
                        deleted = prev.push(path);
                        assert forall|x: Seq<char>|
                            deleted.contains(x) <==> (prev.contains(x) || x == path) by {
                            vstd::seq_lib::lemma_seq_contains_after_push(prev, path, x);
                        }
                        assert(before.record.dom().contains(path));
                        assert forall|x: Seq<char>|
                            deleted.to_set().contains(x) <==> before.record.dom().intersect(
                                gone.take(i + 1).to_set(),
                            ).contains(x) by {
                            assert(prev.to_set().contains(x) <==> before.record.dom().intersect(
                                gone.take(i as int).to_set(),
                            ).contains(x));
                            assert(gone.take(i + 1).to_set().contains(x) <==> (gone.take(
                                i as int,
                            ).to_set().contains(x) || x == path));
                        }
                        assert(deleted.to_set() =~= before.record.dom().intersect(
                            gone.take(i + 1).to_set(),
                        ));
                        assert(requests.deep_view() =~= requested.push(request@));
                        assert(requests.deep_view() =~= delete_requests(deleted));
                    }
                },
                None => {
                    proof {
                        assert(deleted.to_set() =~= before.record.dom().intersect(
                            gone.take(i + 1).to_set(),
                        ));
                    }
                },
            }
            i += 1;
        }
        assert(gone.take(i as int) =~= gone);
        self.scan_state = ScanState::Discovering;
        requests
    }

    /// One discovery step, after the host listed the directory that
    /// [`ScanThread::next_action`] named and found `listing`; `None` where no
    /// listing was asked for or the directory could not be listed.
    ///
    /// With an empty queue the scanning begins. Otherwise the next directory
    /// leaves the queue; unless it was expanded before or could not be
    /// listed, its subdirectories wait to be expanded, its files are taken up
    /// as [`ScanThread::file_is_scannable`] says, and it counts as expanded.
    /// Returns a `DiscoverProgress` for every twentieth file found.
    pub fn discover(&mut self, listing: Option<Vec<DirEntry>>) -> (events: Vec<ScanEvent>)
        requires
            old(self).wf(),
        ensures
            final(self).wf(),
            final(self)@ == after_discover(old(self)@, listing.deep_view()),
            events@ == discover_events(old(self)@, listing.deep_view()),
    {
        let mut events: Vec<ScanEvent> = Vec::new();
        if self.scan_state != ScanState::Discovering {
            return events;
        }
        let directory = match pop_path(&mut self.discovered) {
            None => {
                self.scan_state = ScanState::Scanning;
                return events;
            },
            Some(directory) => directory,
        };
        if contains_path(&self.visited, &directory) {
            return events;
        }
        let entries = match listing {
            None => {
                return events;
            },
            Some(entries) => entries,
        };
        let ghost popped = self@;
        let ghost found = entries.deep_view();
        let mut i: usize = 0;
        while i < entries.len()
            invariant
                i <= entries.len(),
                found == entries.deep_view(),
                self@.state == ScanState::Discovering,
                self.wf(),
                self@ == after_entries(popped, found.take(i as int)),
                events@ == entries_events(popped, found.take(i as int)),
            decreases entries.len() - i,
        {
            proof {
                assert(found.take(i + 1).drop_last() =~= found.take(i as int));
                assert(found.take(i + 1).last() == entries@[i as int]@);
            }
            let entry = &entries[i];
            match entry.kind {
                EntryKind::Directory => {
                    push_path(&mut self.discovered, entry.path.clone());
                },
                EntryKind::File { modified } => {
                    if self.file_is_scannable(&entry.path, modified) {
                        assert(self.discovered_total == self.to_process.deep_view().len());
                        push_path(&mut self.to_process, entry.path.clone());
                        assert(self.to_process.deep_view().len() == self.to_process.len());
                        self.discovered_total = self.discovered_total + 1;
                        if self.discovered_total % DISCOVER_PROGRESS_STEP == 0 {
                            events.push(ScanEvent::DiscoverProgress(self.discovered_total));
                        }
                    }
                },
            }
            i += 1;
        }
        assert(found.take(i as int) =~= found);
        push_path(&mut self.visited, directory);
        events
    }

    /// One scanning step, after the host tried to extract the metadata of the
    /// file that [`ScanThread::next_action`] named: `extracted` is what it
    /// got, `None` where it got nothing.
    ///
    /// With an empty queue the run is complete: the engine is idle, reports
    /// `ScanCompleteIdle` and hands out, to be stored, a text that reads
    /// back as the record. Otherwise
    /// the next file leaves the queue. With metadata it counts as processed,
    /// the update for the store is begun, and every fifth processed file is
    /// reported by a `ScanProgress`; the host carries the update out before
    /// it passes the events on. Without metadata the file is passed over.
    pub fn scan(&mut self, extracted: Option<FileInformation>) -> (done: (ScanStep, Vec<ScanEvent>))
        requires
            old(self).wf(),
        ensures
            final(self).wf(),
            final(self)@ == after_scan(old(self)@, extracted is Some),
            done.1@ == scan_events(old(self)@, extracted is Some),
            match done.0 {
                ScanStep::NotScanning => old(self)@.state != ScanState::Scanning,
                ScanStep::Complete { record } => old(self)@.state == ScanState::Scanning && old(
                    self,
                )@.to_process.len() == 0 && (record matches Some(text) ==> json_entries(text@)
                    == Some(old(self)@.record)),
                ScanStep::Processed { update } => old(self)@.state == ScanState::Scanning && old(
                    self,
                )@.to_process.len() > 0 && extracted is Some && update@ == begun(
                    extracted->0.deep_view(),
                    old(self)@.to_process.last(),
                ),
                ScanStep::Skipped { path } => old(self)@.state == ScanState::Scanning && old(
                    self,
                )@.to_process.len() > 0 && extracted is None && path@ == old(
                    self,
                )@.to_process.last(),
            },
    {
        let mut events: Vec<ScanEvent> = Vec::new();
        if self.scan_state != ScanState::Scanning {
            return (ScanStep::NotScanning, events);
        }
        assert(self.to_process.deep_view().len() == self.to_process@.len());
        let path = match pop_path(&mut self.to_process) {
            None => {
                let record = self.scan_record.to_json();
                self.scan_state = ScanState::Idle;
                events.push(ScanEvent::ScanCompleteIdle);
                return (ScanStep::Complete { record }, events);
            },
            Some(path) => path,
        };
        match extracted {
            Some(info) => {
                let update = UpdateMetadata::begin(info, path);
                self.scanned = self.scanned + 1;
                if self.scanned % SCAN_PROGRESS_STEP == 0 {
                    events.push(
                        ScanEvent::ScanProgress {
                            current: self.scanned,
                            total: self.discovered_total,
                        },
                    );
                }
                (ScanStep::Processed { update }, events)
            },
            None => (ScanStep::Skipped { path }, events),
        }
    }
}

/// The caller's side of the engine: the commands it has given and not yet
/// handed to the worker, and the events that wait for the broadcast.
pub struct ScanInterface {
    events_rx: Option<Vec<ScanEvent>>,
    command_tx: Vec<ScanCommand>,
}

/// Mathematical value of a [`ScanInterface`].
pub struct ScanInterfaceView {
    /// The events that wait, oldest first; `None` once the broadcast has
    /// taken the receiving end.
    pub events: Option<Seq<ScanEvent>>,
    /// The commands that wait, oldest first.
    pub commands: Seq<ScanCommand>,
}

impl View for ScanInterface {
    type V = ScanInterfaceView;

    closed spec fn view(&self) -> ScanInterfaceView {
        ScanInterfaceView { events: waiting(self.events_rx), commands: self.command_tx@ }
    }
}

/// The events held by a receiving end, oldest first.
pub open spec fn waiting(events_rx: Option<Vec<ScanEvent>>) -> Option<Seq<ScanEvent>> {
    match events_rx {
        Some(events) => Some(events@),
        None => None,
    }
}

impl ScanInterface {
    /// An interface with these events and commands waiting.
    pub fn new(events_rx: Option<Vec<ScanEvent>>, command_tx: Vec<ScanCommand>) -> (interface: Self)
        ensures
            interface@ == (ScanInterfaceView {
                events: waiting(events_rx),
                commands: command_tx@,
            }),
    {
        ScanInterface { events_rx, command_tx }
    }

    /// Asks for a scan.
    pub fn scan(&mut self)
        ensures
            final(self)@ == (ScanInterfaceView {
                commands: old(self)@.commands.push(ScanCommand::Scan),
                ..old(self)@
            }),
    {
        self.command_tx.push(ScanCommand::Scan);
    }

    /// Asks for the scan to stop.
    pub fn stop(&mut self)
        ensures
            final(self)@ == (ScanInterfaceView {
                commands: old(self)@.commands.push(ScanCommand::Stop),
                ..old(self)@
            }),
    {
        self.command_tx.push(ScanCommand::Stop);
    }

    /// Hands the waiting commands over, oldest first; none wait afterwards.
    pub fn take_commands(&mut self) -> (commands: Vec<ScanCommand>)
        ensures
            commands@ == old(self)@.commands,
            final(self)@ == (ScanInterfaceView { commands: Seq::empty(), ..old(self)@ }),
    {
        let mut commands: Vec<ScanCommand> = Vec::new();
        commands.append(&mut self.command_tx);
        commands
    }

    /// Hands the receiving end to the broadcast: the events that wait,
    /// oldest first. This happens once; afterwards the interface has no
    /// receiving end and the answer is `None`.
    pub fn start_broadcast(&mut self) -> (events: Option<Vec<ScanEvent>>)
        ensures
            waiting(events) == old(self)@.events,
            final(self)@ == (ScanInterfaceView { events: None, ..old(self)@ }),
    {
        self.events_rx.take()
    }
}

/// The scan state that the broadcast shows after `events` arrived, where it
/// showed `shown` before: each event replaces the one before it, so the last
/// one stays.
pub fn republish(shown: ScanEvent, events: &Vec<ScanEvent>) -> (now: ScanEvent)
    ensures
        now == if events@.len() == 0 {
            shown
        } else {
            events@.last()
        },
{
    let n = events.len();
    if n == 0 {
        shown
    } else {
        events[n - 1]
    }
}

} // verus!
