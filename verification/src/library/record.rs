//! The scan record: for every file that a scan took up, the modification time
//! it had then. A later scan skips the files whose time is still the same.
//!
//! The record lives in an `ahash::AHashMap`. Verus does not look inside that
//! map: the functions of this module that touch it state what the map's own
//! methods do, and everything else is proved from those statements.

use ahash::AHashMap;
use vstd::prelude::*;

verus! {

/// `ahash::RandomState`, the hasher state of the map. Nothing is known of it.
#[verifier::external_type_specification]
#[verifier::external_body]
pub struct ExRandomState(ahash::RandomState);

/// `ahash::AHashMap`. What a table of it holds is [`table_entries`].
#[verifier::external_type_specification]
#[verifier::external_body]
#[verifier::reject_recursive_types(K)]
#[verifier::reject_recursive_types(V)]
#[verifier::reject_recursive_types(S)]
pub struct ExAHashMap<K, V, S>(AHashMap<K, V, S>);

/// The entries of a table: each recorded path with its timestamp.
pub uninterp spec fn table_entries(table: AHashMap<String, u64>) -> Map<Seq<char>, u64>;

/// The entries that `serde_json::from_str` reads out of `text` as a table of
/// paths and timestamps, or `None` where it rejects the text.
pub uninterp spec fn json_entries(text: Seq<char>) -> Option<Map<Seq<char>, u64>>;

/// The record that holds nothing.
pub open spec fn no_entries() -> Map<Seq<char>, u64> {
    Map::empty()
}

/// Whether `record` holds exactly the time `observed` for `path`. A file is
/// unchanged only if it has an entry and the stored time is the same: any
/// other time, earlier or later, counts as a change.
pub open spec fn unchanged(record: Map<Seq<char>, u64>, path: Seq<char>, observed: u64) -> bool {
    record.contains_key(path) && record[path] == observed
}

/// `AHashMap::new`: a table without entries.
#[verifier::external_body]
fn table_new() -> (table: AHashMap<String, u64>)
    ensures
        table_entries(table) == no_entries(),
{
    AHashMap::new()
}

/// `AHashMap::get`: the timestamp stored under `path`, if there is one.
#[verifier::external_body]
fn table_get(table: &AHashMap<String, u64>, path: &String) -> (stamp: Option<u64>)
    ensures
        stamp == if table_entries(*table).contains_key(path@) {
            Some(table_entries(*table)[path@])
        } else {
            None
        },
{
    table.get(path).copied()
}

/// `AHashMap::insert`: afterwards `path` maps to `stamp` and every other
/// entry is as before.
#[verifier::external_body]
fn table_insert(table: &mut AHashMap<String, u64>, path: String, stamp: u64)
    ensures
        table_entries(*final(table)) == table_entries(*old(table)).insert(path@, stamp),
{
    table.insert(path, stamp);
}

/// `AHashMap::remove`: afterwards `path` has no entry and every other entry
/// is as before. Returns whether there was an entry.
#[verifier::external_body]
fn table_remove(table: &mut AHashMap<String, u64>, path: &String) -> (present: bool)
    ensures
        table_entries(*final(table)) == table_entries(*old(table)).remove(path@),
        present == table_entries(*old(table)).contains_key(path@),
{
    table.remove(path).is_some()
}

/// The keys of the table, through `HashMap::keys` of the standard map that
/// an `AHashMap` wraps: every recorded path once, in an order that the map
/// does not fix.
#[verifier::external_body]
fn table_keys(table: &AHashMap<String, u64>) -> (paths: Vec<String>)
    ensures
        paths.deep_view().no_duplicates(),
        paths.deep_view().to_set() == table_entries(*table).dom(),
{
    table.keys().cloned().collect()
}

/// `serde_json::from_str` for a table: the table it reads out of `text`, or
/// `None` where it rejects the text.
#[verifier::external_body]
fn table_from_json(text: &str) -> (table: Option<AHashMap<String, u64>>)
    ensures
        table is Some == json_entries(text@) is Some,
        table matches Some(t) ==> Some(table_entries(t)) == json_entries(text@),
{
    serde_json::from_str(text).ok()
}

/// `serde_json::to_string` for a table; `None` where it fails. The order of
/// the entries in the text is the order in which the map is walked, which
/// changes from process to process, so nothing is claimed of the text.
#[verifier::external_body]
fn table_to_json(table: &AHashMap<String, u64>) -> (text: Option<String>) {
    serde_json::to_string(table).ok()
}

/// Path → last observed modification time, in seconds since the Unix epoch.
pub struct ScanRecord {
    table: AHashMap<String, u64>,
}

impl View for ScanRecord {
    type V = Map<Seq<char>, u64>;

    closed spec fn view(&self) -> Map<Seq<char>, u64> {
        table_entries(self.table)
    }
}

impl ScanRecord {
    /// The empty record: nothing is recognised as unchanged.
    pub fn new() -> (record: Self)
        ensures
            record@ == no_entries(),
    {
        ScanRecord { table: table_new() }
    }

    /// The record stored in `text`, which is JSON as [`ScanRecord::to_json`]
    /// writes it. `None` where the text is not such a record.
    pub fn from_json(text: &str) -> (record: Option<Self>)
        ensures
            record is Some == json_entries(text@) is Some,
            record matches Some(r) ==> Some(r@) == json_entries(text@),
    {
        match table_from_json(text) {
            Some(table) => Some(ScanRecord { table }),
            None => None,
        }
    }

    /// The record stored in `text`, or the empty record where the text is
    /// missing or is not a record: a scan then goes on, only slower.
    pub fn load(text: Option<&str>) -> (record: Self)
        ensures
            record@ == loaded_entries(text),
    {
        match text {
            Some(t) => match ScanRecord::from_json(t) {
                Some(record) => record,
                None => ScanRecord::new(),
            },
            None => ScanRecord::new(),
        }
    }

    /// The record as JSON text, for the host to store; `None` where the
    /// encoder fails or its text does not read back as this record.
    pub fn to_json(&self) -> (text: Option<String>)
        ensures
            text matches Some(t) ==> json_entries(t@) == Some(self@),
    {
        self.accept_text(table_to_json(&self.table))
    }

    /// Lets an encoded text pass if it reads back as this record, entry for
    /// entry, and holds it back otherwise. The encoder writes the entries in
    /// the order in which the map is walked, so the text is not known before
    /// it is there; what is known of a text that passed is what reading it
    /// gives.
    pub fn accept_text(&self, text: Option<String>) -> (accepted: Option<String>)
        ensures
            accepted == if text is Some && json_entries(text->0@) == Some(self@) {
                text
            } else {
                None
            },
    {
        match text {
            Some(written) => {
                let same = match ScanRecord::from_json(written.as_str()) {
                    Some(back) => self.holds_same(&back),
                    None => false,
                };
                if same {
                    Some(written)
                } else {
                    None
                }
            },
            None => None,
        }
    }

    /// Whether two records hold the same entries.
    pub fn holds_same(&self, other: &ScanRecord) -> (same: bool)
        ensures
            same == (self@ == other@),
    {
        let same = table_holds_all(&self.table, &other.table) && table_holds_all(
            &other.table,
            &self.table,
        );
        proof {
            if same {
                assert(self@ =~= other@);
            }
        }
        same
    }

    /// The time recorded for `path`.
    pub fn get(&self, path: &String) -> (stamp: Option<u64>)
        ensures
            stamp == if self@.contains_key(path@) {
                Some(self@[path@])
            } else {
                None
            },
    {
        table_get(&self.table, path)
    }

    /// True iff `path` has an entry and its time equals `observed` exactly.
    pub fn is_unchanged(&self, path: &String, observed: u64) -> (same: bool)
        ensures
            same == unchanged(self@, path@, observed),
    {
        match table_get(&self.table, path) {
            Some(stamp) => stamp == observed,
            None => false,
        }
    }

    /// Records `observed` for `path`, over whatever was recorded before.
    pub fn insert(&mut self, path: String, observed: u64)
        ensures
            final(self)@ == old(self)@.insert(path@, observed),
    {
        table_insert(&mut self.table, path, observed);
    }

    /// Drops the entry of `path`. Returns whether there was one.
    pub fn remove(&mut self, path: &String) -> (present: bool)
        ensures
            final(self)@ == old(self)@.remove(path@),
            present == old(self)@.contains_key(path@),
    {
        table_remove(&mut self.table, path)
    }

    /// Every recorded path, once each, in no particular order.
    pub fn paths(&self) -> (paths: Vec<String>)
        ensures
            paths.deep_view().no_duplicates(),
            paths.deep_view().to_set() == self@.dom(),
    {
        table_keys(&self.table)
    }
}

/// What [`ScanRecord::load`] makes of a stored text.
pub open spec fn loaded_entries(text: Option<&str>) -> Map<Seq<char>, u64> {
    match text {
        Some(t) => match json_entries(t@) {
            Some(entries) => entries,
            None => no_entries(),
        },
        None => no_entries(),
    }
}

/// Whether every entry of `part` is an entry of `whole`, with the same time.
pub open spec fn holds_all(part: Map<Seq<char>, u64>, whole: Map<Seq<char>, u64>) -> bool {
    forall|path: Seq<char>| #[trigger]
        part.contains_key(path) ==> whole.contains_key(path) && whole[path] == part[path]
}

/// Whether every entry of `part` is an entry of `whole`.
fn table_holds_all(part: &AHashMap<String, u64>, whole: &AHashMap<String, u64>) -> (all: bool)
    ensures
        all == holds_all(table_entries(*part), table_entries(*whole)),
{
    let paths = table_keys(part);
    let mut i: usize = 0;
    while i < paths.len()
        invariant
            i <= paths.len(),
            paths.deep_view().to_set() == table_entries(*part).dom(),
            forall|k: int|
                0 <= k < i ==> table_entries(*whole).contains_key(#[trigger] paths.deep_view()[k])
                    && table_entries(*whole)[paths.deep_view()[k]] == table_entries(
                    *part,
                )[paths.deep_view()[k]],
        decreases paths.len() - i,
    {
        let ghost path = paths.deep_view()[i as int];
        assert(path == paths@[i as int]@);
        assert(paths.deep_view().to_set().contains(path));
        let here = table_get(part, &paths[i]);
        let there = table_get(whole, &paths[i]);
        let agree = match (here, there) {
            (Some(a), Some(b)) => a == b,
            _ => false,
        };
        if !agree {
            assert(table_entries(*part).contains_key(path));
            return false;
        }
        i += 1;
    }
    assert forall|path: Seq<char>| #[trigger]
        table_entries(*part).contains_key(path) implies table_entries(*whole).contains_key(path)
        && table_entries(*whole)[path] == table_entries(*part)[path] by {
        assert(paths.deep_view().to_set().contains(path));
        let k = choose|k: int| 0 <= k < paths.deep_view().len() && paths.deep_view()[k] == path;
        assert(table_entries(*whole).contains_key(paths.deep_view()[k]));
    }
    true
}

} // verus!
