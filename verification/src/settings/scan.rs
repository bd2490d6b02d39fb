//! Settings of the library scan.

use vstd::prelude::*;

verus! {

/// What to scan: the root directories, in the order in which they were
/// configured. The scan takes them as they are and does not check them.
#[derive(Debug, Clone, PartialEq, Eq)]
pub struct ScanSettings {
    pub paths: Vec<String>,
}

impl Default for ScanSettings {
    fn default() -> (settings: Self)
        ensures
            settings.paths@.len() == 0,
    {
        ScanSettings { paths: Vec::new() }
    }
}

} // verus!
