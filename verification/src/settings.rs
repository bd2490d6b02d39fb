//! Application settings, as far as the library reads them.

use vstd::prelude::*;

pub mod scan;

verus! {

#[derive(Debug, Clone, PartialEq, Eq)]
pub struct Settings {
    pub scanning: scan::ScanSettings,
}

impl Default for Settings {
    fn default() -> (settings: Self)
        ensures
            settings.scanning.paths@.len() == 0,
    {
        Settings { scanning: scan::ScanSettings::default() }
    }
}

} // verus!
