//! What holds of the engine over whole runs, proved from its steps.

pub mod progress;
pub mod protocol;
pub mod runs;
pub mod skipping;
pub mod traversal;
