pub mod extract;
pub mod laws;
pub mod path;
pub mod queue;
pub mod record;
pub mod scan;
pub mod sync;
