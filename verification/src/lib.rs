//! Verified core of a music library: the scan engine that discovers audio
//! files, skips the ones that did not change, extracts their tags and keeps a
//! track store in step with them, together with the message types through
//! which the rest of a player talks to its workers.
//!
//! The engine performs no I/O. Every interaction with the file system, a
//! decoder or the track store is a value handed in by the host or a request
//! handed back to it, so each step is a function whose contract states the
//! next state exactly.

pub mod data;
pub mod devices;
pub mod library;
pub mod media;
pub mod playback;
pub mod settings;
