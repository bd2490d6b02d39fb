//! Messages understood by the data-processing worker.

use vstd::prelude::*;

verus! {

/// Which image a decode request is about.
#[derive(Debug, PartialEq, Eq, Structural, Clone, Copy)]
pub enum ImageType {
    CurrentAlbumArt,
    CachedImage(u64),
}

/// Channel order of the pixels that the requester wants back.
#[derive(Debug, PartialEq, Eq, Structural, Clone, Copy)]
pub enum ImageLayout {
    BGR,
    RGB,
}

/// A command to the data worker, processed in the order of arrival.
#[derive(Debug, PartialEq, Clone)]
pub enum DataCommand {
    /// Decode the given encoded image; the type says which image it is and the
    /// layout whether the channels have to be swapped afterwards.
    DecodeImage(Vec<u8>, ImageType, ImageLayout),
    /// Read the tags of the given files, for display in the queue.
    ReadQueueMetadata(Vec<String>),
    /// Drop cached queue entries that are no longer needed.
    EvictQueueCache,
}

} // verus!
