//! Messages between a caller and the playback worker.

use crate::media::metadata::{Metadata, MetadataView};
use vstd::prelude::*;

verus! {

/// What a caller can ask of the playback worker.
#[derive(Debug, Clone, PartialEq, Eq)]
pub enum PlaybackCommand {
    Play,
    Pause,
    /// Play the file at this path now.
    Open(String),
    /// Put the file at this path at the end of the queue.
    Queue(String),
    /// Put the files at these paths at the end of the queue, in order.
    QueueList(Vec<String>),
    Next,
    Previous,
    ClearQueue,
    /// Play the queue entry of this index.
    Jump(usize),
    /// Set the volume, on the scale from 0 to 255.
    SetVolume(u8),
}

/// Mathematical value of a [`PlaybackCommand`].
pub enum PlaybackCommandView {
    Play,
    Pause,
    Open(Seq<char>),
    Queue(Seq<char>),
    QueueList(Seq<Seq<char>>),
    Next,
    Previous,
    ClearQueue,
    Jump(usize),
    SetVolume(u8),
}

impl View for PlaybackCommand {
    type V = PlaybackCommandView;

    open spec fn view(&self) -> PlaybackCommandView {
        match self {
            PlaybackCommand::Play => PlaybackCommandView::Play,
            PlaybackCommand::Pause => PlaybackCommandView::Pause,
            PlaybackCommand::Open(path) => PlaybackCommandView::Open(path@),
            PlaybackCommand::Queue(path) => PlaybackCommandView::Queue(path@),
            PlaybackCommand::QueueList(paths) => PlaybackCommandView::QueueList(paths.deep_view()),
            PlaybackCommand::Next => PlaybackCommandView::Next,
            PlaybackCommand::Previous => PlaybackCommandView::Previous,
            PlaybackCommand::ClearQueue => PlaybackCommandView::ClearQueue,
            PlaybackCommand::Jump(index) => PlaybackCommandView::Jump(*index),
            PlaybackCommand::SetVolume(volume) => PlaybackCommandView::SetVolume(*volume),
        }
    }
}

impl DeepView for PlaybackCommand {
    type V = PlaybackCommandView;

    open spec fn deep_view(&self) -> PlaybackCommandView {
        self@
    }
}

/// What the playback worker reports, as far as the interface acts on it.
#[derive(Debug, Clone, PartialEq, Eq)]
pub enum PlaybackEvent {
    /// The tags of the file that is playing.
    MetadataUpdate(Metadata),
    /// The artwork of the file that is playing, as decoded RGBA pixels, row
    /// by row.
    AlbumArtUpdate { width: u32, height: u32, pixels: Vec<u8> },
}

/// Mathematical value of a [`PlaybackEvent`].
pub enum PlaybackEventView {
    MetadataUpdate(MetadataView),
    AlbumArtUpdate { width: u32, height: u32, pixels: Seq<u8> },
}

impl View for PlaybackEvent {
    type V = PlaybackEventView;

    open spec fn view(&self) -> PlaybackEventView {
        match self {
            PlaybackEvent::MetadataUpdate(metadata) => PlaybackEventView::MetadataUpdate(metadata@),
            PlaybackEvent::AlbumArtUpdate { width, height, pixels } => {
                PlaybackEventView::AlbumArtUpdate { width: *width, height: *height, pixels: pixels@ }
            },
        }
    }
}

impl DeepView for PlaybackEvent {
    type V = PlaybackEventView;

    open spec fn deep_view(&self) -> PlaybackEventView {
        self@
    }
}

} // verus!
