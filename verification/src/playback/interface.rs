//! The caller's side of the playback worker.
//!
//! A command given here waits, in the order of giving, until the host hands
//! it to the worker. The events of the worker wait likewise until the
//! broadcast takes them.

use crate::playback::events::{PlaybackCommand, PlaybackCommandView, PlaybackEvent, PlaybackEventView};
use vstd::prelude::*;

verus! {

/// How an interface to the playback worker is made of the two ends that it
/// holds.
pub trait PlaybackInterface: Sized {
    fn new(commands_tx: Vec<PlaybackCommand>, events_rx: Vec<PlaybackEvent>) -> Self;
}

/// The interface to the playback worker.
pub struct GPUIPlaybackInterface {
    commands_tx: Vec<PlaybackCommand>,
    events_rx: Option<Vec<PlaybackEvent>>,
}

/// Mathematical value of a [`GPUIPlaybackInterface`].
pub struct PlaybackInterfaceView {
    /// The commands that wait, oldest first.
    pub commands: Seq<PlaybackCommandView>,
    /// The events that wait, oldest first; `None` once the broadcast has
    /// taken the receiving end.
    pub events: Option<Seq<PlaybackEventView>>,
}

impl View for GPUIPlaybackInterface {
    type V = PlaybackInterfaceView;

    closed spec fn view(&self) -> PlaybackInterfaceView {
        PlaybackInterfaceView {
            commands: self.commands_tx.deep_view(),
            events: self.events_rx.deep_view(),
        }
    }
}

impl PlaybackInterface for GPUIPlaybackInterface {
    fn new(commands_tx: Vec<PlaybackCommand>, events_rx: Vec<PlaybackEvent>) -> (interface: Self)
        ensures
            interface@ == (PlaybackInterfaceView {
                commands: commands_tx.deep_view(),
                events: Some(events_rx.deep_view()),
            }),
    {
        GPUIPlaybackInterface { commands_tx, events_rx: Some(events_rx) }
    }
}

impl GPUIPlaybackInterface {
    /// Whether `command` was put behind the commands that waited, and
    /// nothing else changed.
    pub open spec fn sent(
        before: PlaybackInterfaceView,
        after: PlaybackInterfaceView,
        command: PlaybackCommandView,
    ) -> bool {
        after == (PlaybackInterfaceView { commands: before.commands.push(command), ..before })
    }

    fn send(&mut self, command: PlaybackCommand)
        ensures
            Self::sent(old(self)@, final(self)@, command@),
    {
        let ghost before = self.commands_tx.deep_view();
        self.commands_tx.push(command);
        assert(self.commands_tx.deep_view() =~= before.push(command@));
    }

    pub fn play(&mut self)
        ensures
            Self::sent(old(self)@, final(self)@, PlaybackCommandView::Play),
    {
        self.send(PlaybackCommand::Play);
    }

    pub fn pause(&mut self)
        ensures
            Self::sent(old(self)@, final(self)@, PlaybackCommandView::Pause),
    {
        self.send(PlaybackCommand::Pause);
    }

    pub fn open(&mut self, path: &str)
        ensures
            Self::sent(old(self)@, final(self)@, PlaybackCommandView::Open(path@)),
    {
        self.send(PlaybackCommand::Open(path.to_owned()));
    }

    pub fn queue(&mut self, path: &str)
        ensures
            Self::sent(old(self)@, final(self)@, PlaybackCommandView::Queue(path@)),
    {
        self.send(PlaybackCommand::Queue(path.to_owned()));
    }

    pub fn queue_list(&mut self, paths: Vec<String>)
        ensures
            Self::sent(old(self)@, final(self)@, PlaybackCommandView::QueueList(paths.deep_view())),
    {
        self.send(PlaybackCommand::QueueList(paths));
    }

    pub fn next(&mut self)
        ensures
            Self::sent(old(self)@, final(self)@, PlaybackCommandView::Next),
    {
        self.send(PlaybackCommand::Next);
    }

    pub fn previous(&mut self)
        ensures
            Self::sent(old(self)@, final(self)@, PlaybackCommandView::Previous),
    {
        self.send(PlaybackCommand::Previous);
    }

    pub fn clear_queue(&mut self)
        ensures
            Self::sent(old(self)@, final(self)@, PlaybackCommandView::ClearQueue),
    {
        self.send(PlaybackCommand::ClearQueue);
    }

    pub fn jump(&mut self, index: usize)
        ensures
            Self::sent(old(self)@, final(self)@, PlaybackCommandView::Jump(index)),
    {
        self.send(PlaybackCommand::Jump(index));
    }

    pub fn set_volume(&mut self, volume: u8)
        ensures
            Self::sent(old(self)@, final(self)@, PlaybackCommandView::SetVolume(volume)),
    {
        self.send(PlaybackCommand::SetVolume(volume));
    }

    /// Hands the waiting commands over, oldest first; none wait afterwards.
    pub fn take_commands(&mut self) -> (commands: Vec<PlaybackCommand>)
        ensures
            commands.deep_view() == old(self)@.commands,
            final(self)@ == (PlaybackInterfaceView { commands: Seq::empty(), ..old(self)@ }),
    {
        let mut commands: Vec<PlaybackCommand> = Vec::new();
        let ghost before = self.commands_tx.deep_view();
        commands.append(&mut self.commands_tx);
        proof {
            assert(commands.deep_view() =~= before);
            assert(self.commands_tx.deep_view() =~= Seq::<PlaybackCommandView>::empty());
        }
        commands
    }

    /// Whether the broadcast has not been started yet.
    pub fn can_broadcast(&self) -> (can: bool)
        ensures
            can == self@.events is Some,
    {
        self.events_rx.is_some()
    }

    /// Hands the receiving end to the broadcast: the events that wait,
    /// oldest first. It can be handed over once only.
    pub fn start_broadcast(&mut self) -> (events: Vec<PlaybackEvent>)
        requires
            old(self)@.events is Some,
        ensures
            Some(events.deep_view()) == old(self)@.events,
            final(self)@ == (PlaybackInterfaceView { events: None, ..old(self)@ }),
    {
        let events = self.events_rx.take();
        events.unwrap()
    }
}

} // verus!
