//! What the transport controller and the audio sink say to each other.
//!
//! The sink itself, the stream that produces sound, lives outside this
//! library. The library decides which command the sink has to carry out; the
//! caller carries it out and reports how it went.

use vstd::prelude::*;
use crate::song::{Song, SongView};

verus! {

/// Whether sound is meant to come out.
#[derive(Debug, Clone, Copy, PartialEq, Eq, Structural)]
pub enum PlaybackMode {
    Playing,
    Paused,
}

/// What the sink reports of itself.
#[derive(Debug, Clone, Copy, PartialEq, Eq, Structural)]
pub enum SinkState {
    /// No track is loaded.
    Idle,
    /// A track is loaded and sounding.
    Playing,
    /// A track is loaded and halted.
    Paused,
}

/// Why the sink could not do what it was told.
#[derive(Debug, Clone, Copy, PartialEq, Eq, Structural)]
pub enum SinkFailure {
    DeviceUnavailable,
    DecodeFailure,
    FileNotFound,
}

/// One thing for the sink to do.
#[derive(Debug, PartialEq, Eq)]
pub enum SinkCommand {
    /// Drop what is loaded, load this song's file and start playing it.
    LoadAndPlay(Song),
    /// Halt the loaded track where it is.
    Pause,
    /// Go on with the loaded track.
    Resume,
    /// Drop what is loaded and what is pending.
    Stop,
    /// Set the volume, in thousandths of full volume.
    SetVolume(u32),
    /// Set the speed, in thousandths of normal speed.
    SetSpeed(u32),
}

/// A [`SinkCommand`] in contracts.
pub enum SinkCommandView {
    LoadAndPlay(SongView),
    Pause,
    Resume,
    Stop,
    SetVolume(nat),
    SetSpeed(nat),
}

impl View for SinkCommand {
    type V = SinkCommandView;

    open spec fn view(&self) -> SinkCommandView {
        match *self {
            SinkCommand::LoadAndPlay(song) => SinkCommandView::LoadAndPlay(song@),
            SinkCommand::Pause => SinkCommandView::Pause,
            SinkCommand::Resume => SinkCommandView::Resume,
            SinkCommand::Stop => SinkCommandView::Stop,
            SinkCommand::SetVolume(v) => SinkCommandView::SetVolume(v as nat),
            SinkCommand::SetSpeed(v) => SinkCommandView::SetSpeed(v as nat),
        }
    }
}

/// A failure of the sink, with the song that it was working on.
#[derive(Debug, PartialEq, Eq)]
pub struct PlaybackError {
    pub song: Song,
    pub cause: SinkFailure,
}

/// A [`PlaybackError`] in contracts.
pub struct PlaybackErrorView {
    pub song: SongView,
    pub cause: SinkFailure,
}

impl View for PlaybackError {
    type V = PlaybackErrorView;

    open spec fn view(&self) -> PlaybackErrorView {
        PlaybackErrorView { song: self.song@, cause: self.cause }
    }
}

/// The state of a sink, from the two things it can be asked: whether it has
/// run out of audio, and whether it is halted. A sink without audio is idle
/// whatever its halt flag says.
pub open spec fn sink_state_of(empty: bool, paused: bool) -> SinkState {
    if empty {
        SinkState::Idle
    } else if paused {
        SinkState::Paused
    } else {
        SinkState::Playing
    }
}

impl SinkState {
    /// Reads the state off the sink's two flags.
    pub fn from_flags(empty: bool, paused: bool) -> (state: SinkState)
        ensures
            state == sink_state_of(empty, paused),
    {
        if empty {
            SinkState::Idle
        } else if paused {
            SinkState::Paused
        } else {
            SinkState::Playing
        }
    }
}

/// The plain toggle of a sink that has no queue behind it: a halted sink goes
/// on, any other is halted.
pub fn play(paused: bool) -> (command: SinkCommand)
    ensures
        command@ == if paused {
            SinkCommandView::Resume
        } else {
            SinkCommandView::Pause
        },
{
    if paused {
        SinkCommand::Resume
    } else {
        SinkCommand::Pause
    }
}

} // verus!
