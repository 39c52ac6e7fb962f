//! The transport controller: a queue bound to one audio sink.
//!
//! The controller owns the queue and remembers what it last told the sink. It
//! never touches the sink itself: each transport method returns the one
//! command that the sink has to carry out, and the caller reports a failure of
//! the sink back with [`Player::playback_failed`].

use vstd::prelude::*;
use crate::queue::{Queue, QueueError, QueueTools, QueueView};
use crate::sink::{
    PlaybackError, PlaybackMode, SinkCommand, SinkCommandView, SinkFailure, SinkState,
};
use crate::song::{Song, SongView};

verus! {

/// Full volume, in thousandths.
pub const FULL_VOLUME: u32 = 1000;

/// Normal speed, in thousandths.
pub const NORMAL_SPEED: u32 = 1000;

/// The controller as contracts see it.
pub struct PlayerView {
    /// The queue.
    pub queue: QueueView,
    /// What the sink was last told to be: playing or paused.
    pub mode: PlaybackMode,
    /// The song whose audio the sink was last told to load, if any.
    pub loaded: Option<SongView>,
    /// The volume last set, in thousandths of full volume.
    pub volume: nat,
    /// The speed last set, in thousandths of normal speed.
    pub speed: nat,
}

impl PlayerView {
    /// A controller before its first command: empty queue, paused, nothing
    /// loaded, full volume, normal speed.
    pub open spec fn initial() -> PlayerView {
        PlayerView {
            queue: QueueView::empty(),
            mode: PlaybackMode::Paused,
            loaded: None,
            volume: 1000,
            speed: 1000,
        }
    }

    /// The queue is well formed, nothing plays unless something was loaded,
    /// the volume is at most full and the speed is positive.
    pub open spec fn well_formed(self) -> bool {
        &&& self.queue.well_formed()
        &&& self.mode == PlaybackMode::Playing ==> self.loaded is Some
        &&& self.volume <= 1000
        &&& self.speed > 0
    }

    /// The song that the sink was told to load is the one under the cursor.
    pub open spec fn holds_current(self) -> bool {
        self.loaded is Some && self.loaded == self.queue.current()
    }

    /// The sink has a track, and it is the current song: toggling is enough.
    pub open spec fn can_toggle(self, sink: SinkState) -> bool {
        sink != SinkState::Idle && self.holds_current()
    }

    /// The command that `play` gives: a sink that holds the current song is
    /// toggled; any other sink gets the current song loaded; with no current
    /// song there is no command.
    pub open spec fn play_command(self, sink: SinkState) -> Option<SinkCommandView> {
        if self.can_toggle(sink) {
            if sink == SinkState::Paused {
                Some(SinkCommandView::Resume)
            } else {
                Some(SinkCommandView::Pause)
            }
        } else {
            match self.queue.current() {
                Some(song) => Some(SinkCommandView::LoadAndPlay(song)),
                None => None,
            }
        }
    }

    /// The controller after `play`.
    pub open spec fn after_play(self, sink: SinkState) -> PlayerView {
        if self.can_toggle(sink) {
            if sink == SinkState::Paused {
                PlayerView { mode: PlaybackMode::Playing, ..self }
            } else {
                PlayerView { mode: PlaybackMode::Paused, ..self }
            }
        } else {
            match self.queue.current() {
                Some(song) => PlayerView {
                    mode: PlaybackMode::Playing,
                    loaded: Some(song),
                    ..self
                },
                None => self,
            }
        }
    }

    /// The controller after the sink failed: paused, nothing loaded, and the
    /// queue with its cursor as before.
    pub open spec fn after_failure(self) -> PlayerView {
        PlayerView { mode: PlaybackMode::Paused, loaded: None, ..self }
    }

    /// The controller after `clear`: empty queue, paused, nothing loaded.
    pub open spec fn cleared(self) -> PlayerView {
        PlayerView {
            queue: QueueView::empty(),
            mode: PlaybackMode::Paused,
            loaded: None,
            ..self
        }
    }

    /// The controller with its speed set to `thousandths`; speed zero is not
    /// taken and leaves it as it is.
    pub open spec fn with_speed(self, thousandths: nat) -> PlayerView {
        if thousandths == 0 {
            self
        } else {
            PlayerView { speed: thousandths, ..self }
        }
    }

    /// A volume brought into range: at most full volume.
    pub open spec fn clamp_volume(thousandths: nat) -> nat {
        if thousandths > 1000 {
            1000
        } else {
            thousandths
        }
    }
}

/// The transport controller.
#[derive(Debug)]
pub struct Player {
    pub queue: Queue,
    pub mode: PlaybackMode,
    pub loaded: Option<Song>,
    pub volume: u32,
    pub speed: u32,
}

impl View for Player {
    type V = PlayerView;

    open spec fn view(&self) -> PlayerView {
        PlayerView {
            queue: self.queue@,
            mode: self.mode,
            loaded: match self.loaded {
                Some(song) => Some(song@),
                None => None,
            },
            volume: self.volume as nat,
            speed: self.speed as nat,
        }
    }
}

impl Player {
    /// A controller with an empty queue, paused, with nothing loaded.
    pub fn new() -> (fresh: Player)
        ensures
            fresh@ == PlayerView::initial(),
            fresh@.well_formed(),
    {
        Player {
            queue: Queue::new(),
            mode: PlaybackMode::Paused,
            loaded: None,
            volume: FULL_VOLUME,
            speed: NORMAL_SPEED,
        }
    }

    /// Appends `song` to the queue. The sink is not concerned.
    pub fn queue(&mut self, song: Song)
        ensures
            old(self)@.well_formed() ==> final(self)@.well_formed(),
            final(self)@ == (PlayerView { queue: old(self)@.queue.enqueue(song@), ..old(self)@ }),
    {
        self.queue.queue(song);
    }

    /// The song under the cursor; `EmptyQueue` where there is none, which
    /// for a well-formed queue means that it is empty. Nothing changes.
    pub fn current(&mut self) -> (found: Result<Song, QueueError>)
        ensures
            final(self)@ == old(self)@,
            match found {
                Ok(song) => old(self)@.queue.current() == Some(song@),
                Err(e) => e == QueueError::EmptyQueue && old(self)@.queue.current() is None,
            },
    {
        self.queue.current()
    }

    /// Moves the cursor to `place`, or returns `OutOfRange` and changes
    /// nothing. The sink goes on with what it has: the song under the new
    /// cursor is loaded by the next `play`.
    pub fn to_place(&mut self, place: usize) -> (moved: Result<(), QueueError>)
        ensures
            old(self)@.well_formed() ==> final(self)@.well_formed(),
            final(self)@ == (PlayerView {
                queue: old(self)@.queue.advance_to(place as int),
                ..old(self)@
            }),
            moved is Ok <==> place < old(self)@.queue.items.len(),
            moved is Err ==> moved == Err::<(), QueueError>(QueueError::OutOfRange),
    {
        self.queue.to_place(place)
    }

    /// Moves the cursor one song back; on the first song it stays.
    pub fn previous(&mut self)
        ensures
            old(self)@.well_formed() ==> final(self)@.well_formed(),
            final(self)@ == (PlayerView { queue: old(self)@.queue.previous(), ..old(self)@ }),
    {
        self.queue.previous();
    }

    /// Moves the cursor one song on; on the last song it stays.
    pub fn next(&mut self)
        ensures
            old(self)@.well_formed() ==> final(self)@.well_formed(),
            final(self)@ == (PlayerView { queue: old(self)@.queue.next(), ..old(self)@ }),
    {
        self.queue.next();
    }

    /// Empties the queue and returns the command that empties the sink.
    pub fn clear(&mut self) -> (command: SinkCommand)
        ensures
            final(self)@ == old(self)@.cleared(),
            command@ == SinkCommandView::Stop,
    {
        self.queue.clear();
        self.mode = PlaybackMode::Paused;
        self.loaded = None;
        SinkCommand::Stop
    }

    /// Toggles playback and returns the one command for the sink.
    ///
    /// `sink` is what the sink reports of itself. A sink that holds the
    /// current song is resumed if it is paused and paused if it is playing.
    /// Any other sink, an idle one or one that holds a song that the cursor
    /// has left, is told to load the current song and play it. With an empty
    /// queue that cannot be done: `EmptyQueue` is returned and nothing
    /// changes.
    pub fn play(&mut self, sink: SinkState) -> (command: Result<SinkCommand, QueueError>)
        ensures
            old(self)@.well_formed() ==> final(self)@.well_formed(),
            final(self)@ == old(self)@.after_play(sink),
            match command {
                Ok(c) => old(self)@.play_command(sink) == Some(c@),
                Err(e) => e == QueueError::EmptyQueue && old(self)@.play_command(sink) is None,
            },
    {
        let current = self.queue.current();
        let holds_current = match &current {
            Ok(song) => match &self.loaded {
                Some(loaded) => loaded == song,
                None => false,
            },
            Err(_) => false,
        };
        if holds_current && sink == SinkState::Paused {
            self.mode = PlaybackMode::Playing;
            Ok(SinkCommand::Resume)
        } else if holds_current && sink == SinkState::Playing {
            self.mode = PlaybackMode::Paused;
            Ok(SinkCommand::Pause)
        } else {
            match current {
                Ok(song) => {
                    self.loaded = Some(song.clone());
                    self.mode = PlaybackMode::Playing;
                    Ok(SinkCommand::LoadAndPlay(song))
                },
                Err(e) => Err(e),
            }
        }
    }

    /// Takes note that the sink failed at `cause`. The controller is paused
    /// and holds nothing loaded; the queue and its cursor stay, so the caller
    /// can try again. The error carries the song that the sink was told to
    /// load; where it was told none, there is no error to report.
    pub fn playback_failed(&mut self, cause: SinkFailure) -> (error: Option<PlaybackError>)
        ensures
            old(self)@.well_formed() ==> final(self)@.well_formed(),
            final(self)@ == old(self)@.after_failure(),
            match error {
                Some(e) => old(self)@.loaded == Some(e@.song) && e@.cause == cause,
                None => old(self)@.loaded is None,
            },
    {
        self.mode = PlaybackMode::Paused;
        let failed = self.loaded.take();
        match failed {
            Some(song) => Some(PlaybackError { song, cause }),
            None => None,
        }
    }

    /// Sets the volume, in thousandths of full volume. A value above full
    /// volume is brought down to it. Returns the command for the sink.
    pub fn set_volume(&mut self, thousandths: u32) -> (command: SinkCommand)
        ensures
            old(self)@.well_formed() ==> final(self)@.well_formed(),
            final(self)@ == (PlayerView {
                volume: PlayerView::clamp_volume(thousandths as nat),
                ..old(self)@
            }),
            command@ == SinkCommandView::SetVolume(PlayerView::clamp_volume(thousandths as nat)),
    {
        let volume = if thousandths > FULL_VOLUME {
            FULL_VOLUME
        } else {
            thousandths
        };
        self.volume = volume;
        SinkCommand::SetVolume(volume)
    }

    /// Sets the speed, in thousandths of normal speed. Speed zero is refused:
    /// nothing changes and there is no command for the sink.
    pub fn set_speed(&mut self, thousandths: u32) -> (command: Option<SinkCommand>)
        ensures
            old(self)@.well_formed() ==> final(self)@.well_formed(),
            final(self)@ == old(self)@.with_speed(thousandths as nat),
            match command {
                Some(c) => thousandths > 0 && c@ == SinkCommandView::SetSpeed(thousandths as nat),
                None => thousandths == 0,
            },
    {
        if thousandths == 0 {
            None
        } else {
            self.speed = thousandths;
            Some(SinkCommand::SetSpeed(thousandths))
        }
    }

    /// The volume last set, in thousandths of full volume.
    pub fn volume(&self) -> (thousandths: u32)
        ensures
            thousandths == self@.volume,
    {
        self.volume
    }

    /// The speed last set, in thousandths of normal speed.
    pub fn speed(&self) -> (thousandths: u32)
        ensures
            thousandths == self@.speed,
    {
        self.speed
    }
}


/// Playback never starts on a stale track: whenever `play` tells the sink to
/// resume or to load, the song that the sink then holds is the one under the
/// cursor, and the controller is playing.
pub proof fn lemma_play_starts_the_current_song(player: PlayerView, sink: SinkState)
    requires
        player.well_formed(),
    ensures
        player.play_command(sink) == Some(SinkCommandView::Resume) ==> player.after_play(
            sink,
        ).holds_current() && player.after_play(sink).mode == PlaybackMode::Playing
            && player.after_play(sink).loaded == player.loaded,
        forall|song: SongView| #[trigger]
            player.play_command(sink) == Some(SinkCommandView::LoadAndPlay(song)) ==> {
                &&& player.queue.current() == Some(song)
                &&& player.after_play(sink).loaded == Some(song)
                &&& player.after_play(sink).holds_current()
                &&& player.after_play(sink).mode == PlaybackMode::Playing
            },
{
}

/// `play` gives a command exactly when there is a current song or the sink
/// can be toggled; it fails only on an empty queue. The queue, the volume and
/// the speed are never touched, and a pause is the only command after which
/// the controller is paused.
pub proof fn lemma_play_gives_one_command(player: PlayerView, sink: SinkState)
    requires
        player.well_formed(),
    ensures
        player.after_play(sink).well_formed(),
        player.after_play(sink).queue == player.queue,
        player.after_play(sink).volume == player.volume,
        player.after_play(sink).speed == player.speed,
        player.play_command(sink) is None <==> player.queue.items.len() == 0,
        player.play_command(sink) is None ==> player.after_play(sink) == player,
        player.play_command(sink) == Some(SinkCommandView::Pause) ==> player.after_play(sink).mode
            == PlaybackMode::Paused && sink == SinkState::Playing,
        player.play_command(sink) is Some && player.play_command(sink) != Some(
            SinkCommandView::Pause,
        ) ==> player.after_play(sink).mode == PlaybackMode::Playing,
{
}

/// On an idle sink the first `play` loads the current song; a second `play`,
/// with the sink now playing, pauses it and loads nothing; a third, with the
/// sink now paused, resumes it.
pub proof fn lemma_play_then_pause_then_resume(player: PlayerView, song: SongView)
    requires
        player.well_formed(),
        player.queue.current() == Some(song),
    ensures
        ({
            let first = player.after_play(SinkState::Idle);
            let second = first.after_play(SinkState::Playing);
            &&& player.play_command(SinkState::Idle) == Some(SinkCommandView::LoadAndPlay(song))
            &&& first.mode == PlaybackMode::Playing
            &&& first.play_command(SinkState::Playing) == Some(SinkCommandView::Pause)
            &&& second.mode == PlaybackMode::Paused
            &&& second.loaded == Some(song)
            &&& second.play_command(SinkState::Paused) == Some(SinkCommandView::Resume)
            &&& second.after_play(SinkState::Paused) == first
        }),
{
}

/// A failure of the sink leaves the queue and its cursor where they were and
/// the controller paused, whatever `play` had decided before.
pub proof fn lemma_failure_keeps_the_queue(player: PlayerView, sink: SinkState)
    requires
        player.well_formed(),
    ensures
        player.after_play(sink).after_failure().well_formed(),
        player.after_play(sink).after_failure().queue == player.queue,
        player.after_play(sink).after_failure().mode == PlaybackMode::Paused,
        player.after_play(sink).after_failure().loaded is None,
        forall|song: SongView| #[trigger]
            player.play_command(sink) == Some(SinkCommandView::LoadAndPlay(song))
                ==> player.after_play(sink).loaded == Some(song),
        forall|again: SinkState|
            player.queue.current() is Some ==> #[trigger] player.after_play(
                sink,
            ).after_failure().play_command(again) == Some(
                SinkCommandView::LoadAndPlay(player.queue.current().unwrap()),
            ),
{
}

/// Once the cursor stands on another song than the sink holds, the next
/// `play` loads the song under the cursor, whatever the sink is doing.
pub proof fn lemma_moved_cursor_forces_load(player: PlayerView, sink: SinkState)
    requires
        player.well_formed(),
        player.queue.current() is Some,
        player.loaded != player.queue.current(),
    ensures
        player.play_command(sink) == Some(
            SinkCommandView::LoadAndPlay(player.queue.current().unwrap()),
        ),
        player.after_play(sink).holds_current(),
{
}

} // verus!
