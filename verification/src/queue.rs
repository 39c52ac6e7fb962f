//! The playback queue: an ordered sequence of songs and a cursor on the
//! current one.

use std::collections::VecDeque;
use vstd::prelude::*;
use crate::song::{song_views, Song, SongView};

verus! {

/// Why a queue operation did nothing.
#[derive(Debug, Clone, Copy, PartialEq, Eq, Structural)]
pub enum QueueError {
    /// There is no current song: the queue is empty.
    EmptyQueue,
    /// The index names no position of the queue.
    OutOfRange,
}

/// The queue as contracts see it: the songs in playing order and the position
/// of the cursor.
pub struct QueueView {
    pub items: Seq<SongView>,
    pub current_index: nat,
}

impl QueueView {
    /// The queue without songs, cursor at the start.
    pub open spec fn empty() -> QueueView {
        QueueView { items: Seq::empty(), current_index: 0 }
    }

    /// The cursor is on a song, or at the start of an empty queue.
    pub open spec fn well_formed(self) -> bool {
        if self.items.len() == 0 {
            self.current_index == 0
        } else {
            self.current_index < self.items.len()
        }
    }

    /// The song under the cursor, if there is one.
    pub open spec fn current(self) -> Option<SongView> {
        if self.current_index < self.items.len() {
            Some(self.items[self.current_index as int])
        } else {
            None
        }
    }

    /// `song` appended behind the last song; the cursor stays.
    pub open spec fn enqueue(self, song: SongView) -> QueueView {
        QueueView { items: self.items.push(song), ..self }
    }

    /// `song` placed at `index`, in front of the song that was there. Only an
    /// index up to the length is taken; any other leaves the queue as it is.
    /// The cursor keeps its position.
    pub open spec fn insert(self, index: int, song: SongView) -> QueueView {
        if 0 <= index <= self.items.len() {
            QueueView { items: self.items.insert(index, song), ..self }
        } else {
            self
        }
    }

    /// Where the cursor stands once the song at `index` is gone: it follows the
    /// current song when an earlier one leaves, and stays in range when the
    /// current one leaves.
    pub open spec fn cursor_after_remove(self, index: int) -> nat {
        if index < self.current_index {
            (self.current_index - 1) as nat
        } else if index == self.current_index && self.current_index + 1 == self.items.len()
            && self.current_index > 0 {
            (self.current_index - 1) as nat
        } else {
            self.current_index
        }
    }

    /// The queue without the song at `index`; unchanged where `index` names no
    /// position.
    pub open spec fn remove(self, index: int) -> QueueView {
        if 0 <= index < self.items.len() {
            QueueView {
                items: self.items.remove(index),
                current_index: self.cursor_after_remove(index),
            }
        } else {
            self
        }
    }

    /// The cursor set on `index` where that is a position of the queue.
    pub open spec fn advance_to(self, index: int) -> QueueView {
        if 0 <= index < self.items.len() {
            QueueView { current_index: index as nat, ..self }
        } else {
            self
        }
    }

    /// The cursor one song back, but never in front of the first.
    pub open spec fn previous(self) -> QueueView {
        if self.current_index > 0 {
            QueueView { current_index: (self.current_index - 1) as nat, ..self }
        } else {
            self
        }
    }

    /// The cursor one song on, but never behind the last.
    pub open spec fn next(self) -> QueueView {
        if self.current_index + 1 < self.items.len() {
            QueueView { current_index: self.current_index + 1, ..self }
        } else {
            self
        }
    }

    /// `next` applied `count` times.
    pub open spec fn next_times(self, count: nat) -> QueueView
        decreases count,
    {
        if count == 0 {
            self
        } else {
            self.next().next_times((count - 1) as nat)
        }
    }

    /// Each of `songs` appended in turn.
    pub open spec fn enqueue_all(self, songs: Seq<SongView>) -> QueueView
        decreases songs.len(),
    {
        if songs.len() == 0 {
            self
        } else {
            self.enqueue_all(songs.drop_last()).enqueue(songs.last())
        }
    }
}

/// Navigation over a queue of songs.
pub trait QueueTools {
    /// The queue that the methods act on.
    spec fn queue_view(&self) -> QueueView;

    /// The song under the cursor; `EmptyQueue` where there is none, which
    /// for a well-formed queue means that it is empty. Nothing changes.
    fn current(&mut self) -> (found: Result<Song, QueueError>)
        ensures
            final(self).queue_view() == old(self).queue_view(),
            match found {
                Ok(song) => old(self).queue_view().current() == Some(song@),
                Err(e) => e == QueueError::EmptyQueue && old(self).queue_view().current() is None,
            },
    ;

    /// Moves the cursor to `place`. Where `place` is no position of the queue
    /// the queue stays as it is and `OutOfRange` is returned.
    fn to_place(&mut self, place: usize) -> (moved: Result<(), QueueError>)
        ensures
            old(self).queue_view().well_formed() ==> final(self).queue_view().well_formed(),
            final(self).queue_view() == old(self).queue_view().advance_to(place as int),
            moved is Ok <==> place < old(self).queue_view().items.len(),
            moved is Err ==> moved == Err::<(), QueueError>(QueueError::OutOfRange),
    ;

    /// Moves the cursor one song back; on the first song it stays.
    fn previous(&mut self)
        ensures
            old(self).queue_view().well_formed() ==> final(self).queue_view().well_formed(),
            final(self).queue_view() == old(self).queue_view().previous(),
    ;

    /// Moves the cursor one song on; on the last song it stays.
    fn next(&mut self)
        ensures
            old(self).queue_view().well_formed() ==> final(self).queue_view().well_formed(),
            final(self).queue_view() == old(self).queue_view().next(),
    ;

    /// Appends `song` behind the last song. The cursor stays.
    fn queue(&mut self, song: Song)
        ensures
            old(self).queue_view().well_formed() ==> final(self).queue_view().well_formed(),
            final(self).queue_view() == old(self).queue_view().enqueue(song@),
    ;

    /// Removes every song and sets the cursor back to the start.
    fn clear(&mut self)
        ensures
            final(self).queue_view() == QueueView::empty(),
    ;
}

/// An ordered sequence of songs with a cursor on the current one.
#[derive(Debug)]
pub struct Queue {
    pub current_index: usize,
    pub queue: VecDeque<Song>,
}

impl View for Queue {
    type V = QueueView;

    open spec fn view(&self) -> QueueView {
        QueueView { items: song_views(self.queue@), current_index: self.current_index as nat }
    }
}

impl Clone for Queue {
    fn clone(&self) -> (copy: Queue)
        ensures
            copy@ == self@,
    {
        let mut queue: VecDeque<Song> = VecDeque::new();
        let mut i: usize = 0;
        while i < self.queue.len()
            invariant
                i <= self.queue.len(),
                queue.len() == i,
                forall|j: int| 0 <= j < i ==> queue@[j]@ == self.queue@[j]@,
            decreases self.queue.len() - i,
        {
            queue.push_back(self.queue[i].clone());
            i += 1;
        }
        let copy = Queue { current_index: self.current_index, queue };
        assert(copy@.items =~= self@.items);
        copy
    }
}

impl Queue {
    /// An empty queue with the cursor at the start.
    pub fn new() -> (fresh: Queue)
        ensures
            fresh@ == QueueView::empty(),
            fresh@.well_formed(),
    {
        let fresh = Queue { current_index: 0, queue: VecDeque::new() };
        assert(fresh@.items =~= Seq::<SongView>::empty());
        fresh
    }

    /// Places `song` at `index`, in front of the song that was there. An
    /// `index` beyond the length is ignored: the queue stays as it is.
    pub fn insert(&mut self, index: usize, song: Song)
        ensures
            old(self)@.well_formed() ==> final(self)@.well_formed(),
            final(self)@ == old(self)@.insert(index as int, song@),
    {
        if index <= self.queue.len() {
            self.queue.insert(index, song);
            assert(self@.items =~= old(self)@.items.insert(index as int, song@));
        }
    }

    /// Removes the song at `index`, or returns `OutOfRange` and leaves the
    /// queue as it is where `index` names no position. The cursor follows the
    /// current song, or stays in range where the current song was the one
    /// removed.
    pub fn remove(&mut self, index: usize) -> (removed: Result<(), QueueError>)
        ensures
            old(self)@.well_formed() ==> final(self)@.well_formed(),
            final(self)@ == old(self)@.remove(index as int),
            removed is Ok <==> index < old(self)@.items.len(),
            removed is Err ==> removed == Err::<(), QueueError>(QueueError::OutOfRange),
    {
        if index >= self.queue.len() {
            return Err(QueueError::OutOfRange);
        }
        let last = self.queue.len() - 1;
        let _ = self.queue.remove(index);
        if index < self.current_index || (index == self.current_index && index == last && index
            > 0) {
            self.current_index = self.current_index - 1;
        }
        assert(self@.items =~= old(self)@.items.remove(index as int));
        Ok(())
    }
}

impl QueueTools for Queue {
    open spec fn queue_view(&self) -> QueueView {
        self@
    }

    fn current(&mut self) -> (found: Result<Song, QueueError>)
        ensures
            *final(self) == *old(self),
    {
        if self.current_index < self.queue.len() {
            Ok(self.queue[self.current_index].clone())
        } else {
            Err(QueueError::EmptyQueue)
        }
    }

    fn to_place(&mut self, place: usize) -> (moved: Result<(), QueueError>) {
        if place < self.queue.len() {
            self.current_index = place;
            Ok(())
        } else {
            Err(QueueError::OutOfRange)
        }
    }

    fn previous(&mut self) {
        if self.current_index > 0 {
            self.current_index -= 1;
        }
    }

    fn next(&mut self) {
        let len = self.queue.len();
        if len > 0 && self.current_index < len - 1 {
            self.current_index += 1;
        }
    }

    fn queue(&mut self, song: Song) {
        self.queue.push_back(song);
        assert(self@.items =~= old(self)@.items.push(song@));
    }

    fn clear(&mut self) {
        self.queue.clear();
        self.current_index = 0;
        assert(self@.items =~= Seq::<SongView>::empty());
    }
}


/// Appending songs keeps a well-formed queue well formed and moves no cursor.
pub proof fn lemma_enqueue_all_well_formed(start: QueueView, songs: Seq<SongView>)
    requires
        start.well_formed(),
    ensures
        start.enqueue_all(songs).well_formed(),
        start.enqueue_all(songs).current_index == start.current_index,
        start.enqueue_all(songs).items == start.items + songs,
    decreases songs.len(),
{
    if songs.len() > 0 {
        lemma_enqueue_all_well_formed(start, songs.drop_last());
        assert(start.items + songs =~= (start.items + songs.drop_last()).push(songs.last()));
    } else {
        assert(start.items + songs =~= start.items);
    }
}

/// After any run of appends, removing the song under the cursor leaves the
/// cursor on a song of the queue, if one remains.
pub proof fn lemma_remove_current_keeps_cursor_on_a_song(start: QueueView, songs: Seq<SongView>)
    requires
        start.well_formed(),
    ensures
        ({
            let grown = start.enqueue_all(songs);
            let after = grown.remove(grown.current_index as int);
            &&& after.well_formed()
            &&& after.items.len() > 0 ==> after.current_index < after.items.len()
            &&& after.items.len() > 0 ==> after.current() == Some(
                after.items[after.current_index as int],
            )
        }),
{
    lemma_enqueue_all_well_formed(start, songs);
}

/// Removing any song keeps the queue well formed, and a cursor behind the
/// removed position still points at the song it pointed at.
pub proof fn lemma_remove_keeps_current_song(queue: QueueView, index: int)
    requires
        queue.well_formed(),
        0 <= index < queue.items.len(),
    ensures
        queue.remove(index).well_formed(),
        queue.remove(index).items.len() == queue.items.len() - 1,
        index != queue.current_index ==> queue.remove(index).current() == queue.current(),
{
}

/// With the cursor on the first position, stepping back changes nothing.
pub proof fn lemma_previous_at_start_is_noop(queue: QueueView)
    requires
        queue.current_index == 0,
    ensures
        queue.previous() == queue,
        queue.previous().previous() == queue.previous(),
{
}

/// However often the cursor steps on, it never passes the last song: after
/// `count` steps it stands `count` positions further, or on the last song.
pub proof fn lemma_next_never_passes_last(queue: QueueView, count: nat)
    requires
        queue.well_formed(),
    ensures
        queue.next_times(count).well_formed(),
        queue.next_times(count).items == queue.items,
        queue.items.len() > 0 ==> queue.next_times(count).current_index <= queue.items.len() - 1,
        queue.current_index + count < queue.items.len() ==> queue.next_times(count).current_index
            == queue.current_index + count,
        0 < queue.items.len() <= queue.current_index + count ==> queue.next_times(
            count,
        ).current_index == queue.items.len() - 1,
        queue.items.len() == 0 ==> queue.next_times(count) == queue,
    decreases count,
{
    if count > 0 {
        lemma_next_never_passes_last(queue.next(), (count - 1) as nat);
    }
}

/// Inserting at an index beyond the length leaves the queue as it was.
pub proof fn lemma_insert_out_of_range_is_noop(queue: QueueView, index: int, song: SongView)
    requires
        index > queue.items.len(),
    ensures
        queue.insert(index, song) == queue,
{
}

/// Inserting at an index up to the length adds exactly that song there and
/// keeps a well-formed queue well formed.
pub proof fn lemma_insert_in_range(queue: QueueView, index: int, song: SongView)
    requires
        queue.well_formed(),
        0 <= index <= queue.items.len(),
    ensures
        queue.insert(index, song).well_formed(),
        queue.insert(index, song).items.len() == queue.items.len() + 1,
        queue.insert(index, song).items[index] == song,
        queue.insert(index, song).current_index == queue.current_index,
{
}

} // verus!
