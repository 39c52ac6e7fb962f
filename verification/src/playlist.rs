//! A named, ordered grouping of songs.

use vstd::prelude::*;
use crate::song::{song_views, Song, SongView};

verus! {

/// A [`Playlist`] in contracts: its name and its songs in order.
pub struct PlaylistView {
    pub name: Seq<char>,
    pub songs: Seq<SongView>,
}

/// A named list of songs.
#[derive(Debug, PartialEq, Eq)]
pub struct Playlist {
    pub name: String,
    pub list: Vec<Song>,
}

impl View for Playlist {
    type V = PlaylistView;

    open spec fn view(&self) -> PlaylistView {
        PlaylistView { name: self.name@, songs: song_views(self.list@) }
    }
}

impl Clone for Playlist {
    fn clone(&self) -> (copy: Playlist)
        ensures
            copy@ == self@,
    {
        let mut list: Vec<Song> = Vec::new();
        let mut i: usize = 0;
        while i < self.list.len()
            invariant
                i <= self.list.len(),
                list.len() == i,
                forall|j: int| 0 <= j < i ==> list[j]@ == self.list[j]@,
            decreases self.list.len() - i,
        {
            list.push(self.list[i].clone());
            i += 1;
        }
        assert(song_views(list@) =~= song_views(self.list@));
        Playlist { name: self.name.clone(), list }
    }
}

impl Playlist {
    /// A playlist called `name` without songs.
    pub fn new(name: String) -> (playlist: Playlist)
        ensures
            playlist@ == (PlaylistView { name: name@, songs: Seq::empty() }),
    {
        let playlist = Playlist { name, list: Vec::new() };
        assert(playlist@.songs =~= Seq::<SongView>::empty());
        playlist
    }

    /// A playlist called `name` that holds `list`.
    pub fn from(name: String, list: Vec<Song>) -> (playlist: Playlist)
        ensures
            playlist@ == (PlaylistView { name: name@, songs: song_views(list@) }),
    {
        Playlist { name, list }
    }

    /// Appends `song` behind the last song.
    pub fn add(&mut self, song: Song)
        ensures
            final(self)@ == (PlaylistView { songs: old(self)@.songs.push(song@), ..old(self)@ }),
    {
        self.list.push(song);
        assert(self@.songs =~= old(self)@.songs.push(song@));
    }

    /// Places `song` at `index`, in front of the song that was there. An
    /// `index` beyond the length is ignored: the playlist stays as it is.
    pub fn insert(&mut self, index: usize, song: Song)
        ensures
            index <= old(self)@.songs.len() ==> final(self)@ == (PlaylistView {
                songs: old(self)@.songs.insert(index as int, song@),
                ..old(self)@
            }),
            index > old(self)@.songs.len() ==> final(self)@ == old(self)@,
    {
        if index <= self.list.len() {
            self.list.insert(index, song);
            assert(self@.songs =~= old(self)@.songs.insert(index as int, song@));
        }
    }

    /// Takes the song at `index` out and returns it. Where `index` names no
    /// position the playlist stays as it is and nothing is returned.
    pub fn remove(&mut self, index: usize) -> (removed: Option<Song>)
        ensures
            match removed {
                Some(song) => index < old(self)@.songs.len() && song@ == old(self)@.songs[index as int]
                    && final(self)@ == (PlaylistView {
                    songs: old(self)@.songs.remove(index as int),
                    ..old(self)@
                }),
                None => index >= old(self)@.songs.len() && final(self)@ == old(self)@,
            },
    {
        if index < self.list.len() {
            let song = self.list.remove(index);
            assert(self@.songs =~= old(self)@.songs.remove(index as int));
            Some(song)
        } else {
            None
        }
    }
}

} // verus!
