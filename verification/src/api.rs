//! The one interface of the searchable collections.

use vstd::prelude::*;
use crate::library::{names_of, Library, LibraryError};
use crate::lookup::{is_search_result, lemma_lowest_place, lowest_place};
use crate::playlist::{Playlist, PlaylistView};
use crate::playlists::{playlist_names, playlist_views, Playlists};
use crate::song::{song_views, Song, SongView};

verus! {

/// A collection of named entries that can be searched and asked for one
/// entry by its name.
pub trait Api {
    /// What the collection holds.
    type Entry: View;

    /// The entries, in the order in which the collection keeps them.
    spec fn entries(&self) -> Seq<<Self::Entry as View>::V>;

    /// The names of the entries, in the same order.
    spec fn names(&self) -> Seq<Seq<char>>;

    /// What a result is in contracts.
    spec fn views(found: Seq<Self::Entry>) -> Seq<<Self::Entry as View>::V>;

    /// The entries whose name holds `query`, letter case aside, ordered by
    /// their lower-case names; the empty query reports them all.
    fn search(&self, query: &str) -> (found: Vec<Self::Entry>)
        ensures
            is_search_result(self.names(), self.entries(), query@, Self::views(found@)),
    ;

    /// The first entry called `id`, or `NotFound` where there is none.
    fn get_entry(&self, id: &str) -> (entry: Result<Self::Entry, LibraryError>)
        ensures
            match entry {
                Ok(found) => lowest_place(self.names(), id@) < self.entries().len() && found@
                    == self.entries()[lowest_place(self.names(), id@)],
                Err(e) => e == LibraryError::NotFound && lowest_place(self.names(), id@)
                    == self.entries().len(),
            },
    ;
}

impl Api for Library {
    type Entry = Song;

    open spec fn entries(&self) -> Seq<SongView> {
        self@
    }

    open spec fn names(&self) -> Seq<Seq<char>> {
        names_of(self@)
    }

    open spec fn views(found: Seq<Song>) -> Seq<SongView> {
        song_views(found)
    }

    fn search(&self, query: &str) -> (found: Vec<Song>) {
        crate::library::search(query, self)
    }

    fn get_entry(&self, id: &str) -> (entry: Result<Song, LibraryError>) {
        proof {
            lemma_lowest_place(names_of(self@), id@);
        }
        crate::library::get_entry(id, self)
    }
}

impl Api for Playlists {
    type Entry = Playlist;

    open spec fn entries(&self) -> Seq<PlaylistView> {
        self@
    }

    open spec fn names(&self) -> Seq<Seq<char>> {
        playlist_names(self@)
    }

    open spec fn views(found: Seq<Playlist>) -> Seq<PlaylistView> {
        playlist_views(found)
    }

    fn search(&self, query: &str) -> (found: Vec<Playlist>) {
        crate::playlists::search(query, self)
    }

    fn get_entry(&self, id: &str) -> (entry: Result<Playlist, LibraryError>) {
        crate::playlists::get_entry(id, self)
    }
}

} // verus!
