//! The collection of known playlists, searched by name.

use vstd::prelude::*;
use crate::library::LibraryError;
use crate::lookup::{
    is_search_result, lemma_lowest_place, lemma_lowest_place_is, lowest_place, name_views, picked, positions, rank_matches,
};
use crate::playlist::{Playlist, PlaylistView};

verus! {

/// The views of a sequence of playlists, in the same order.
pub open spec fn playlist_views(playlists: Seq<Playlist>) -> Seq<PlaylistView> {
    Seq::new(playlists.len(), |i: int| playlists[i]@)
}

/// The names of the playlists, in the same order.
pub open spec fn playlist_names(entries: Seq<PlaylistView>) -> Seq<Seq<char>> {
    Seq::new(entries.len(), |i: int| entries[i].name)
}

/// The playlists with `playlist` put in: it takes the place of the first
/// playlist of the same name, or stands behind the last where there is none.
pub open spec fn put(entries: Seq<PlaylistView>, playlist: PlaylistView) -> Seq<PlaylistView> {
    let at = lowest_place(playlist_names(entries), playlist.name);
    if at < entries.len() {
        entries.update(at, playlist)
    } else {
        entries.push(playlist)
    }
}

/// The known playlists.
#[derive(Debug)]
pub struct Playlists {
    pub entries: Vec<Playlist>,
}

impl View for Playlists {
    type V = Seq<PlaylistView>;

    open spec fn view(&self) -> Seq<PlaylistView> {
        playlist_views(self.entries@)
    }
}

impl Playlists {
    /// A collection without playlists.
    pub fn new() -> (playlists: Playlists)
        ensures
            playlists@ == Seq::<PlaylistView>::empty(),
    {
        let playlists = Playlists { entries: Vec::new() };
        assert(playlists@ =~= Seq::<PlaylistView>::empty());
        playlists
    }

    /// The number of playlists.
    pub fn len(&self) -> (count: usize)
        ensures
            count == self@.len(),
    {
        self.entries.len()
    }

    /// The position of the first playlist called `name`, if there is one.
    pub fn position(&self, name: &str) -> (at: Option<usize>)
        ensures
            match at {
                Some(k) => k == lowest_place(playlist_names(self@), name@) && k < self@.len(),
                None => lowest_place(playlist_names(self@), name@) == self@.len(),
            },
    {
        let ghost names = playlist_names(self@);
        let wanted = name.to_owned();
        let mut i: usize = 0;
        while i < self.entries.len()
            invariant
                i <= self.entries.len(),
                names == playlist_names(self@),
                wanted@ == name@,
                forall|j: int| 0 <= j < i ==> names[j] != name@,
            decreases self.entries.len() - i,
        {
            if self.entries[i].name == wanted {
                proof {
                    assert(names[i as int] == name@);
                    lemma_lowest_place_is(names, name@, i as int);
                }
                return Some(i);
            }
            assert(names[i as int] != name@);
            i += 1;
        }
        proof {
            lemma_lowest_place_is(names, name@, i as int);
        }
        None
    }

    /// Puts `playlist` in: it takes the place of the first playlist of the
    /// same name, or stands behind the last where there is none.
    pub fn insert(&mut self, playlist: Playlist)
        ensures
            final(self)@ == put(old(self)@, playlist@),
    {
        match self.position(playlist.name.as_str()) {
            Some(k) => {
                self.entries.set(k, playlist);
                assert(self@ =~= old(self)@.update(k as int, playlist@));
            },
            None => {
                self.entries.push(playlist);
                assert(self@ =~= old(self)@.push(playlist@));
            },
        }
    }
}

/// Searches the playlists: those whose name holds `query`, letter case aside,
/// ordered by their lower-case names. The empty query reports every
/// playlist. Playlists whose lower-case names are equal keep the order in
/// which they stand in the collection.
pub fn search(query: &str, playlists: &Playlists) -> (found: Vec<Playlist>)
    ensures
        is_search_result(playlist_names(playlists@), playlists@, query@, playlist_views(found@)),
{
    let mut names: Vec<String> = Vec::new();
    let mut i: usize = 0;
    while i < playlists.entries.len()
        invariant
            i <= playlists.entries.len(),
            names.len() == i,
            forall|k: int| 0 <= k < i ==> (#[trigger] names[k])@ == playlists@[k].name,
        decreases playlists.entries.len() - i,
    {
        names.push(playlists.entries[i].name.clone());
        i += 1;
    }
    assert(name_views(names@) =~= playlist_names(playlists@));
    let order = rank_matches(query, &names);
    let mut found: Vec<Playlist> = Vec::new();
    let mut k: usize = 0;
    while k < order.len()
        invariant
            k <= order.len(),
            found.len() == k,
            crate::lookup::is_ranking(playlist_names(playlists@), query@, positions(order@)),
            forall|j: int|
                0 <= j < k ==> (#[trigger] found[j])@ == playlists@[positions(order@)[j]],
        decreases order.len() - k,
    {
        assert(0 <= positions(order@)[k as int] < playlists@.len());
        found.push(playlists.entries[order[k]].clone());
        k += 1;
    }
    assert(playlist_views(found@) =~= picked(playlists@, positions(order@)));
    found
}

/// The first playlist called `key`, or `NotFound` where none has that name.
pub fn get_entry(key: &str, playlists: &Playlists) -> (entry: Result<Playlist, LibraryError>)
    ensures
        match entry {
            Ok(playlist) => lowest_place(playlist_names(playlists@), key@) < playlists@.len() && playlist@
                == playlists@[lowest_place(playlist_names(playlists@), key@)] && playlist@.name == key@,
            Err(e) => e == LibraryError::NotFound && lowest_place(playlist_names(playlists@), key@)
                == playlists@.len(),
        },
{
    proof {
        lemma_lowest_place(playlist_names(playlists@), key@);
    }
    match playlists.position(key) {
        Some(k) => Ok(playlists.entries[k].clone()),
        None => Err(LibraryError::NotFound),
    }
}

} // verus!
