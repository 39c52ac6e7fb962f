//! The value that identifies a playable item.

use vstd::prelude::*;

verus! {

/// What a [`Song`] is in contracts: its name and its file locator as sequences
/// of characters.
pub struct SongView {
    pub name: Seq<char>,
    pub file: Seq<char>,
}

/// A playable item: a display name and the locator of its audio file.
///
/// Two songs are equal when their names and their locators are.
#[derive(Debug)]
pub struct Song {
    pub name: String,
    pub file: String,
}

impl View for Song {
    type V = SongView;

    open spec fn view(&self) -> SongView {
        SongView { name: self.name@, file: self.file@ }
    }
}

/// The views of a sequence of songs, in the same order.
pub open spec fn song_views(songs: Seq<Song>) -> Seq<SongView> {
    Seq::new(songs.len(), |i: int| songs[i]@)
}

impl Clone for Song {
    fn clone(&self) -> (copy: Song)
        ensures
            copy@ == self@,
    {
        Song { name: self.name.clone(), file: self.file.clone() }
    }
}

impl PartialEq for Song {
    fn eq(&self, other: &Song) -> (same: bool) {
        self.name == other.name && self.file == other.file
    }
}

impl vstd::std_specs::cmp::PartialEqSpecImpl for Song {
    open spec fn obeys_eq_spec() -> bool {
        true
    }

    open spec fn eq_spec(&self, other: &Song) -> bool {
        self@ == other@
    }
}

impl Eq for Song {}

} // verus!
