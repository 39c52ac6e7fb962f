//! The library: the collection of known songs, keyed by name.

use vstd::prelude::*;
use crate::json::{json_entries, json_text, parse_entries, write_entries};
use crate::lookup::{
    is_search_result, lemma_lowest_place, lemma_lowest_place_is, lowest_place, name_views, picked,
    positions, rank_matches,
};
use crate::scan::{entry_of, scanned_views, ScannedFile, ScannedFileView};
use crate::song::{song_views, Song, SongView};

verus! {

/// Why the library could not answer.
#[derive(Debug, Clone, Copy, PartialEq, Eq, Structural)]
pub enum LibraryError {
    /// No entry has the name asked for.
    NotFound,
    /// The text is no JSON object of strings, or the entries could not be
    /// written as one.
    InvalidJson,
}

/// The names of the entries, in the same order.
pub open spec fn names_of(entries: Seq<SongView>) -> Seq<Seq<char>> {
    Seq::new(entries.len(), |i: int| entries[i].name)
}

/// Some entry is called `name`.
pub open spec fn holds(entries: Seq<SongView>, name: Seq<char>) -> bool {
    lowest_place(names_of(entries), name) < entries.len()
}

/// No two entries share a name.
pub open spec fn distinct_names(entries: Seq<SongView>) -> bool {
    forall|j: int, k: int|
        0 <= j < entries.len() && 0 <= k < entries.len() && j != k ==> entries[j].name
            != entries[k].name
}

/// The entries with `song` put in: it takes the place of the first entry of
/// the same name, or stands behind the last entry where there is none.
pub open spec fn put(entries: Seq<SongView>, song: SongView) -> Seq<SongView> {
    let at = lowest_place(names_of(entries), song.name);
    if at < entries.len() {
        entries.update(at, song)
    } else {
        entries.push(song)
    }
}

/// The entries that come of putting each song of `list` in, in turn, starting
/// from none.
pub open spec fn collected(list: Seq<SongView>) -> Seq<SongView>
    decreases list.len(),
{
    if list.len() == 0 {
        Seq::empty()
    } else {
        put(collected(list.drop_last()), list.last())
    }
}

/// The entries that a scan stands for: each audio file put in, in the order
/// of the scan.
pub open spec fn scanned_entries(files: Seq<ScannedFileView>) -> Seq<SongView>
    decreases files.len(),
{
    if files.len() == 0 {
        Seq::empty()
    } else {
        match entry_of(files.last()) {
            Some(song) => put(scanned_entries(files.drop_last()), song),
            None => scanned_entries(files.drop_last()),
        }
    }
}

/// Two lists hold the same entries, whatever their order.
pub open spec fn same_entries(a: Seq<SongView>, b: Seq<SongView>) -> bool {
    forall|song: SongView| a.contains(song) <==> b.contains(song)
}

/// The known songs. No two of them share a name.
#[derive(Debug)]
pub struct Library {
    pub entries: Vec<Song>,
}

impl View for Library {
    type V = Seq<SongView>;

    open spec fn view(&self) -> Seq<SongView> {
        song_views(self.entries@)
    }
}

impl Library {
    /// No two entries share a name.
    pub open spec fn well_formed(&self) -> bool {
        distinct_names(self@)
    }

    /// A library without songs.
    pub fn new() -> (library: Library)
        ensures
            library@ == Seq::<SongView>::empty(),
            library.well_formed(),
    {
        let library = Library { entries: Vec::new() };
        assert(library@ =~= Seq::<SongView>::empty());
        library
    }

    /// The number of songs.
    pub fn len(&self) -> (count: usize)
        ensures
            count == self@.len(),
    {
        self.entries.len()
    }

    /// The position of the first entry called `name`, if there is one.
    pub fn position(&self, name: &str) -> (at: Option<usize>)
        ensures
            match at {
                Some(k) => k == lowest_place(names_of(self@), name@) && k < self@.len(),
                None => lowest_place(names_of(self@), name@) == self@.len(),
            },
    {
        let ghost names = names_of(self@);
        let wanted = name.to_owned();
        let mut i: usize = 0;
        while i < self.entries.len()
            invariant
                i <= self.entries.len(),
                names == names_of(self@),
                wanted@ == name@,
                forall|j: int| 0 <= j < i ==> names[j] != name@,
            decreases self.entries.len() - i,
        {
            if self.entries[i].name == wanted {
                proof {
                    assert(names[i as int] == name@);
                    lemma_lowest_place_is(names, name@, i as int);
                }
                return Some(i);
            }
            assert(names[i as int] != name@);
            i += 1;
        }
        proof {
            lemma_lowest_place_is(names, name@, i as int);
        }
        None
    }

    /// Puts `song` in: it takes the place of the entry of the same name, or
    /// stands behind the last entry where there is none.
    pub fn insert(&mut self, song: Song)
        ensures
            final(self)@ == put(old(self)@, song@),
            old(self).well_formed() ==> final(self).well_formed(),
    {
        proof {
            if self.well_formed() {
                lemma_put_keeps_names_distinct(self@, song@);
            }
        }
        match self.position(song.name.as_str()) {
            Some(k) => {
                self.entries.set(k, song);
                assert(self@ =~= old(self)@.update(k as int, song@));
            },
            None => {
                self.entries.push(song);
                assert(self@ =~= old(self)@.push(song@));
            },
        }
    }

    /// The library that comes of putting each song of `list` in, in turn: of
    /// two songs with one name the later one stays.
    pub fn from_entries(list: Vec<Song>) -> (library: Library)
        ensures
            library.well_formed(),
            library@ == collected(song_views(list@)),
    {
        let mut library = Library::new();
        let mut i: usize = 0;
        let ghost all = song_views(list@);
        while i < list.len()
            invariant
                i <= list.len(),
                all == song_views(list@),
                library.well_formed(),
                library@ == collected(all.subrange(0, i as int)),
            decreases list.len() - i,
        {
            library.insert(list[i].clone());
            assert(all.subrange(0, i + 1).drop_last() =~= all.subrange(0, i as int));
            i += 1;
        }
        assert(all.subrange(0, i as int) =~= all);
        library
    }

    /// Reads a library out of JSON text: an object that maps each song's name
    /// to its file locator. A text that is no such object gives
    /// `InvalidJson`.
    pub fn from_json(text: &str) -> (read: Result<Library, LibraryError>)
        ensures
            match read {
                Ok(library) => {
                    &&& library.well_formed()
                    &&& json_entries(text@) is Some
                    &&& library@ == collected(json_entries(text@).unwrap())
                },
                Err(e) => e == LibraryError::InvalidJson && json_entries(text@) is None,
            },
    {
        match parse_entries(text) {
            Ok(entries) => Ok(Library::from_entries(entries)),
            Err(_) => Err(LibraryError::InvalidJson),
        }
    }
}

/// A song that was put in is found under its name.
pub proof fn lemma_put_is_found(entries: Seq<SongView>, song: SongView)
    ensures
        holds(put(entries, song), song.name),
        put(entries, song)[lowest_place(names_of(put(entries, song)), song.name)] == song,
        put(entries, song).len() == if holds(entries, song.name) {
            entries.len()
        } else {
            entries.len() + 1
        },
{
    let names = names_of(entries);
    let at = lowest_place(names, song.name);
    lemma_lowest_place(names, song.name);
    let after = names_of(put(entries, song));
    assert(after[at] == song.name);
    assert forall|j: int| 0 <= j < at implies after[j] != song.name by {
        assert(after[j] == names[j]);
    }
    lemma_lowest_place_is(after, song.name, at);
}

/// Putting a song in keeps the names distinct, changes no entry of another
/// name, and leaves the song as the only entry of its name.
pub proof fn lemma_put_keeps_names_distinct(entries: Seq<SongView>, song: SongView)
    requires
        distinct_names(entries),
    ensures
        distinct_names(put(entries, song)),
        put(entries, song).contains(song),
        forall|other: SongView|
            other.name != song.name ==> (put(entries, song).contains(other) <==> entries.contains(
                other,
            )),
        forall|other: SongView|
            put(entries, song).contains(other) && other.name == song.name ==> other == song,
{
    let after = put(entries, song);
    let names = names_of(entries);
    let at = lowest_place(names, song.name);
    lemma_lowest_place(names, song.name);
    assert(after[at] == song);
    assert forall|j: int| 0 <= j < entries.len() && j != at implies entries[j].name
        != song.name by {
        if at < entries.len() {
            assert(names[at] == song.name);
        } else {
            assert(names[j] != song.name);
        }
    }
    assert forall|other: SongView| other.name != song.name implies (after.contains(other)
        <==> entries.contains(other)) by {
        if entries.contains(other) {
            let j = choose|j: int| 0 <= j < entries.len() && entries[j] == other;
            assert(names[j] == other.name);
            assert(after[j] == other);
        }
        if after.contains(other) {
            let j = choose|j: int| 0 <= j < after.len() && after[j] == other;
            assert(entries[j] == other);
        }
    }
    assert forall|other: SongView|
        after.contains(other) && other.name == song.name implies other == song by {
        let j = choose|j: int| 0 <= j < after.len() && after[j] == other;
        if j != at {
            assert(entries[j].name != song.name);
        }
    }
}


/// Searches the library: the songs whose name holds `query`, letter case
/// aside, ordered by their lower-case names. The empty query reports every
/// song. Songs whose names differ in letter case only keep the order in which
/// they stand in the library.
pub fn search(query: &str, library: &Library) -> (found: Vec<Song>)
    ensures
        is_search_result(names_of(library@), library@, query@, song_views(found@)),
{
    let mut names: Vec<String> = Vec::new();
    let mut i: usize = 0;
    while i < library.entries.len()
        invariant
            i <= library.entries.len(),
            names.len() == i,
            forall|k: int| 0 <= k < i ==> (#[trigger] names[k])@ == library@[k].name,
        decreases library.entries.len() - i,
    {
        names.push(library.entries[i].name.clone());
        i += 1;
    }
    assert(name_views(names@) =~= names_of(library@));
    let order = rank_matches(query, &names);
    let mut found: Vec<Song> = Vec::new();
    let mut k: usize = 0;
    while k < order.len()
        invariant
            k <= order.len(),
            found.len() == k,
            crate::lookup::is_ranking(names_of(library@), query@, positions(order@)),
            forall|j: int|
                0 <= j < k ==> (#[trigger] found[j])@ == library@[positions(order@)[j]],
        decreases order.len() - k,
    {
        assert(0 <= positions(order@)[k as int] < library@.len());
        found.push(library.entries[order[k]].clone());
        k += 1;
    }
    assert(song_views(found@) =~= picked(library@, positions(order@)));
    found
}

/// The first song called `key`, or `NotFound` where the library has none of
/// that name.
pub fn get_entry(key: &str, library: &Library) -> (entry: Result<Song, LibraryError>)
    ensures
        match entry {
            Ok(song) => holds(library@, key@) && song@ == library@[lowest_place(
                names_of(library@),
                key@,
            )] && song@.name == key@,
            Err(e) => e == LibraryError::NotFound && !holds(library@, key@),
        },
{
    proof {
        lemma_lowest_place(names_of(library@), key@);
    }
    match library.position(key) {
        Some(k) => {
            assert(names_of(library@)[k as int] == key@);
            Ok(library.entries[k].clone())
        },
        None => Err(LibraryError::NotFound),
    }
}

/// With distinct names, a name has one entry at most: what `get_entry`
/// returns is the only song of that name.
pub proof fn lemma_entry_of_a_name_is_unique(entries: Seq<SongView>, a: SongView, b: SongView)
    requires
        distinct_names(entries),
        entries.contains(a),
        entries.contains(b),
        a.name == b.name,
    ensures
        a == b,
{
    let j = choose|j: int| 0 <= j < entries.len() && entries[j] == a;
    let k = choose|k: int| 0 <= k < entries.len() && entries[k] == b;
    if j != k {
        assert(entries[j].name != entries[k].name);
    }
}

/// Fills the library afresh from a scan of the songs directory: what it held
/// is dropped, and each audio file of the scan is put in under the name that
/// its file name gives. Of two files that give one name the later one stays.
pub fn load(library: &mut Library, files: &Vec<ScannedFile>)
    ensures
        final(library).well_formed(),
        final(library)@ == scanned_entries(scanned_views(files@)),
{
    library.entries.clear();
    assert(library@ =~= Seq::<SongView>::empty());
    let ghost all = scanned_views(files@);
    let mut i: usize = 0;
    while i < files.len()
        invariant
            i <= files.len(),
            all == scanned_views(files@),
            library.well_formed(),
            library@ == scanned_entries(all.subrange(0, i as int)),
        decreases files.len() - i,
    {
        assert(all.subrange(0, i + 1).drop_last() =~= all.subrange(0, i as int));
        assert(all.subrange(0, i + 1).last() == files[i as int]@);
        match files[i].entry() {
            Some(song) => {
                library.insert(song);
            },
            None => {},
        }
        i += 1;
    }
    assert(all.subrange(0, i as int) =~= all);
}

/// Whether `song`, name and locator, is an entry of the library.
fn has_entry(library: &Library, song: &Song) -> (found: bool)
    ensures
        found == library@.contains(song@),
{
    let mut i: usize = 0;
    while i < library.entries.len()
        invariant
            i <= library.entries.len(),
            forall|j: int| 0 <= j < i ==> library@[j] != song@,
        decreases library.entries.len() - i,
    {
        if library.entries[i] == *song {
            assert(library@[i as int] == song@);
            return true;
        }
        i += 1;
    }
    false
}

/// Whether every entry of `part` is an entry of `whole`.
fn is_part_of(part: &Library, whole: &Library) -> (all: bool)
    ensures
        all == (forall|song: SongView| part@.contains(song) ==> whole@.contains(song)),
{
    let mut i: usize = 0;
    while i < part.entries.len()
        invariant
            i <= part.entries.len(),
            forall|j: int| 0 <= j < i ==> whole@.contains(#[trigger] part@[j]),
        decreases part.entries.len() - i,
    {
        if !has_entry(whole, &part.entries[i]) {
            assert(part@.contains(part@[i as int]));
            return false;
        }
        i += 1;
    }
    true
}

/// Checks the library against a scan of the songs directory: true exactly
/// when the library holds the entries that the scan stands for, no more and
/// no fewer, each with the same locator.
pub fn validate(library: &Library, files: &Vec<ScannedFile>) -> (valid: bool)
    ensures
        valid == same_entries(library@, scanned_entries(scanned_views(files@))),
{
    let mut scanned = Library::new();
    load(&mut scanned, files);
    is_part_of(library, &scanned) && is_part_of(&scanned, library)
}

/// The library as JSON text, ready to be written to its file: an object that
/// maps each song's name to its locator.
pub fn save(library: &Library) -> (text: Result<String, LibraryError>)
    ensures
        match text {
            Ok(t) => json_text(library@) == Some(t@),
            Err(e) => e == LibraryError::InvalidJson && json_text(library@) is None,
        },
{
    match write_entries(&library.entries) {
        Ok(t) => Ok(t),
        Err(_) => Err(LibraryError::InvalidJson),
    }
}

} // verus!
