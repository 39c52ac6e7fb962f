//! The library's entries as JSON text: an object that maps each song's name
//! to its file locator. Reading and writing the text is left to `serde_json`.

use std::collections::BTreeMap;
use vstd::prelude::*;
use crate::song::{song_views, Song, SongView};

verus! {

/// The error that `serde_json` reports.
#[verifier::external_type_specification]
#[verifier::external_body]
pub struct ExJsonError(serde_json::Error);

/// The entries that `serde_json::from_str` reads out of a text as a map from
/// string to string, listed by ascending name; `None` where it refuses the
/// text.
pub uninterp spec fn json_entries(text: Seq<char>) -> Option<Seq<SongView>>;

/// The text that `serde_json::to_string` writes for the map from name to
/// locator that the entries make up; `None` where it fails.
pub uninterp spec fn json_text(entries: Seq<SongView>) -> Option<Seq<char>>;

/// `serde_json::from_str`, reading a map from string to string. Each key of
/// the map becomes a song's name and its value the song's locator. The
/// contract claims only that the outcome depends on the text alone.
#[verifier::external_body]
pub(crate) fn parse_entries(text: &str) -> (parsed: Result<Vec<Song>, serde_json::Error>)
    ensures
        match parsed {
            Ok(entries) => json_entries(text@) == Some(song_views(entries@)),
            Err(_) => json_entries(text@) is None,
        },
{
    let map: BTreeMap<String, String> = serde_json::from_str(text)?;
    Ok(map.into_iter().map(|(name, file)| Song { name, file }).collect())
}

/// `serde_json::to_string`, writing the map from each entry's name to its
/// locator. The contract claims only that the outcome depends on the entries
/// alone.
#[verifier::external_body]
pub(crate) fn write_entries(entries: &Vec<Song>) -> (written: Result<String, serde_json::Error>)
    ensures
        match written {
            Ok(text) => json_text(song_views(entries@)) == Some(text@),
            Err(_) => json_text(song_views(entries@)) is None,
        },
{
    let map: BTreeMap<&str, &str> = entries.iter().map(
        |song| (song.name.as_str(), song.file.as_str()),
    ).collect();
    serde_json::to_string(&map)
}

} // verus!
