//! What a walk over the songs directory found, and which library entries it
//! stands for. The walk itself is the caller's business.

use vstd::prelude::*;
use vstd::string::StrSliceExecFns;
use crate::song::{Song, SongView};

verus! {

/// One regular file that the walk came across.
#[derive(Debug)]
pub struct ScannedFile {
    /// The last component of the path.
    pub file_name: String,
    /// What follows the last dot of the file name.
    pub extension: String,
    /// The whole path.
    pub path: String,
}

/// A [`ScannedFile`] in contracts.
pub struct ScannedFileView {
    pub file_name: Seq<char>,
    pub extension: Seq<char>,
    pub path: Seq<char>,
}

impl View for ScannedFile {
    type V = ScannedFileView;

    open spec fn view(&self) -> ScannedFileView {
        ScannedFileView { file_name: self.file_name@, extension: self.extension@, path: self.path@ }
    }
}

/// The views of a sequence of scanned files, in the same order.
pub open spec fn scanned_views(files: Seq<ScannedFile>) -> Seq<ScannedFileView> {
    Seq::new(files.len(), |i: int| files[i]@)
}

/// The extensions that count as audio: `mp3`, `wav`, `flac` and `aac`, in
/// lower case.
pub open spec fn is_audio_extension(extension: Seq<char>) -> bool {
    ||| extension == seq!['m', 'p', '3']
    ||| extension == seq!['w', 'a', 'v']
    ||| extension == seq!['f', 'l', 'a', 'c']
    ||| extension == seq!['a', 'a', 'c']
}

/// Whether a file with this extension is taken for an audio file.
pub fn is_audio_file(extension: &str) -> (audio: bool)
    ensures
        audio == is_audio_extension(extension@),
{
    proof {
        reveal_strlit("mp3");
        reveal_strlit("wav");
        reveal_strlit("flac");
        reveal_strlit("aac");
        assert("mp3"@ =~= seq!['m', 'p', '3']);
        assert("wav"@ =~= seq!['w', 'a', 'v']);
        assert("flac"@ =~= seq!['f', 'l', 'a', 'c']);
        assert("aac"@ =~= seq!['a', 'a', 'c']);
    }
    let given = extension.to_owned();
    given == "mp3".to_owned() || given == "wav".to_owned() || given == "flac".to_owned() || given
        == "aac".to_owned()
}

/// The library entry that a scanned file stands for: an audio file gives a
/// song whose name is the file name without its last four characters and
/// whose locator is the path. A file that is no audio file, or whose name is
/// shorter than four characters, gives none.
pub open spec fn entry_of(file: ScannedFileView) -> Option<SongView> {
    if is_audio_extension(file.extension) && file.file_name.len() >= 4 {
        Some(
            SongView {
                name: file.file_name.subrange(0, file.file_name.len() - 4),
                file: file.path,
            },
        )
    } else {
        None
    }
}

impl ScannedFile {
    /// The library entry that this file stands for, if it is an audio file.
    pub fn entry(&self) -> (entry: Option<Song>)
        ensures
            match entry {
                Some(song) => entry_of(self@) == Some(song@),
                None => entry_of(self@) is None,
            },
    {
        if !is_audio_file(self.extension.as_str()) {
            return None;
        }
        let length = self.file_name.as_str().unicode_len();
        if length < 4 {
            return None;
        }
        let name = self.file_name.as_str().substring_char(0, length - 4).to_owned();
        Some(Song { name, file: self.path.clone() })
    }
}

} // verus!
