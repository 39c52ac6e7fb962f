use music_player::api::Api;
use music_player::library::{get_entry, load, save, search, validate, Library, LibraryError};
use music_player::scan::{is_audio_file, ScannedFile};
use music_player::song::Song;

fn entry(name: &str, file: &str) -> Song {
    Song { name: name.to_string(), file: file.to_string() }
}

fn library_of(names: &[&str]) -> Library {
    let mut library = Library::new();
    for name in names {
        library.insert(entry(name, &format!("./data/songs/{}.mp3", name)));
    }
    library
}

fn names(found: &[Song]) -> Vec<String> {
    found.iter().map(|s| s.name.clone()).collect()
}

fn scanned(file_name: &str, extension: &str) -> ScannedFile {
    ScannedFile {
        file_name: file_name.to_string(),
        extension: extension.to_string(),
        path: format!("./data/songs/{}", file_name),
    }
}

#[test]
fn new_library_is_empty() {
    let library = Library::new();
    assert_eq!(library.len(), 0);
    assert!(search("", &library).is_empty());
}

#[test]
fn insert_appends_a_new_name() {
    let mut library = Library::new();
    library.insert(entry("b", "1"));
    library.insert(entry("a", "2"));
    assert_eq!(library.len(), 2);
    assert_eq!(library.entries[0], entry("b", "1"));
    assert_eq!(library.entries[1], entry("a", "2"));
}

#[test]
fn insert_replaces_the_entry_of_the_same_name() {
    let mut library = Library::new();
    library.insert(entry("a", "1"));
    library.insert(entry("b", "2"));
    library.insert(entry("a", "3"));
    assert_eq!(library.len(), 2);
    assert_eq!(library.entries[0], entry("a", "3"));
    assert_eq!(library.entries[1], entry("b", "2"));
    assert_eq!(library.position("a"), Some(0));
    assert_eq!(library.position("b"), Some(1));
    assert_eq!(library.position("c"), None);
}

#[test]
fn search_selects_by_substring() {
    let library = library_of(&["Yesterday", "Yellow Submarine", "Help", "Hey Jude"]);
    assert_eq!(names(&search("ye", &library)), vec!["Yellow Submarine", "Yesterday"]);
    assert_eq!(names(&search("el", &library)), vec!["Help", "Yellow Submarine"]);
    assert_eq!(names(&search("Jude", &library)), vec!["Hey Jude"]);
    assert_eq!(names(&search("Hey Jude", &library)), vec!["Hey Jude"]);
}

#[test]
fn search_sets_letter_case_aside() {
    let library = library_of(&["abba gold", "ABBA LIVE", "Queen"]);
    assert_eq!(names(&search("ABBA", &library)), vec!["abba gold", "ABBA LIVE"]);
    assert_eq!(names(&search("abba", &library)), vec!["abba gold", "ABBA LIVE"]);
    assert_eq!(names(&search("qUEEN", &library)), vec!["Queen"]);
}

#[test]
fn search_with_the_empty_query_reports_all_in_order() {
    let library = library_of(&["delta", "Alpha", "charlie", "Bravo"]);
    let found = search("", &library);
    assert_eq!(names(&found), vec!["Alpha", "Bravo", "charlie", "delta"]);
    assert_eq!(found[0].file, "./data/songs/Alpha.mp3");
}

#[test]
fn search_orders_by_lower_case_name_not_by_raw_name() {
    let library = library_of(&["b", "C", "a", "D"]);
    assert_eq!(names(&search("", &library)), vec!["a", "b", "C", "D"]);
}

#[test]
fn search_keeps_library_order_between_names_that_differ_in_case_only() {
    let library = library_of(&["abc", "ABC", "Abc", "aaa"]);
    assert_eq!(names(&search("", &library)), vec!["aaa", "abc", "ABC", "Abc"]);
    let other = library_of(&["ABC", "abc"]);
    assert_eq!(names(&search("b", &other)), vec!["ABC", "abc"]);
}

#[test]
fn search_orders_a_prefix_before_its_extensions() {
    let library = library_of(&["song two", "song", "song 1"]);
    assert_eq!(names(&search("song", &library)), vec!["song", "song 1", "song two"]);
}

#[test]
fn search_without_a_match_reports_nothing() {
    let library = library_of(&["Help", "Hey Jude"]);
    assert!(search("zz", &library).is_empty());
    assert!(search("Help!", &library).is_empty());
}

#[test]
fn search_lowers_letters_beyond_ascii() {
    let library = library_of(&["ÄRGER", "Ödland"]);
    assert_eq!(names(&search("ärg", &library)), vec!["ÄRGER"]);
    assert_eq!(names(&search("ÖD", &library)), vec!["Ödland"]);
}

#[test]
fn get_entry_finds_by_the_whole_name() {
    let library = library_of(&["Help", "Hey Jude"]);
    assert_eq!(get_entry("Help", &library), Ok(entry("Help", "./data/songs/Help.mp3")));
    assert_eq!(get_entry("Hey Jude", &library), Ok(entry("Hey Jude", "./data/songs/Hey Jude.mp3")));
}

#[test]
fn get_entry_reports_what_is_absent() {
    let library = library_of(&["Help"]);
    assert_eq!(get_entry("help", &library), Err(LibraryError::NotFound));
    assert_eq!(get_entry("Hel", &library), Err(LibraryError::NotFound));
    assert_eq!(get_entry("", &library), Err(LibraryError::NotFound));
    assert_eq!(get_entry("Help", &Library::new()), Err(LibraryError::NotFound));
}

#[test]
fn the_interface_answers_as_the_functions_do() {
    let library = library_of(&["b", "a"]);
    assert_eq!(names(&library.search("")), vec!["a", "b"]);
    assert_eq!(Api::get_entry(&library, "a"), Ok(entry("a", "./data/songs/a.mp3")));
    assert_eq!(Api::get_entry(&library, "z"), Err(LibraryError::NotFound));
}

#[test]
fn from_json_reads_an_object_of_strings() {
    let library = Library::from_json("{\"b\": \"2.mp3\", \"a\": \"1.mp3\"}").unwrap();
    assert_eq!(library.len(), 2);
    assert_eq!(get_entry("a", &library), Ok(entry("a", "1.mp3")));
    assert_eq!(get_entry("b", &library), Ok(entry("b", "2.mp3")));
    assert_eq!(library.entries[0], entry("a", "1.mp3"));
    assert_eq!(library.entries[1], entry("b", "2.mp3"));
}

#[test]
fn from_json_reads_the_empty_object() {
    let library = Library::from_json("{}").unwrap();
    assert_eq!(library.len(), 0);
}

#[test]
fn from_json_keeps_the_later_of_two_equal_keys() {
    let library = Library::from_json("{\"a\": \"1\", \"a\": \"2\"}").unwrap();
    assert_eq!(library.len(), 1);
    assert_eq!(get_entry("a", &library), Ok(entry("a", "2")));
}

#[test]
fn from_json_refuses_what_is_no_object_of_strings() {
    assert_eq!(Library::from_json("").err(), Some(LibraryError::InvalidJson));
    assert_eq!(Library::from_json("[1, 2]").err(), Some(LibraryError::InvalidJson));
    assert_eq!(Library::from_json("{\"a\": 1}").err(), Some(LibraryError::InvalidJson));
    assert_eq!(Library::from_json("{\"a\": \"1\"").err(), Some(LibraryError::InvalidJson));
    assert_eq!(Library::from_json("{\"a\": \"1\"} x").err(), Some(LibraryError::InvalidJson));
}

#[test]
fn from_entries_keeps_the_later_of_two_equal_names() {
    let library = Library::from_entries(vec![entry("a", "1"), entry("b", "2"), entry("a", "3")]);
    assert_eq!(library.len(), 2);
    assert_eq!(library.entries[0], entry("a", "3"));
    assert_eq!(library.entries[1], entry("b", "2"));
}

#[test]
fn save_writes_an_object_from_name_to_locator() {
    let mut library = Library::new();
    library.insert(entry("b", "2.mp3"));
    library.insert(entry("a", "1.mp3"));
    assert_eq!(save(&library), Ok("{\"a\":\"1.mp3\",\"b\":\"2.mp3\"}".to_string()));
    assert_eq!(save(&Library::new()), Ok("{}".to_string()));
}

#[test]
fn save_escapes_what_json_strings_cannot_hold() {
    let mut library = Library::new();
    library.insert(entry("say \"hi\"", "a\\b.mp3"));
    assert_eq!(save(&library), Ok("{\"say \\\"hi\\\"\":\"a\\\\b.mp3\"}".to_string()));
}

#[test]
fn what_was_saved_reads_back() {
    let library = library_of(&["Yesterday", "Help", "Ödland"]);
    let text = save(&library).unwrap();
    let back = Library::from_json(&text).unwrap();
    assert!(validate(&back, &Vec::new()) == false);
    assert_eq!(back.len(), 3);
    for song in &library.entries {
        assert_eq!(get_entry(&song.name, &back), Ok(song.clone()));
    }
    let parsed: std::collections::BTreeMap<String, String> = serde_json::from_str(&text).unwrap();
    assert_eq!(parsed.len(), 3);
    assert_eq!(parsed["Help"], "./data/songs/Help.mp3");
}

#[test]
fn audio_files_are_told_by_their_extension() {
    assert!(is_audio_file("mp3"));
    assert!(is_audio_file("wav"));
    assert!(is_audio_file("flac"));
    assert!(is_audio_file("aac"));
    assert!(!is_audio_file("ogg"));
    assert!(!is_audio_file("mp4"));
    assert!(!is_audio_file("MP3"));
    assert!(!is_audio_file(""));
    assert!(!is_audio_file("mp"));
    assert!(!is_audio_file("mp33"));
    assert!(!is_audio_file("txt"));
}

#[test]
fn an_audio_file_gives_an_entry_named_without_the_last_four_characters() {
    assert_eq!(
        scanned("Help.mp3", "mp3").entry(),
        Some(entry("Help", "./data/songs/Help.mp3"))
    );
    assert_eq!(
        scanned("Help.flac", "flac").entry(),
        Some(entry("Help.", "./data/songs/Help.flac"))
    );
    assert_eq!(
        scanned("Ödland.wav", "wav").entry(),
        Some(entry("Ödland", "./data/songs/Ödland.wav"))
    );
    assert_eq!(scanned(".aac", "aac").entry(), Some(entry("", "./data/songs/.aac")));
}

#[test]
fn other_files_give_no_entry() {
    assert_eq!(scanned("cover.jpg", "jpg").entry(), None);
    assert_eq!(scanned("notes", "").entry(), None);
    assert_eq!(scanned("mp3", "mp3").entry(), None);
}

#[test]
fn load_fills_the_library_from_a_scan() {
    let mut library = library_of(&["old"]);
    let files = vec![
        scanned("Help.mp3", "mp3"),
        scanned("cover.jpg", "jpg"),
        scanned("Yesterday.wav", "wav"),
    ];
    load(&mut library, &files);
    assert_eq!(library.len(), 2);
    assert_eq!(library.entries[0], entry("Help", "./data/songs/Help.mp3"));
    assert_eq!(library.entries[1], entry("Yesterday", "./data/songs/Yesterday.wav"));
    assert_eq!(get_entry("old", &library), Err(LibraryError::NotFound));
}

#[test]
fn load_keeps_the_later_of_two_files_that_give_one_name() {
    let mut library = Library::new();
    let files = vec![
        ScannedFile {
            file_name: "Help.mp3".to_string(),
            extension: "mp3".to_string(),
            path: "./data/songs/a/Help.mp3".to_string(),
        },
        ScannedFile {
            file_name: "Help.wav".to_string(),
            extension: "wav".to_string(),
            path: "./data/songs/b/Help.wav".to_string(),
        },
    ];
    load(&mut library, &files);
    assert_eq!(library.len(), 1);
    assert_eq!(get_entry("Help", &library), Ok(entry("Help", "./data/songs/b/Help.wav")));
}

#[test]
fn validate_accepts_a_library_that_matches_the_scan() {
    let files = vec![scanned("Help.mp3", "mp3"), scanned("Yesterday.wav", "wav")];
    let mut library = Library::new();
    library.insert(entry("Yesterday", "./data/songs/Yesterday.wav"));
    library.insert(entry("Help", "./data/songs/Help.mp3"));
    assert!(validate(&library, &files));
    assert!(validate(&Library::new(), &Vec::new()));
    assert!(validate(&Library::new(), &vec![scanned("cover.jpg", "jpg")]));
}

#[test]
fn validate_refuses_a_library_that_differs_from_the_scan() {
    let files = vec![scanned("Help.mp3", "mp3"), scanned("Yesterday.wav", "wav")];
    let mut missing = Library::new();
    missing.insert(entry("Help", "./data/songs/Help.mp3"));
    assert!(!validate(&missing, &files));
    let mut extra = library_of(&[]);
    extra.insert(entry("Help", "./data/songs/Help.mp3"));
    extra.insert(entry("Yesterday", "./data/songs/Yesterday.wav"));
    extra.insert(entry("Gone", "./data/songs/Gone.mp3"));
    assert!(!validate(&extra, &files));
    let mut moved = Library::new();
    moved.insert(entry("Help", "./elsewhere/Help.mp3"));
    moved.insert(entry("Yesterday", "./data/songs/Yesterday.wav"));
    assert!(!validate(&moved, &files));
    assert!(!validate(&Library::new(), &files));
}
