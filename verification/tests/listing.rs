use tundra::common::{clone_paths, is_audio, is_hidden, Entry};
use tundra::file_selector::{path_precedes, rows_for, DirUp, FileButton, FileList, FileSelector};

fn file(dir: &str, name: &str) -> Entry {
    let extension = match name.rfind('.') {
        Some(0) | None => None,
        Some(i) => Some(name[i + 1..].to_string()),
    };
    Entry {
        path: format!("{}/{}", dir, name),
        file_name: Some(name.to_string()),
        extension,
        is_dir: false,
    }
}

fn dir(parent: &str, name: &str) -> Entry {
    let mut e = file(parent, name);
    e.is_dir = true;
    e
}

#[test]
fn audio_extensions_are_the_four_formats() {
    for ext in ["flac", "wav", "mp3", "ogg"] {
        assert!(is_audio(ext));
    }
    for ext in ["txt", "", "FLAC", "mp4", "wave", "xmp3", "mp3x", "og"] {
        assert!(!is_audio(ext));
    }
}

#[test]
fn hidden_means_leading_dot() {
    assert!(is_hidden(&dir("/m", ".git")));
    assert!(is_hidden(&file("/m", ".hidden.wav")));
    assert!(!is_hidden(&dir("/m", "sub")));
    assert!(!is_hidden(&file("/m", "a.b")));
    let nameless = Entry { path: "/".to_string(), file_name: None, extension: None, is_dir: true };
    assert!(!is_hidden(&nameless));
    let empty =
        Entry { path: "/".to_string(), file_name: Some(String::new()), extension: None, is_dir: true };
    assert!(!is_hidden(&empty));
}

#[test]
fn filter_accepts_visible_directories_and_audio_files() {
    assert!(FileList::file_filter(&file("/m", "a.wav")));
    assert!(FileList::file_filter(&file("/m", "a.flac")));
    assert!(!FileList::file_filter(&file("/m", "c.txt")));
    assert!(!FileList::file_filter(&file("/m", "noext")));
    assert!(FileList::file_filter(&dir("/m", "sub")));
    assert!(!FileList::file_filter(&dir("/m", ".cache")));
    // a hidden audio file is still an audio file
    assert!(FileList::file_filter(&file("/m", ".a.mp3")));
    // a hidden directory named like an audio file passes by its extension
    assert!(FileList::file_filter(&dir("/m", ".x.ogg")));
}

#[test]
fn listing_contains_exactly_audio_files_and_visible_directories() {
    let read = vec![
        Some(file("/d", "song.mp3")),
        Some(file("/d", "notes.txt")),
        Some(dir("/d", "album")),
        Some(dir("/d", ".trash")),
    ];
    let listed = FileList::list_dir(&read);
    assert_eq!(listed.files, vec!["/d/song.mp3".to_string(), "/d/album".to_string()]);
}

#[test]
fn listing_skips_unreadable_entries_and_keeps_order() {
    let read = vec![
        None,
        Some(file("/d", "z.ogg")),
        None,
        Some(file("/d", "a.wav")),
        Some(file("/d", "skip.me")),
    ];
    let listed = FileList::list_dir(&read);
    assert_eq!(listed.files, vec!["/d/z.ogg".to_string(), "/d/a.wav".to_string()]);
    assert!(FileList::list_dir(&Vec::new()).files.is_empty());
}

#[test]
fn button_label_is_the_path_relative_to_the_base() {
    let b = FileButton::new("/home/me/music/a.wav".to_string(), "/home/me/music");
    assert_eq!(b.file_path, "/home/me/music/a.wav");
    assert_eq!(b.label, "  a.wav");
    let b = FileButton::new("/elsewhere/a.wav".to_string(), "/home/me");
    assert_eq!(b.label, "  /elsewhere/a.wav");
    let b = FileButton::new("/home/me".to_string(), "/home/me");
    assert_eq!(b.label, "  ");
    let b = FileButton::new("/d/sub/deep/x.ogg".to_string(), "/d");
    assert_eq!(b.label, "  sub/deep/x.ogg");
    let b = FileButton::new("/d/é/ü.ogg".to_string(), "/d/é");
    assert_eq!(b.label, "  ü.ogg");
}

#[test]
fn dir_up_label_shows_the_directory() {
    assert_eq!(DirUp.label("/home/me"), "  /home/me");
    assert_eq!(DirUp.label(""), "  ");
}

#[test]
fn path_order_is_bytewise() {
    assert!(path_precedes("a", "b"));
    assert!(!path_precedes("b", "a"));
    assert!(path_precedes("a", "a"));
    assert!(path_precedes("", "a"));
    assert!(!path_precedes("a", ""));
    assert!(path_precedes("a", "ab"));
    assert!(!path_precedes("ab", "a"));
    assert!(path_precedes("B", "a"));
    assert!(path_precedes("z", "é"));
    for (a, b) in [("x/1", "x/10"), ("abc", "abd"), ("k", "k"), ("é", "z")] {
        assert_eq!(path_precedes(a, b), a.as_bytes() <= b.as_bytes());
    }
}

#[test]
fn file_list_is_sorted_by_path() {
    let read = vec![
        Some(file("/d", "c.wav")),
        Some(file("/d", "readme.md")),
        Some(dir("/d", "b")),
        None,
        Some(file("/d", "a.mp3")),
        Some(dir("/d", ".git")),
    ];
    let rows = FileList::new(&read, "/d");
    let paths: Vec<&str> = rows.iter().map(|r| r.file_path.as_str()).collect();
    assert_eq!(paths, vec!["/d/a.mp3", "/d/b", "/d/c.wav"]);
    let labels: Vec<&str> = rows.iter().map(|r| r.label.as_str()).collect();
    assert_eq!(labels, vec!["  a.mp3", "  b", "  c.wav"]);
}

#[test]
fn rows_for_keeps_the_given_order() {
    let paths = vec!["/d/z.wav".to_string(), "/d/a.wav".to_string()];
    let rows = rows_for(&paths, "/d");
    assert_eq!(rows.len(), 2);
    assert_eq!(rows[0].file_path, "/d/z.wav");
    assert_eq!(rows[0].label, "  z.wav");
    assert_eq!(rows[1].file_path, "/d/a.wav");
}

#[test]
fn selector_starts_with_nothing_selected() {
    let read = vec![Some(file("/d", "b.wav")), Some(file("/d", "a.wav"))];
    let s = FileSelector::new("/d", &read);
    assert_eq!(s.current_dir, "/d");
    assert_eq!(s.selected_file, None);
    assert_eq!(s.search_value, "");
    assert_eq!(s.file_list.len(), 2);
    assert_eq!(s.file_list[0].file_path, "/d/a.wav");
}

#[test]
fn clone_paths_copies_every_path() {
    let paths = vec!["a".to_string(), "".to_string(), "ü".to_string()];
    assert_eq!(clone_paths(&paths), paths);
}

#[test]
fn walk_is_bounded() {
    assert_eq!(tundra::file_selector::WALK_MAX_DEPTH, 100);
    assert_eq!(tundra::file_selector::WALK_MAX_OPEN, 100);
}
