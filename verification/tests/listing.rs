use tuiplay::entries::{is_audio, is_hidden, list_entries, same_text, Entry};
use tuiplay::path::FilePath;

fn path(s: &str) -> FilePath {
    FilePath::from_text(s)
}

fn entry(s: &str, is_dir: bool) -> Entry {
    Entry { path: path(s), is_dir }
}

fn names(entries: &Vec<Entry>) -> Vec<String> {
    entries.iter().map(|e| e.name()).collect()
}

#[test]
fn audio_files_are_known_by_their_extension() {
    for ext in ["mp3", "flac", "ogg", "wav", "m4a", "aac", "opus", "wma", "aiff", "alac"] {
        assert!(is_audio(&path(&format!("/m/song.{}", ext))));
        assert!(is_audio(&path(&format!("/m/song.{}", ext.to_uppercase()))));
    }
    assert!(is_audio(&path("a.tar.Mp3")));
    for other in ["song.txt", "song", ".mp3", "mp3", "song.mp3.bak", "song.mp33", "song.", "/m.mp3/.."] {
        assert!(!is_audio(&path(other)), "{}", other);
    }
    assert!(!is_audio(&FilePath { bytes: vec![b'a', b'.', 0xff] }));
}

#[test]
fn hidden_files_begin_with_a_dot() {
    assert!(is_hidden(&path("/m/.cache")));
    assert!(is_hidden(&path(".a.mp3")));
    assert!(is_hidden(&path("/m/...")));
    assert!(!is_hidden(&path("/m/a.mp3")));
    assert!(!is_hidden(&path("/.m/a")));
    assert!(!is_hidden(&path("..")));
    assert!(!is_hidden(&FilePath { bytes: vec![b'.', 0xff] }));
}

#[test]
fn directories_come_first_and_each_part_is_in_order() {
    let found = vec![
        entry("/m/b.mp3", false),
        entry("/m/Zoo", true),
        entry("/m/A.flac", false),
        entry("/m/cover.jpg", false),
        entry("/m/apes", true),
        entry("/m/.git", true),
        entry("/m/.x.mp3", false),
        entry("/m/C.OGG", false),
    ];
    let shown = list_entries(&found);
    assert_eq!(names(&shown), ["apes", "Zoo", "A.flac", "b.mp3", "C.OGG"]);
    let dirs: Vec<bool> = shown.iter().map(|e| e.is_dir).collect();
    assert_eq!(dirs, [true, true, false, false, false]);
}

#[test]
fn names_that_differ_in_case_only_stay_as_they_stood() {
    let found = vec![entry("/m/a.mp3", false), entry("/m/A.mp3", false), entry("/m/0.mp3", false)];
    assert_eq!(names(&list_entries(&found)), ["0.mp3", "a.mp3", "A.mp3"]);
    let other = vec![entry("/m/A.mp3", false), entry("/m/0.mp3", false), entry("/m/a.mp3", false)];
    assert_eq!(names(&list_entries(&other)), ["0.mp3", "A.mp3", "a.mp3"]);
}

#[test]
fn order_is_that_of_lower_case_bytes() {
    let found = vec![
        entry("/m/é.mp3", false),
        entry("/m/z.mp3", false),
        entry("/m/_.mp3", false),
        entry("/m/ÀB.mp3", false),
        entry("/m/àa.mp3", false),
        entry("/m/a b.mp3", false),
        entry("/m/a.mp3", false),
        entry("/m/10.mp3", false),
        entry("/m/9.mp3", false),
    ];
    let mut expected: Vec<String> = names(&found);
    expected.sort_by_key(|n| n.to_lowercase());
    assert_eq!(names(&list_entries(&found)), expected);
    assert_eq!(expected[0], "10.mp3");
    assert_eq!(expected[8], "é.mp3");
}

#[test]
fn many_entries_are_sorted() {
    let mut found = Vec::new();
    let mut n: u32 = 7;
    for _ in 0..200 {
        n = n.wrapping_mul(1103515245).wrapping_add(12345);
        found.push(entry(&format!("/m/{}.mp3", n % 97), false));
    }
    let mut expected: Vec<String> = names(&found);
    expected.sort_by_key(|s| s.to_lowercase());
    assert_eq!(names(&list_entries(&found)), expected);
}

#[test]
fn empty_directory_shows_nothing() {
    assert_eq!(list_entries(&Vec::new()).len(), 0);
}

#[test]
fn texts_are_the_same_or_not() {
    assert!(same_text("", ""));
    assert!(same_text("é", "é"));
    assert!(!same_text("a", "b"));
    assert!(!same_text("a", "ab"));
}

#[test]
fn order_on_the_disk_does_not_matter() {
    let one = vec![entry("/m/c.mp3", false), entry("/m/a", true), entry("/m/B.ogg", false), entry("/m/A.ogg", false)];
    let two = vec![entry("/m/A.ogg", false), entry("/m/B.ogg", false), entry("/m/c.mp3", false), entry("/m/a", true)];
    assert_eq!(names(&list_entries(&one)), names(&list_entries(&two)));
    assert_eq!(names(&list_entries(&one)), ["a", "A.ogg", "B.ogg", "c.mp3"]);
}
