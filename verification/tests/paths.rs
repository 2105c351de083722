use tuiplay::path::FilePath;

fn path(s: &str) -> FilePath {
    FilePath::from_text(s)
}

fn some(bytes: Option<Vec<u8>>) -> Option<String> {
    bytes.map(|b| String::from_utf8(b).unwrap())
}

fn name(s: &str) -> Option<String> {
    some(path(s).file_name())
}

fn parent(s: &str) -> Option<String> {
    some(path(s).parent().map(|p| p.bytes))
}

#[test]
fn file_names() {
    assert_eq!(name("/music/a.mp3"), Some("a.mp3".to_string()));
    assert_eq!(name("/music/"), Some("music".to_string()));
    assert_eq!(name("a"), Some("a".to_string()));
    assert_eq!(name("a//b/./"), Some("b".to_string()));
    assert_eq!(name("/"), None);
    assert_eq!(name(""), None);
    assert_eq!(name(".."), None);
    assert_eq!(name("a/.."), None);
    assert_eq!(name("."), None);
    assert_eq!(name("..."), Some("...".to_string()));
}

#[test]
fn parents() {
    assert_eq!(parent("/music/a.mp3"), Some("/music".to_string()));
    assert_eq!(parent("/music"), Some("/".to_string()));
    assert_eq!(parent("/"), None);
    assert_eq!(parent(""), None);
    assert_eq!(parent("a"), Some("".to_string()));
    assert_eq!(parent("a//b"), Some("a".to_string()));
    assert_eq!(parent("a/./b/"), Some("a".to_string()));
    assert_eq!(parent("."), Some("".to_string()));
    assert_eq!(parent("./a"), Some(".".to_string()));
}

#[test]
fn stems_and_extensions() {
    let stem = |s: &str| some(path(s).file_stem());
    let ext = |s: &str| some(path(s).extension());
    assert_eq!(stem("/m/a.b.mp3"), Some("a.b".to_string()));
    assert_eq!(ext("/m/a.b.mp3"), Some("mp3".to_string()));
    assert_eq!(stem(".hidden"), Some(".hidden".to_string()));
    assert_eq!(ext(".hidden"), None);
    assert_eq!(stem("plain"), Some("plain".to_string()));
    assert_eq!(ext("plain"), None);
    assert_eq!(stem("dot."), Some("dot".to_string()));
    assert_eq!(ext("dot."), Some("".to_string()));
    assert_eq!(stem("/"), None);
    assert_eq!(ext(".."), None);
}

#[test]
fn same_paths_have_the_same_components() {
    assert!(path("a/b").same(&path("a//b/")));
    assert!(path("/a/./b").same(&path("/a/b")));
    assert!(path("").same(&path("")));
    assert!(!path("a/b").same(&path("/a/b")));
    assert!(!path("a").same(&path("./a")));
    assert!(!path("a/b").same(&path("a/B")));
    assert!(!path("a/b").same(&path("a")));
    assert!(!path("a/..").same(&path("")));
}

#[test]
fn joined_paths() {
    let joined = |a: &str, b: &str| String::from_utf8(path(a).join(&path(b)).bytes).unwrap();
    assert_eq!(joined("/home/u", "Music"), "/home/u/Music");
    assert_eq!(joined("/home/u/", "Music"), "/home/u/Music");
    assert_eq!(joined("", "Music"), "Music");
    assert_eq!(joined("/home", "/tmp"), "/tmp");
    assert_eq!(joined("a", ""), "a/");
}

#[test]
fn joined_path_lies_in_its_directory() {
    for dir in ["", "/", "/home/u", "/home//u/", "."] {
        let p = path(dir).join(&path("song.ogg"));
        assert_eq!(some(p.file_name()), Some("song.ogg".to_string()));
        assert!(p.parent().unwrap().same(&path(dir)));
    }
}

#[test]
fn parent_has_one_component_less() {
    for p in ["/a/b/c", "a//b", "/a", "x", "./y/"] {
        let all = path(p).spans().len();
        assert_eq!(path(p).parent().unwrap().spans().len(), all - 1);
    }
}

#[test]
fn names_to_show() {
    assert_eq!(path("/m/a.mp3").display_name(), "a.mp3");
    assert_eq!(path("/").display_name(), "/");
    assert_eq!(path("..").display_name(), "..");
    assert_eq!(path("/m/ü").display(), "/m/ü");
    let odd = FilePath { bytes: vec![b'/', b'a', 0xff, b'b'] };
    assert_eq!(odd.display_name(), "a\u{fffd}b");
    assert_eq!(odd.display(), "/a\u{fffd}b");
}

#[test]
fn paths_agree_with_the_standard_library() {
    let all = [
        "", "/", "//", ".", "..", "/.", "/..", "a", "a/", "/a", "/a/", "a/b", "a//b", "./a", "a/.", "a/./b",
        "../a", "a/..", "/a/../b", ".a", "a.", ".a.b", "a.b.c", "a/.b/", "x/y.z/", "./", "././a", "/./a",
    ];
    for x in all {
        let p = path(x);
        let std = std::path::Path::new(x);
        assert_eq!(some(p.file_name()), std.file_name().map(|s| s.to_str().unwrap().to_string()));
        assert_eq!(parent(x), std.parent().map(|s| s.to_str().unwrap().to_string()));
        assert_eq!(some(p.file_stem()), std.file_stem().map(|s| s.to_str().unwrap().to_string()));
        assert_eq!(some(p.extension()), std.extension().map(|s| s.to_str().unwrap().to_string()));
        assert_eq!(p.spans().len(), std.components().count());
        for y in all {
            assert_eq!(p.same(&path(y)), std == std::path::Path::new(y), "{} {}", x, y);
            let joined = String::from_utf8(p.join(&path(y)).bytes).unwrap();
            assert_eq!(joined, std.join(y).to_str().unwrap());
        }
    }
}
