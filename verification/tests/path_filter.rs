use mere::path::backup_file;
use mere::path::has_parent;
use mere::path::is_path_absolute;
use mere::path::is_path_backup;
use mere::path::is_path_hidden;
use mere::path::is_path_valid;
use mere::path::path_join;
use std::path::Component;
use std::path::Path;
use std::path::PathBuf;

const SAMPLES: [&str; 40] = [
    "",
    "/",
    "//",
    ".",
    "..",
    "./",
    "./.",
    "/.",
    "/..",
    "a",
    "/a",
    "/a/",
    "/a//",
    "/a/.",
    "/a/./",
    "/a/..",
    "/a/b",
    "//a//b//",
    "/a/./b",
    "/a/b/.hidden",
    "/a/b/.hidden/",
    "/a/b/4913",
    "/a/b/49130",
    "/a/b/4913/",
    "/a/b/notes.txt~",
    "/a/b/notes.txt~/",
    "/a/b~/c",
    "/a/.b/c",
    "./a",
    ".a",
    "a/b",
    "a/.",
    "../a",
    "/a/b/...",
    "/a/b/..c",
    "/home/user/.mere~",
    "/home/user/file.txt",
    "/tmp/\u{e9}t\u{e9}.txt",
    "/tmp/.\u{e9}t\u{e9}",
    "~",
];

fn std_hidden(p: &str) -> bool {
    match Path::new(p).components().next_back() {
        Some(Component::Normal(n)) => {
            n.to_str().map_or(true, |sn| sn.starts_with('.') || sn == "4913")
        }
        Some(Component::ParentDir) | Some(Component::CurDir) => true,
        _ => false,
    }
}

fn std_backup(p: &str) -> bool {
    Path::new(p).to_string_lossy().ends_with('~')
}

fn std_valid(p: &str) -> bool {
    Path::new(p).is_absolute() && !std_hidden(p) && !std_backup(p)
}

fn std_backup_file(p: &str) -> String {
    let mut backup = PathBuf::new();
    backup.push(Path::new(p).parent().unwrap());
    backup.push(".mere~");
    backup.to_string_lossy().into_owned()
}

#[test]
fn valid_plain_file() {
    assert!(is_path_valid("/home/user/notes.txt"));
    assert!(is_path_valid("/a"));
    assert!(is_path_valid("/a/b/"));
}

#[test]
fn relative_path_is_invalid() {
    assert!(!is_path_valid("home/user/notes.txt"));
    assert!(!is_path_valid("notes.txt"));
    assert!(!is_path_valid(""));
}

#[test]
fn hidden_and_backup() {
    assert!(is_path_hidden("/home/user/.profile"));
    assert!(is_path_hidden("/home/user/4913"));
    assert!(!is_path_hidden("/home/user/49130"));
    assert!(!is_path_hidden("/home/.config/notes"));
    assert!(is_path_backup("/home/user/notes.txt~"));
    assert!(!is_path_backup("/home/user/notes~.txt"));
}

#[test]
fn each_reason_rejects() {
    assert!(!is_path_valid("relative/file"));
    assert!(!is_path_valid("/dir/.hidden"));
    assert!(!is_path_valid("/dir/4913"));
    assert!(!is_path_valid("/dir/file~"));
    assert!(is_path_valid("/dir/file"));
}

#[test]
fn root_alone_is_mirrored() {
    assert!(is_path_valid("/"));
    assert!(is_path_valid("//"));
    assert!(!is_path_hidden("/"));
    assert!(!is_path_hidden("//"));
    assert!(!has_parent("/"));
}

#[test]
fn last_segment_of_dots_is_hidden() {
    assert!(is_path_hidden("/a/.."));
    assert!(is_path_hidden("/.."));
    assert!(is_path_hidden("."));
    assert!(is_path_hidden(".."));
    assert!(!is_path_valid("/a/.."));
    assert!(!is_path_valid("/.."));
}

#[test]
fn path_without_last_segment_is_not_hidden() {
    assert!(!is_path_hidden(""));
    assert!(!is_path_valid(""));
}

#[test]
fn temporary_name_is_never_mirrored() {
    assert!(!is_path_valid("/home/user/.mere~"));
    assert!(is_path_hidden("/home/user/.mere~"));
    assert!(is_path_backup("/home/user/.mere~"));
}

#[test]
fn hidden_agrees_with_std() {
    for p in SAMPLES {
        assert_eq!(is_path_hidden(p), std_hidden(p), "{:?}", p);
    }
}

#[test]
fn backup_agrees_with_std() {
    for p in SAMPLES {
        assert_eq!(is_path_backup(p), std_backup(p), "{:?}", p);
    }
}

#[test]
fn absolute_agrees_with_std() {
    for p in SAMPLES {
        assert_eq!(is_path_absolute(p), Path::new(p).is_absolute(), "{:?}", p);
    }
}

#[test]
fn valid_agrees_with_std() {
    for p in SAMPLES {
        assert_eq!(is_path_valid(p), std_valid(p), "{:?}", p);
    }
}

#[test]
fn parent_agrees_with_std() {
    for p in SAMPLES {
        assert_eq!(has_parent(p), Path::new(p).parent().is_some(), "{:?}", p);
    }
}

#[test]
fn backup_file_agrees_with_std() {
    for p in SAMPLES {
        if has_parent(p) {
            assert_eq!(backup_file(p), std_backup_file(p), "{:?}", p);
        }
    }
}

#[test]
fn backup_file_is_in_the_parent() {
    assert_eq!(backup_file("/home/user/file.txt"), "/home/user/.mere~");
    assert_eq!(backup_file("/file.txt"), "/.mere~");
    assert_eq!(backup_file("/a/b/"), "/a/.mere~");
    assert_eq!(backup_file("file.txt"), ".mere~");
}

#[test]
fn join_agrees_with_std() {
    let names = ["b", "/b", "", "b/c", ".", "x~"];
    for base in SAMPLES {
        for name in names {
            let mut expected = PathBuf::from(base);
            expected.push(name);
            assert_eq!(
                path_join(base, name),
                expected.to_string_lossy().into_owned(),
                "{:?} {:?}",
                base,
                name
            );
        }
    }
}

#[test]
fn join_puts_one_separator() {
    assert_eq!(path_join("/a", "b"), "/a/b");
    assert_eq!(path_join("/a/", "b"), "/a/b");
    assert_eq!(path_join("", "b"), "b");
    assert_eq!(path_join("/a", "/b"), "/b");
}
