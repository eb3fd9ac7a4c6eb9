use git_notes::git::{GitOutput, GitReply};
use git_notes::paths::{
    directory_of, path_parent, relative_name, relative_path, repo_root_for_uri, resolve_file,
    strip_prefix,
};
use std::path::Path;

const PATHS: [&str; 26] = [
    "", "/", "//", ".", "./", "..", "a", "a/", "/a", "/a/", "a/b", "/a/b", "/a/b/", "//a//b//",
    "/a/./b", "./a", "./a/.", "a/.", "/.", "/./", "/..", "a/../b", "/a/b/c.rs", ".a", "/ab", "a//",
];

#[test]
fn parents_agree_with_std() {
    for p in PATHS {
        let theirs = Path::new(p).parent().map(|q| q.to_str().unwrap().as_bytes().to_vec());
        assert_eq!(path_parent(p.as_bytes()), theirs, "{:?}", p);
    }
}

#[test]
fn stripping_agrees_with_std() {
    for p in PATHS {
        for base in PATHS {
            let theirs = Path::new(p)
                .strip_prefix(base)
                .ok()
                .map(|q| q.to_str().unwrap().as_bytes().to_vec());
            assert_eq!(strip_prefix(p.as_bytes(), base.as_bytes()), theirs, "{:?} {:?}", p, base);
        }
    }
}

#[test]
fn files_are_named_from_their_directory() {
    assert_eq!(strip_prefix(b"/r/s/src/x.rs", b"/r/s"), Some(b"src/x.rs".to_vec()));
    assert_eq!(strip_prefix(b"/r/s/src/x.rs", b"/r/s/"), Some(b"src/x.rs".to_vec()));
    assert_eq!(strip_prefix(b"/r/s", b"/r/s"), Some(Vec::new()));
}

#[test]
fn like_names_are_not_in_the_directory() {
    assert_eq!(strip_prefix(b"/foo/barmain.rs", b"/foo/bar"), None);
    assert_eq!(strip_prefix(b"/foo/bar2/x", b"/foo/bar"), None);
}

#[test]
fn files_are_in_their_directory() {
    assert_eq!(path_parent(b"/r/s/x.rs"), Some(b"/r/s".to_vec()));
    assert_eq!(path_parent(b"/x.rs"), Some(b"/".to_vec()));
    assert_eq!(path_parent(b"/"), None);
}

#[test]
fn directories_have_to_be_text() {
    assert_eq!(directory_of(b"/\xc3\xa9/x").as_deref(), Some("/\u{e9}"));
    assert_eq!(directory_of(b"/\xff/x"), None);
    assert_eq!(directory_of(b"/d/\xff").as_deref(), Some("/d"));
}

#[test]
fn names_that_are_no_text_are_shown_with_replacements() {
    assert_eq!(relative_name(b"/d/a\xffb", "/d").as_deref(), Some("a\u{fffd}b"));
    assert_eq!(relative_path("file:///d/a%FFb", "/d").as_deref(), Some("a\u{fffd}b"));
}

#[test]
fn uris_are_decoded() {
    assert_eq!(relative_path("file:///a%20b/c%C3%A9.rs", "/a b").as_deref(), Some("c\u{e9}.rs"));
    assert_eq!(relative_path("http://example.com/a", "/"), None);
    assert_eq!(relative_path("no uri", "/"), None);
    assert_eq!(relative_path("file:///a/b", "/c"), None);
}

#[test]
fn git_is_asked_for_the_repository() {
    assert_eq!(
        repo_root_for_uri("file:///home/u/p/src/main.rs").unwrap(),
        ["-C", "/home/u/p/src", "rev-parse", "--show-toplevel"]
    );
    assert_eq!(repo_root_for_uri("untitled:x"), None);
    assert_eq!(repo_root_for_uri("file:///"), None);
    assert_eq!(repo_root_for_uri("file:///%FF/x"), None);
}

fn exited(success: bool, stdout: &str) -> GitReply {
    GitReply::Exited(GitOutput { success, stdout: stdout.as_bytes().to_vec(), stderr: Vec::new() })
}

#[test]
fn files_are_resolved() {
    let uri = "file:///home/u/p/src/main.rs";
    assert_eq!(
        resolve_file(uri, &exited(true, "/home/u/p\n")),
        Some(("/home/u/p".to_string(), "src/main.rs".to_string()))
    );
    assert_eq!(resolve_file(uri, &exited(true, "/elsewhere\n")), None);
    assert_eq!(resolve_file(uri, &exited(false, "/home/u/p\n")), None);
    assert_eq!(resolve_file(uri, &GitReply::NotStarted("gone".to_string())), None);
}

#[test]
fn paths_without_a_root_are_left_to_the_platform() {
    assert_eq!(directory_of(b"a/b").as_deref(), Some("a"));
    assert_eq!(directory_of(b""), None);
    assert_eq!(directory_of(b"\xff/b"), None);
    assert_eq!(relative_name(b"a/b//c", "a").as_deref(), Some("b//c"));
    assert_eq!(relative_name(b"a/b", "c"), None);
    assert_eq!(relative_name(b"a/\xff", "a"), None);
}
