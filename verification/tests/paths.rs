use std::path::Path;

use compare_dirs::paths::{choose_name, collect_files, counterpart, display_name, excluded};
use compare_dirs::paths::{join_path, trim_end_slashes, WalkEntry};

#[test]
fn names_are_relative_to_the_directory() {
    assert_eq!(display_name("one", "one/a/b.txt", false), "a/b.txt");
    assert_eq!(display_name("/x/one", "/x/one/b", false), "b");
    assert_eq!(display_name(".", "./a", false), "a");
    assert_eq!(display_name("one", "one/.hidden/..x", false), ".hidden/..x");
}

#[test]
fn verbose_names_are_paths() {
    assert_eq!(display_name("one", "one/a/b.txt", true), "one/a/b.txt");
}

#[test]
fn file_elsewhere_keeps_its_path() {
    assert_eq!(display_name("one", "onetwo/a", false), "onetwo/a");
    assert_eq!(display_name("one", "two/a", false), "two/a");
}

#[test]
fn name_is_what_is_left_of_the_path() {
    assert_eq!(choose_name("d/a", Some("a".to_string()), false), "a");
    assert_eq!(choose_name("d/a", Some("a".to_string()), true), "d/a");
    assert_eq!(choose_name("d/a", None, false), "d/a");
}

#[test]
fn counterparts_have_the_same_relative_name() {
    assert_eq!(counterpart("one", "one/a/b.txt", "two"), "two/a/b.txt");
    assert_eq!(counterpart("/x/one", "/x/one/b", "../two"), "../two/b");
    assert_eq!(counterpart("one", "/elsewhere/b", "two"), "/elsewhere/b");
    assert_ne!(counterpart("one", "one/a", "two"), counterpart("one", "one/b", "two"));
}

#[test]
fn paths_are_joined_by_one_slash() {
    assert_eq!(join_path("a", "b"), "a/b");
    assert_eq!(join_path("a/", "b"), "a/b");
    assert_eq!(join_path("", "b"), "b");
    assert_eq!(join_path("a", "/b"), "/b");
    assert_eq!(join_path("a", ""), "a/");
}

#[test]
fn joining_agrees_with_the_standard_library() {
    for base in ["", "a", "a/", "/", "/a/b", "."] {
        for rel in ["", "b", "b/c", "/b", "../b", "."] {
            let expected = Path::new(base).join(rel).display().to_string();
            assert_eq!(join_path(base, rel), expected);
        }
    }
}

fn patterns(texts: &[&str]) -> Vec<String> {
    texts.iter().map(|t| t.to_string()).collect()
}

#[test]
fn names_with_a_pattern_are_excluded() {
    let exclude = patterns(&[".git", "node_modules"]);
    assert!(excluded(".git/config", &exclude));
    assert!(excluded("a/node_modules/b", &exclude));
    assert!(excluded("x.gitignore", &exclude));
    assert!(!excluded("src/git", &exclude));
    assert!(!excluded("", &exclude));
    assert!(excluded("anything", &patterns(&[""])));
    assert!(!excluded("anything", &patterns(&[])));
    assert!(excluded("aab", &patterns(&["ab"])));
}

fn entry(path: &str, readable: bool, is_file: bool) -> WalkEntry {
    WalkEntry { readable, is_file, path: path.to_string() }
}

#[test]
fn regular_files_are_collected_in_order() {
    let entries = vec![
        entry("d", true, false),
        entry("d/b", true, true),
        entry("d/bad", false, false),
        entry("d/a", true, true),
        entry("d/x", false, true),
    ];
    assert_eq!(collect_files("d", &entries, &patterns(&[])), vec![1, 3]);
}

#[test]
fn excluded_files_are_not_collected() {
    let entries = vec![
        entry("tmp/keep", true, true),
        entry("tmp/skip/a", true, true),
        entry("tmp/b", true, true),
    ];
    assert_eq!(collect_files("tmp", &entries, &patterns(&["skip"])), vec![0, 2]);
    assert_eq!(collect_files("tmp", &entries, &patterns(&["tmp"])), vec![0, 1, 2]);
    assert_eq!(collect_files("tmp", &entries, &patterns(&["keep", "b"])), vec![1]);
}

#[test]
fn slashes_at_the_end_are_removed() {
    assert_eq!(trim_end_slashes("a/b//"), "a/b");
    assert_eq!(trim_end_slashes("a/b"), "a/b");
    assert_eq!(trim_end_slashes("///"), "");
    assert_eq!(trim_end_slashes(""), "");
}

#[test]
fn shown_name_leads_back_to_the_file() {
    let paths = [
        "", "/", ".", "..", "a", "a/", "a//", "a/.", "./a", "a/b", "a//b", "a/./b", "./a/b",
        "/a", "/a/b", "//a", "/./a", "ab", "a/b/c/", "../a", "a/../b", ".a", "a/.b/c",
    ];
    for dir in paths {
        for file in paths {
            let name = display_name(dir, file, false);
            if Path::new(file).starts_with(dir) {
                assert_eq!(Path::new(&join_path(dir, &name)), Path::new(file));
                assert!(dir.is_empty() || Path::new(&name).is_relative());
            } else {
                assert_eq!(name, file);
            }
        }
    }
}

#[test]
fn shown_name_is_relative_to_any_directory() {
    assert_eq!(display_name("/", "/a/b", false), "a/b");
    assert_eq!(display_name("/a/", "/a/b", false), "b");
    assert_eq!(display_name("/a", "/a//b", false), "b");
    assert_eq!(display_name("", "/a", false), "/a");
}
