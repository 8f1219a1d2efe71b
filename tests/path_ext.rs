use pathext::PathExt;

use std::ops::Not;
use std::path::{Path, PathBuf};

#[test]
fn test_ends_with_extensions() {
    let archive_path = Path::new("archive.tar.gz");
    assert!(archive_path.ends_with_extensions(".tar.gz"));
    assert!(archive_path.ends_with_extensions("tar.gz"));
    assert!(archive_path.ends_with_extensions(".gz"));
    assert!(archive_path.ends_with_extensions("z"));
    assert!(archive_path.ends_with_extensions("archive.tar.gz"));
}

#[test]
fn test_strip_extensions() {
    let tests = &[
        (".stuff", Some("")),
        ("something.tar.gz", Some("something")),
        ("areally-cool.attempt.js", Some("areally-cool")),
        ("lastdot.", Some("lastdot")),
    ];

    for test_case in tests {
        assert_eq!(test_case.0.strip_extensions(), test_case.1);
        assert_eq!(Path::new(test_case.0).strip_extensions(), test_case.1);
    }
}

#[test]
fn test_contains() {
    let tests = &[(
        "/opt/somewhere/someplace/somehow/",
        vec![
            ("opt", true),
            ("/opt", true),
            ("somewhere", true),
            ("/someplace/somehow", true),
            ("someplace/somehow/", true),
            ("root", false),
        ],
    )];

    for test_case in tests {
        for test in test_case.1.iter() {
            assert_eq!(PathExt::contains(test_case.0, test.0), test.1);
            let p = Path::new(test_case.0);
            assert_eq!(p.contains(test.0), test.1);
            let pb = PathBuf::from(test_case.0);
            assert_eq!(pb.contains(test.0), test.1);
        }
    }
}

#[test]
fn test_has_component() {
    let tests = &[(
        "/opt/somewhere/someplace/",
        vec![
            ("opt", true),
            ("somewhere", true),
            ("someplace/", false),
            ("root", false),
        ],
    )];

    for test_case in tests {
        for test in test_case.1.iter() {
            assert_eq!(test_case.0.has_component(test.0), test.1);
            let p = Path::new(test_case.0);
            assert_eq!(p.has_component(test.0), test.1);
            let pb = PathBuf::from(test_case.0);
            assert_eq!(pb.has_component(test.0), test.1);
        }
    }
}

#[test]
fn test_starts_or_ends_with() {
    let tests = &[(
        "/opt/somewhere/someplace/somehow/",
        vec![
            ("opt", false),
            ("/opt", true),
            ("somewhere", false),
            ("someplace/somehow", false),
            ("someplace/somehow/", true),
            ("root", false),
        ],
    )];

    for test_case in tests {
        for test in test_case.1.iter() {
            assert_eq!(test_case.0.starts_or_ends_with(test.0), test.1);
            let p = Path::new(test_case.0);
            assert_eq!(p.starts_or_ends_with(test.0), test.1);
            let pb = PathBuf::from(test_case.0);
            assert_eq!(pb.starts_or_ends_with(test.0), test.1);
        }
    }
}

#[test]
fn test_strip_prefix_if_needed() {
    let tests = &[(
        "/usr/local/aardvark",
        vec![
            ("/usr/local", "aardvark"),
            ("/usr/", "local/aardvark"),
            ("/repos/local/", "/usr/local/aardvark"),
        ],
    )];

    for test_case in tests {
        for test in test_case.1.iter() {
            let expected = Path::new(test.1);
            assert_eq!(test_case.0.strip_prefix_if_needed(test.0), expected);
            let p = Path::new(test_case.0);
            assert_eq!(p.strip_prefix_if_needed(test.0), expected);
            let pb = PathBuf::from(test_case.0);
            assert_eq!(pb.strip_prefix_if_needed(test.0), expected);
        }
    }
}

#[test]
fn contained_but_not_a_component() {
    let p = Path::new("/opt/somewhere/someplace/somehow/");
    assert!(p.contains("/someplace/somehow"));
    assert!(p.has_component("/someplace/somehow").not());
    assert!(p.has_component("someplace"));
    assert!(p.has_component("some").not());
}

#[test]
fn empty_pattern_is_contained() {
    assert!(PathExt::contains("", ""));
    assert!(PathExt::contains("/a/b", ""));
    assert!(Path::new("").contains(""));
    assert!(Path::new("x").starts_or_ends_with(""));
    assert!(Path::new("x").ends_with_extensions(""));
}

#[test]
fn ends_with_extensions_is_textual() {
    let p = Path::new("archive.tar.gz");
    assert!(p.ends_with(".tar.gz").not());
    assert!(p.ends_with_extensions(".tar.gz"));
    assert!(p.ends_with_extensions("tar").not());
    assert!(p.ends_with_extensions("xarchive.tar.gz").not());
    assert!("archive.tar.gz".ends_with_extensions("gz"));
}

#[test]
fn strip_extensions_without_dot() {
    assert_eq!("/usr/bin/ls".strip_extensions(), Some("/usr/bin/ls"));
    assert_eq!(Path::new("README").strip_extensions(), Some("README"));
    assert_eq!("".strip_extensions(), Some(""));
}

#[test]
fn strip_extensions_scans_whole_text() {
    assert_eq!("/home/user/.config/app".strip_extensions(), Some("/home/user/"));
    assert_eq!("dir.d/file".strip_extensions(), Some("dir"));
    assert_eq!("é.txt".strip_extensions(), Some("é"));
}

#[test]
fn strip_unmatched_prefix_twice() {
    let p = Path::new("/usr/local/aardvark");
    let once = p.strip_prefix_if_needed("/repos/local/");
    let twice = once.strip_prefix_if_needed("/repos/local/");
    assert_eq!(once, p);
    assert_eq!(twice, p);
}

#[test]
fn strip_prefix_by_whole_components() {
    let p = Path::new("/usr/local/aardvark");
    assert_eq!(p.strip_prefix_if_needed("/usr/loc"), p);
    assert_eq!(p.strip_prefix_if_needed(""), p);
    assert_eq!(p.strip_prefix_if_needed("/usr/local/aardvark"), Path::new(""));
    assert_eq!("a/b".strip_prefix_if_needed("a"), Path::new("b"));
}

#[test]
fn starts_or_ends_with_scenario() {
    let p = "/opt/somewhere/someplace/somehow/";
    assert!(p.starts_or_ends_with("/opt"));
    assert!(p.starts_or_ends_with("somehow/"));
    assert!(p.starts_or_ends_with("someplace/somehow/"));
    assert!(p.starts_or_ends_with("somehow").not());
    assert!(p.starts_or_ends_with("opt").not());
    assert!(p.starts_or_ends_with("/opt/somewhere/someplace/somehow/x").not());
}

#[test]
fn empty_inputs_return_values() {
    let empty = Path::new("");
    assert!(empty.contains("a").not());
    assert!(empty.has_component("").not());
    assert!(empty.has_component("a").not());
    assert!(empty.starts_or_ends_with("a").not());
    assert!(empty.ends_with_extensions("a").not());
    assert_eq!(empty.strip_extensions(), Some(""));
    assert_eq!(empty.strip_prefix_if_needed(""), Path::new(""));
    assert_eq!(empty.strip_prefix_if_needed("/a"), Path::new(""));
}

#[test]
fn root_and_current_dir_components() {
    assert!("/a".has_component("/"));
    assert!("./a".has_component("."));
    assert!("a/./b".has_component(".").not());
    assert!("a//b/".has_component("b"));
    assert!("a/../b".has_component(".."));
}
