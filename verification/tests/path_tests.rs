use rsc::path::{file_name_of, joined, parent_of, replaced};
use std::path::Path;

const PATHS: [&str; 34] = [
    "", "/", "//", ".", "./", "./.", "..", "../", "a", "a/", "a/.", "a/..", "a/./", "/a", "//a",
    "/.", "/..", "/./a", "./a", ".//a", "././a", "a/b", "a//b", "a/./b", "a/b/", "a/b/.", "a/b/./.",
    "/data/adb/rsc/rsc.log", ".a", "a.", "...", ".../x", "a/.b/c.", "é/ü.log",
];

#[test]
fn file_names_agree_with_the_standard_library() {
    for p in PATHS {
        let expected = Path::new(p).file_name().map(|n| n.to_str().unwrap().to_string());
        assert_eq!(file_name_of(p), expected, "{:?}", p);
    }
}

#[test]
fn parents_agree_with_the_standard_library() {
    for p in PATHS {
        let expected = Path::new(p).parent().map(|n| n.to_str().unwrap().to_string());
        assert_eq!(parent_of(p), expected, "{:?}", p);
    }
}

#[test]
fn joins_agree_with_the_standard_library() {
    for p in PATHS {
        for name in ["x", "/x", "", "x/y", "."] {
            let expected = Path::new(p).join(name);
            assert_eq!(joined(p, name), expected.to_str().unwrap(), "{:?} {:?}", p, name);
        }
    }
}

#[test]
fn replacements_agree_with_the_standard_library() {
    for p in PATHS {
        let mut expected = Path::new(p).to_path_buf();
        expected.set_file_name("new.log.1");
        assert_eq!(replaced(p, "new.log.1"), expected.to_str().unwrap(), "{:?}", p);
    }
}

#[test]
fn long_paths_are_no_problem() {
    let p = format!("/a{}", "/.".repeat(20000));
    assert_eq!(file_name_of(&p).unwrap(), "a");
}
