use aktags_cloud::paths::{extension, file_name, join_path};
use aktags_cloud::text::{contains, less_than, lowercase, str_equal};
use std::path::{Path, PathBuf};

fn std_file_name(p: &str) -> Option<String> {
    Path::new(p).file_name().map(|n| n.to_string_lossy().into_owned())
}

fn std_extension(p: &str) -> Option<String> {
    Path::new(p).extension().map(|n| n.to_string_lossy().into_owned())
}

const SAMPLES: &[&str] = &[
    "", "/", "//", ".", "..", "./", "../", "a", "a/", "a//", "a/.", "a/./", "a/..", "/a", "/a/b",
    "a/b/c.txt", "foo.txt/.", "foo.txt/.//", "foo.txt/..", ".bashrc", ".a.b", "a.", "a..", "..x",
    "archive.tar.gz", "dir.d/file", "dir.d/.hidden", "/x/y/z.JPG", "a/./b.rs", "./c.md", "name with space.Mp4",
    "ünïcödé.Ü", "x/.../y.z", "...", "a.b/", "a.b/./",
];

#[test]
fn file_name_matches_std_path() {
    for s in SAMPLES {
        assert_eq!(file_name(s), std_file_name(s), "file_name of {:?}", s);
    }
}

#[test]
fn extension_matches_std_path() {
    for s in SAMPLES {
        assert_eq!(extension(s), std_extension(s), "extension of {:?}", s);
    }
}

#[test]
fn file_name_examples() {
    assert_eq!(file_name("foo.txt/.").as_deref(), Some("foo.txt"));
    assert_eq!(file_name("foo.txt/.//").as_deref(), Some("foo.txt"));
    assert_eq!(file_name("foo.txt/.."), None);
    assert_eq!(file_name("/"), None);
    assert_eq!(file_name("a/b/c.txt").as_deref(), Some("c.txt"));
}

#[test]
fn extension_examples() {
    assert_eq!(extension(".bashrc"), None);
    assert_eq!(extension("a.tar.gz").as_deref(), Some("gz"));
    assert_eq!(extension("foo.").as_deref(), Some(""));
    assert_eq!(extension("noext"), None);
}

#[test]
fn join_path_matches_pathbuf_push() {
    let pairs = [
        ("a", "b"),
        ("a/", "b"),
        ("", "b"),
        ("a", "/b"),
        ("/data", "aktags.db"),
        ("/", "x"),
        ("a", ""),
        ("a//", "c/d"),
    ];
    for (base, part) in pairs {
        let expected = PathBuf::from(base).join(part).to_string_lossy().into_owned();
        assert_eq!(join_path(base, part), expected, "join {:?} {:?}", base, part);
    }
    assert_eq!(join_path("/home/u", "graveyard"), "/home/u/graveyard");
}

#[test]
fn lowercase_is_unicode_lowercase() {
    assert_eq!(lowercase("HeLLo"), "hello");
    assert_eq!(lowercase("ÄÖÜ"), "äöü");
    assert_eq!(lowercase("\u{212A}"), "k");
}

#[test]
fn str_equal_compares_text() {
    assert!(str_equal("abc", "abc"));
    assert!(!str_equal("abc", "abd"));
    assert!(!str_equal("abc", "ab"));
    assert!(str_equal("", ""));
}

fn all_strings(alphabet: &[char], max_len: usize) -> Vec<String> {
    let mut out = vec![String::new()];
    let mut frontier = vec![String::new()];
    for _ in 0..max_len {
        let mut next = Vec::new();
        for s in &frontier {
            for c in alphabet {
                let mut t = s.clone();
                t.push(*c);
                next.push(t);
            }
        }
        out.extend(next.iter().cloned());
        frontier = next;
    }
    out
}

#[test]
fn path_functions_match_std_exhaustively() {
    for s in all_strings(&['a', '.', '/'], 7) {
        assert_eq!(file_name(&s), std_file_name(&s), "file_name of {:?}", s);
        assert_eq!(extension(&s), std_extension(&s), "extension of {:?}", s);
    }
}

#[test]
fn join_matches_std_exhaustively() {
    let parts = all_strings(&['a', '/'], 3);
    for base in &parts {
        for part in &parts {
            let expected = PathBuf::from(base).join(part).to_string_lossy().into_owned();
            assert_eq!(join_path(base, part), expected, "join {:?} {:?}", base, part);
        }
    }
}

#[test]
fn text_order_matches_string_ord() {
    let words = all_strings(&['a', 'b', '\u{e9}', '\u{1F600}'], 3);
    for x in &words {
        for y in &words {
            let xv: Vec<char> = x.chars().collect();
            let yv: Vec<char> = y.chars().collect();
            assert_eq!(less_than(&xv, &yv), x < y, "{:?} < {:?}", x, y);
        }
    }
}

#[test]
fn contains_matches_str_contains() {
    let hays = all_strings(&['a', 'b'], 5);
    let needles = all_strings(&['a', 'b'], 3);
    for h in &hays {
        for n in &needles {
            let hv: Vec<char> = h.chars().collect();
            let nv: Vec<char> = n.chars().collect();
            assert_eq!(contains(&hv, &nv), h.contains(n.as_str()), "{:?} in {:?}", n, h);
        }
    }
}
