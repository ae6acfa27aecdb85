use keystore_import::paths::{destination_dir_exec, file_name_exec, join_exec, relocated_exec};
use std::path::Path;

fn std_file_name(path: &str) -> Option<String> {
    Path::new(path).file_name().and_then(|name| name.to_str()).map(|name| name.to_string())
}

fn std_join(base: &str, name: &str) -> String {
    Path::new(base).join(name).to_str().map(|joined| joined.to_string()).unwrap_or_default()
}

const SAMPLES: [&str; 28] = [
    "",
    "/",
    "//",
    ".",
    "..",
    "./",
    "/.",
    "/..",
    "a",
    "a/",
    "a//",
    "a/.",
    "a/./",
    "a/..",
    "a/b",
    "/a/b",
    "/a/b/",
    "a//b",
    "./a",
    "a/.b",
    "a/b.",
    "a/...",
    ".//.",
    "keystore.json",
    "/tmp/in/keystore-0.json",
    "/tmp/in/keystore-0.json/.",
    "dir/sub/./keystore-1.json//",
    "/tmp/in/ключ-keystore.json",
];

#[test]
fn file_name_agrees_with_std() {
    for path in SAMPLES.iter() {
        assert_eq!(file_name_exec(path), std_file_name(path), "file name of {:?}", path);
    }
}

#[test]
fn file_name_of_plain_file() {
    assert_eq!(file_name_exec("/tmp/in/keystore-0.json"), Some("keystore-0.json".to_string()));
}

#[test]
fn file_name_passes_over_trailing_separators_and_dots() {
    assert_eq!(file_name_exec("a/b//"), Some("b".to_string()));
    assert_eq!(file_name_exec("a/b/."), Some("b".to_string()));
    assert_eq!(file_name_exec("a/b/./"), Some("b".to_string()));
}

#[test]
fn file_name_is_missing_where_nothing_is_named() {
    assert_eq!(file_name_exec(""), None);
    assert_eq!(file_name_exec("/"), None);
    assert_eq!(file_name_exec("."), None);
    assert_eq!(file_name_exec(".."), None);
    assert_eq!(file_name_exec("a/.."), None);
}

#[test]
fn join_agrees_with_std() {
    for base in SAMPLES.iter() {
        for name in SAMPLES.iter() {
            assert_eq!(join_exec(base, name), std_join(base, name), "{:?} joined with {:?}", base, name);
        }
    }
}

#[test]
fn join_puts_one_separator_between() {
    assert_eq!(join_exec("/tmp/vals", "0xabc"), "/tmp/vals/0xabc");
    assert_eq!(join_exec("/tmp/vals/", "0xabc"), "/tmp/vals/0xabc");
    assert_eq!(join_exec("", "0xabc"), "0xabc");
    assert_eq!(join_exec("/tmp/vals", "/etc"), "/etc");
}

#[test]
fn destination_is_root_and_prefixed_identifier() {
    assert_eq!(destination_dir_exec("/tmp/vals", "abc123"), "/tmp/vals/0xabc123");
    assert_eq!(destination_dir_exec("/tmp/vals/", "abc123"), "/tmp/vals/0xabc123");
    assert_eq!(destination_dir_exec("", "abc123"), "0xabc123");
}

#[test]
fn destinations_differ_for_different_identifiers() {
    let ids = ["", "a", "ab", "abc123", "abc124", "0x", "/x", "a/b"];
    for a in ids.iter() {
        for b in ids.iter() {
            if a != b {
                assert_ne!(destination_dir_exec("/tmp/vals", a), destination_dir_exec("/tmp/vals", b));
            }
        }
    }
}

#[test]
fn relocated_keeps_the_file_name() {
    assert_eq!(
        relocated_exec("/tmp/vals/0xabc123", "/tmp/in/keystore-0.json"),
        Some("/tmp/vals/0xabc123/keystore-0.json".to_string())
    );
    assert_eq!(relocated_exec("/tmp/vals/0xabc123", "/tmp/in/.."), None);
    assert_eq!(relocated_exec("/tmp/vals/0xabc123", ""), None);
}
