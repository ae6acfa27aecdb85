use keystore_import::text::{
    chars_of, contains_exec, decimal_exec, ends_with_exec, lex_le_exec, occurs_at_exec, same_text,
};

fn chars(text: &str) -> Vec<char> {
    text.chars().collect()
}

const WORDS: [&str; 12] =
    ["", "a", "b", "ab", "abc", "abd", "b", "ba", "A", "keystore", "z\u{e9}", "z\u{10000}"];

#[test]
fn chars_of_lists_every_character() {
    assert_eq!(chars_of(""), Vec::<char>::new());
    assert_eq!(chars_of("a/b"), vec!['a', '/', 'b']);
    assert_eq!(chars_of("z\u{e9}"), vec!['z', '\u{e9}']);
}

#[test]
fn occurs_at_checks_one_offset() {
    let text = chars("my-keystore.json");
    assert!(occurs_at_exec(&text, &chars("keystore"), 3));
    assert!(!occurs_at_exec(&text, &chars("keystore"), 2));
    assert!(!occurs_at_exec(&text, &chars("keystore"), 9));
    assert!(!occurs_at_exec(&text, &chars("keystore"), 100));
    assert!(occurs_at_exec(&text, &chars(""), 16));
    assert!(!occurs_at_exec(&text, &chars(""), 17));
}

#[test]
fn contains_agrees_with_std() {
    for text in WORDS.iter() {
        for part in WORDS.iter() {
            assert_eq!(contains_exec(&chars(text), &chars(part)), text.contains(part), "{:?} in {:?}", part, text);
        }
    }
}

#[test]
fn ends_with_agrees_with_std() {
    for text in WORDS.iter() {
        for part in WORDS.iter() {
            assert_eq!(ends_with_exec(&chars(text), &chars(part)), text.ends_with(part), "{:?} at the end of {:?}", part, text);
        }
    }
}

#[test]
fn order_agrees_with_std() {
    for a in WORDS.iter() {
        for b in WORDS.iter() {
            assert_eq!(lex_le_exec(&chars(a), &chars(b)), a <= b, "{:?} before {:?}", a, b);
        }
    }
}

#[test]
fn same_text_agrees_with_equality() {
    for a in WORDS.iter() {
        for b in WORDS.iter() {
            assert_eq!(same_text(a, b), a == b);
        }
    }
}

#[test]
fn decimal_writes_numbers_as_std_does() {
    for n in [0usize, 1, 7, 9, 10, 11, 42, 99, 100, 101, 12345, 1_000_000, usize::MAX].iter() {
        assert_eq!(decimal_exec(*n), n.to_string());
    }
}

#[test]
fn decimal_exact_values() {
    assert_eq!(decimal_exec(0), "0");
    assert_eq!(decimal_exec(10), "10");
    assert_eq!(decimal_exec(305), "305");
}
