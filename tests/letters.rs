use rustle::{add_letter, classify, has_letter, str_contains};

fn sorted(mut v: Vec<char>) -> Vec<char> {
    v.sort();
    v
}

#[test]
fn classify_splits_letters() {
    let (hits, misses) = classify("hairy", "chair");
    assert_eq!(sorted(hits), vec!['a', 'h', 'i', 'r']);
    assert_eq!(misses, vec!['y']);
}

#[test]
fn classify_twice_gives_the_same_sets() {
    let first = classify("pbldo", "chair");
    let second = classify("pbldo", "chair");
    assert_eq!(first, second);
    assert_eq!(sorted(first.1), vec!['b', 'd', 'l', 'o', 'p']);
}

#[test]
fn classify_is_case_sensitive() {
    let (hits, misses) = classify("Chair", "chair");
    assert_eq!(sorted(hits), vec!['a', 'h', 'i', 'r']);
    assert_eq!(misses, vec!['C']);
}

#[test]
fn classify_empty_word() {
    let (hits, misses) = classify("", "chair");
    assert!(hits.is_empty() && misses.is_empty());
}

#[test]
fn contains_checks() {
    assert!(str_contains("chair", 'r'));
    assert!(!str_contains("chair", 'z'));
    assert!(!str_contains("", 'a'));
    assert!(has_letter(&vec!['a', 'b'], 'b'));
    assert!(!has_letter(&vec![], 'b'));
}

#[test]
fn add_letter_keeps_one_copy() {
    let mut v = vec!['a'];
    add_letter(&mut v, 'b');
    add_letter(&mut v, 'a');
    add_letter(&mut v, 'b');
    assert_eq!(v, vec!['a', 'b']);
}
