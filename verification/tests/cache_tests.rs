//! Tests of question normalisation and the answer cache.

use quiz_player::cache::AnswerCache;
use quiz_player::question::{strip_option_prefix, Question};

fn q(stem: &str, options: &[&str], answer: Option<u8>) -> Question {
    Question {
        stem: stem.to_string(),
        options: options.iter().map(|o| o.to_string()).collect(),
        answer,
    }
}

#[test]
fn from_texts_normalises_stem_and_options() {
    let raws = vec!["1. Alpha".to_string(), "2. Beta".to_string()];
    let built = Question::from_texts(" What\t is \n it? ", &raws);
    assert_eq!(built.stem, "Whatisit?");
    assert_eq!(built.options, vec!["Alpha".to_string(), "Beta".to_string()]);
    assert_eq!(built.answer, None);
}

#[test]
fn from_texts_keeps_non_ascii_whitespace() {
    // Only ASCII whitespace is stripped; an ideographic space stays.
    let built = Question::from_texts("全民 國防\u{3000}問題", &Vec::new());
    assert_eq!(built.stem, "全民國防\u{3000}問題");
    assert!(built.options.is_empty());
}

#[test]
fn option_prefix_shorter_than_three_chars_yields_empty() {
    assert_eq!(strip_option_prefix("ab"), "");
    assert_eq!(strip_option_prefix("abc"), "");
    assert_eq!(strip_option_prefix("abcd"), "d");
}

#[test]
fn lookup_on_empty_cache_finds_nothing() {
    let cache = AnswerCache::new();
    assert!(cache.lookup("anything").is_none());
    assert_eq!(cache.len(), 0);
}

#[test]
fn record_then_lookup_returns_the_resolved_question() {
    let mut cache = AnswerCache::new();
    cache.record_if_absent(q("stem one", &["x", "y"], Some(1)));
    let found = cache.lookup("stem one").expect("stem should be cached");
    assert_eq!(found.stem, "stem one");
    assert_eq!(found.answer, Some(1));
    // The resolved option text is the recorded one.
    assert_eq!(found.options[found.answer.unwrap() as usize], "y");
    assert!(cache.lookup("stem two").is_none());
}

#[test]
fn lookup_returns_the_first_of_duplicate_stems() {
    let mut cache = AnswerCache::new();
    cache.record_if_absent(q("dup", &["a", "b"], Some(0)));
    cache.record_if_absent(q("dup", &["a", "b"], Some(1)));
    let found = cache.lookup("dup").unwrap();
    assert_eq!(found.answer, Some(0));
    assert_eq!(cache.len(), 2);
}

#[test]
fn bulk_round_trip_preserves_entries_in_order() {
    let loaded = vec![q("s1", &["a"], Some(0)), q("s2", &["b", "c"], None)];
    let cache = AnswerCache::from_entries(loaded);
    assert_eq!(cache.len(), 2);
    let entries = cache.entries();
    assert_eq!(entries[0].stem, "s1");
    assert_eq!(entries[1].stem, "s2");
    assert_eq!(entries[1].answer, None);
}
