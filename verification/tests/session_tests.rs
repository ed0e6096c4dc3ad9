//! Tests of the per-question trial protocol and the quiz orchestration.

use quiz_player::cache::AnswerCache;
use quiz_player::question::Question;
use quiz_player::session::{
    cached_guess, interpret_submission, persist_before_retry, resolve_question, run_quiz,
    SessionError, SubmitVerdict,
};

fn q(stem: &str, options: &[&str], answer: Option<u8>) -> Question {
    Question {
        stem: stem.to_string(),
        options: options.iter().map(|o| o.to_string()).collect(),
        answer,
    }
}

#[test]
fn submission_verdicts() {
    assert_eq!(
        interpret_submission(false, false),
        SubmitVerdict::Accepted { quiz_complete: true }
    );
    assert_eq!(
        interpret_submission(true, true),
        SubmitVerdict::Accepted { quiz_complete: false }
    );
    assert_eq!(interpret_submission(true, false), SubmitVerdict::Rejected);
}

#[test]
fn only_lost_waits_and_lost_sessions_restart_without_persisting() {
    assert!(!persist_before_retry(SessionError::WaitTimeout));
    assert!(!persist_before_retry(SessionError::InvalidSession));
    assert!(persist_before_retry(SessionError::Timeout));
    assert!(persist_before_retry(SessionError::ElementNotFound));
    assert!(persist_before_retry(SessionError::ElementNotInteractable));
    assert!(persist_before_retry(SessionError::Other));
}

#[test]
fn brute_force_tries_indices_in_order_and_stops_at_first_success() {
    let cache = AnswerCache::new();
    let question = q("which letter", &["A", "B", "C"], None);
    let outcomes = vec![false, true, false];
    let (resolved, attempts) = resolve_question(&question, &cache, &outcomes);
    // Exactly two submissions: index 0 fails, index 1 succeeds.
    assert_eq!(attempts, vec![0, 1]);
    assert_eq!(resolved.answer, Some(1));
    assert_eq!(resolved.stem, "which letter");
    assert_eq!(resolved.options, vec!["A", "B", "C"]);
}

#[test]
fn cached_guess_follows_the_text_across_reordering() {
    let mut cache = AnswerCache::new();
    cache.record_if_absent(q("which letter", &["A", "B", "C"], Some(1)));
    // Same stem rendered again with the options shuffled: "B" now sits first.
    let current = q("which letter", &["B", "C", "A"], None);
    assert_eq!(cached_guess(&current, &cache), Some(0));
    let outcomes = vec![true, false, false];
    let (resolved, attempts) = resolve_question(&current, &cache, &outcomes);
    assert_eq!(attempts, vec![0]);
    assert_eq!(resolved.answer, Some(0));
}

#[test]
fn failed_cached_guess_falls_back_to_brute_force() {
    let mut cache = AnswerCache::new();
    // The cache believes "B" is right, but the server now accepts "C".
    cache.record_if_absent(q("drifted", &["A", "B", "C"], Some(1)));
    let current = q("drifted", &["A", "B", "C"], None);
    let outcomes = vec![false, false, true];
    let (resolved, attempts) = resolve_question(&current, &cache, &outcomes);
    assert_eq!(attempts, vec![1, 0, 1, 2]);
    assert_eq!(resolved.answer, Some(2));
}

#[test]
fn unresolved_cache_entry_is_ignored() {
    let mut cache = AnswerCache::new();
    cache.record_if_absent(q("open", &["A", "B"], None));
    let current = q("open", &["A", "B"], None);
    assert_eq!(cached_guess(&current, &cache), None);
    let (resolved, attempts) = resolve_question(&current, &cache, &vec![false, true]);
    assert_eq!(attempts, vec![0, 1]);
    assert_eq!(resolved.answer, Some(1));
}

#[test]
fn malformed_cache_entry_is_ignored() {
    let mut cache = AnswerCache::new();
    // An out-of-range stored index must not be trusted (or panic).
    cache.record_if_absent(q("broken", &["A", "B"], Some(5)));
    let current = q("broken", &["A", "B"], None);
    assert_eq!(cached_guess(&current, &cache), None);
}

#[test]
fn exhausted_options_leave_the_question_unresolved() {
    let cache = AnswerCache::new();
    let question = q("hopeless", &["A", "B", "C"], None);
    let (resolved, attempts) = resolve_question(&question, &cache, &vec![false, false, false]);
    assert_eq!(attempts, vec![0, 1, 2]);
    assert_eq!(resolved.answer, None);
}

#[test]
fn no_options_means_nothing_to_try() {
    let cache = AnswerCache::new();
    let question = q("empty", &[], None);
    let (resolved, attempts) = resolve_question(&question, &cache, &Vec::new());
    assert!(attempts.is_empty());
    assert_eq!(resolved.answer, None);
}

#[test]
fn full_session_fills_the_cache_with_nine_confirmed_answers() {
    let stems = [
        "q one", "q two", "q three", "q four", "q five", "q six", "q seven", "q eight", "q nine",
    ];
    let correct: [usize; 9] = [2, 0, 1, 3, 0, 2, 1, 0, 3];
    let mut questions: Vec<Question> = Vec::new();
    let mut outcomes: Vec<Vec<bool>> = Vec::new();
    for i in 0..9 {
        let options = ["opt a", "opt b", "opt c", "opt d"];
        questions.push(q(stems[i], &options, None));
        outcomes.push((0..4).map(|j| j == correct[i]).collect());
    }
    let mut cache = AnswerCache::new();
    run_quiz(&questions, &outcomes, &mut cache);
    assert_eq!(cache.len(), 9);
    for i in 0..9 {
        let entry = &cache.entries()[i];
        assert_eq!(entry.stem, stems[i]);
        assert_eq!(entry.answer, Some(correct[i] as u8));
    }
}

#[test]
fn session_reuses_an_answer_learned_earlier_in_the_run() {
    // The same stem appears twice with the options reordered: the second
    // encounter must follow the learned text, not the learned position.
    let questions = vec![
        q("repeat", &["A", "B"], None),
        q("repeat", &["B", "A"], None),
    ];
    let outcomes = vec![vec![false, true], vec![true, false]];
    let mut cache = AnswerCache::new();
    run_quiz(&questions, &outcomes, &mut cache);
    assert_eq!(cache.len(), 2);
    assert_eq!(cache.entries()[0].answer, Some(1));
    assert_eq!(cache.entries()[1].answer, Some(0));
    assert_eq!(
        cache.entries()[0].options[1],
        cache.entries()[1].options[0]
    );
}
