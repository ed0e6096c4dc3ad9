//! The per-question trial protocol and the quiz orchestration: consult the
//! cache, submit the cached guess first, fall back to brute-force trial of
//! every index in order, and record the resolved question.

use crate::cache::{spec_lookup, AnswerCache};
use crate::question::{clone_options, first_text_match, lemma_first_text_match, Question};
use crate::text::str_eq;
use vstd::prelude::*;

verus! {

/// How the page answered one click on an answer control.  A missing
/// "continue" control means the quiz is already complete and the guess is
/// deemed correct without further evidence; a clickable one confirms the
/// guess; one that exists but cannot be clicked is evidence of a wrong
/// answer.
#[derive(Clone, Copy, Debug, PartialEq, Eq, Structural)]
pub enum SubmitVerdict {
    /// The guess is deemed correct; `quiz_complete` says the page no longer
    /// offers a "continue" control at all.
    Accepted { quiz_complete: bool },
    /// Wrong answer: the caller clicks the retry control and reports failure
    /// for this index.
    Rejected,
}

/// Interprets the page's reaction to one submitted guess: whether a
/// "continue" control was found, and whether clicking it succeeded.
pub fn interpret_submission(continue_found: bool, continue_clicked: bool) -> (v: SubmitVerdict)
    ensures
        v == (if !continue_found {
            SubmitVerdict::Accepted { quiz_complete: true }
        } else if continue_clicked {
            SubmitVerdict::Accepted { quiz_complete: false }
        } else {
            SubmitVerdict::Rejected
        }),
{
    if !continue_found {
        SubmitVerdict::Accepted { quiz_complete: true }
    } else if continue_clicked {
        SubmitVerdict::Accepted { quiz_complete: false }
    } else {
        SubmitVerdict::Rejected
    }
}

/// The error kinds a failed session surfaces to the outer driving loop.
#[derive(Clone, Copy, Debug, PartialEq, Eq, Structural)]
pub enum SessionError {
    /// A wait on a page condition timed out.
    WaitTimeout,
    /// A single command timed out; the session may be retried as it is.
    Timeout,
    /// A structurally required element (start control, question stem) was
    /// missing.
    ElementNotFound,
    /// The browser session was lost or invalidated.
    InvalidSession,
    /// An element was found but could not be operated.
    ElementNotInteractable,
    /// Any other failure.
    Other,
}

/// Whether the outer loop, after this failure, first persists any cache
/// growth before restarting.  A timed-out wait or a lost session restarts
/// at once; after every other failure the freshly learned answers reach the
/// store first.
pub open spec fn spec_persist_before_retry(e: SessionError) -> bool {
    !(e == SessionError::WaitTimeout || e == SessionError::InvalidSession)
}

/// Classifies a failed session for the outer driving loop.
pub fn persist_before_retry(e: SessionError) -> (b: bool)
    ensures
        b == spec_persist_before_retry(e),
{
    match e {
        SessionError::WaitTimeout => false,
        SessionError::InvalidSession => false,
        _ => true,
    }
}

/// The first index whose submission outcome is a success.
pub open spec fn first_true(outcomes: Seq<bool>) -> Option<int>
    decreases outcomes.len(),
{
    if outcomes.len() == 0 {
        None
    } else if outcomes.first() {
        Some(0)
    } else {
        match first_true(outcomes.drop_first()) {
            Some(k) => Some(k + 1),
            None => None,
        }
    }
}

/// What `first_true` returns: the first successful index, or nothing when
/// every outcome is a failure.
pub proof fn lemma_first_true(outcomes: Seq<bool>)
    ensures
        match first_true(outcomes) {
            Some(k) => {
                &&& 0 <= k < outcomes.len()
                &&& outcomes[k]
                &&& forall|j: int| 0 <= j < k ==> !outcomes[j]
            },
            None => forall|j: int| 0 <= j < outcomes.len() ==> !outcomes[j],
        },
    decreases outcomes.len(),
{
    if outcomes.len() > 0 && !outcomes.first() {
        lemma_first_true(outcomes.drop_first());
        assert(forall|j: int|
            1 <= j < outcomes.len() ==> outcomes[j] == outcomes.drop_first()[j - 1]);
    }
}

/// The index the cache suggests for the current rendering: the first
/// current option whose text equals the cached entry's resolved option
/// text.  Nothing when the stem is unknown, the cached entry is unresolved
/// or malformed, or no current option carries that text.
pub open spec fn spec_guess_idx(
    stem: Seq<char>,
    options: Seq<String>,
    entries: Seq<Question>,
) -> Option<int> {
    match spec_lookup(entries, stem) {
        None => None,
        Some(e) => match e.answer {
            None => None,
            Some(a) => if (a as int) < e.options@.len() {
                first_text_match(options, e.options@[a as int]@)
            } else {
                None
            },
        },
    }
}

/// The answer index the trial protocol resolves to: the cached guess when
/// submitting it succeeds, otherwise the first index whose submission
/// succeeds, if any.
pub open spec fn spec_answer(
    stem: Seq<char>,
    options: Seq<String>,
    entries: Seq<Question>,
    outcomes: Seq<bool>,
) -> Option<int> {
    match spec_guess_idx(stem, options, entries) {
        Some(g) => if 0 <= g < outcomes.len() && outcomes[g] {
            Some(g)
        } else {
            first_true(outcomes)
        },
        None => first_true(outcomes),
    }
}

/// The indices the trial protocol submits, in order: the cached guess first
/// when there is one, then — unless that guess succeeded — every index from
/// zero upward, stopping at the first success.
pub open spec fn spec_attempts(
    stem: Seq<char>,
    options: Seq<String>,
    entries: Seq<Question>,
    outcomes: Seq<bool>,
) -> Seq<int> {
    let brute = match first_true(outcomes) {
        Some(k) => Seq::new((k + 1) as nat, |i: int| i),
        None => Seq::new(outcomes.len(), |i: int| i),
    };
    match spec_guess_idx(stem, options, entries) {
        Some(g) => if 0 <= g < outcomes.len() && outcomes[g] {
            seq![g]
        } else {
            seq![g] + brute
        },
        None => brute,
    }
}

/// Relates the stored `u8` answer to the mathematical answer index.
pub open spec fn answer_matches(a: Option<u8>, k: Option<int>) -> bool {
    match k {
        Some(ki) => a == Some(ki as u8),
        None => a is None,
    }
}

/// Consults the cache for the current question: the first index in the
/// current option ordering whose text equals the cached correct option's
/// text.  The answer identity is the option text, not its position, because
/// the page renders the options in a fresh order each time.
pub fn cached_guess(q: &Question, cache: &AnswerCache) -> (g: Option<u8>)
    requires
        q.options@.len() <= 255,
    ensures
        match g {
            Some(i) => {
                &&& spec_guess_idx(q.stem@, q.options@, cache@) == Some(i as int)
                &&& (i as int) < q.options@.len()
            },
            None => spec_guess_idx(q.stem@, q.options@, cache@) is None,
        },
{
    let entry = match cache.lookup(q.stem.as_str()) {
        Some(e) => e,
        None => {
            return None;
        },
    };
    let a = match entry.answer {
        Some(a) => a,
        None => {
            return None;
        },
    };
    let ai = a as usize;
    if ai >= entry.options.len() {
        return None;
    }
    let target = &entry.options[ai];
    let ghost fm = first_text_match(q.options@, target@);
    let n = q.options.len();
    let mut i: usize = 0;
    while i < n
        invariant
            n == q.options@.len(),
            n <= 255,
            i <= n,
            fm == first_text_match(q.options@, target@),
            spec_guess_idx(q.stem@, q.options@, cache@) == fm,
            forall|j: int| 0 <= j < i ==> q.options@[j]@ != target@,
        decreases n - i,
    {
        if str_eq(q.options[i].as_str(), target.as_str()) {
            proof {
                lemma_first_text_match(q.options@, target@);
            }
            return Some(i as u8);
        }
        i += 1;
    }
    proof {
        lemma_first_text_match(q.options@, target@);
    }
    None
}

/// Law: record a resolved question under a stem the cache does not yet
/// know; then for any later rendering of that stem whose options carry the
/// resolved option text somewhere — in whatever order — the cached guess
/// points at an option holding exactly that text.
pub proof fn lemma_cached_guess_stable(entries: Seq<Question>, q: Question, current: Seq<String>)
    requires
        q.wf(),
        q.answer is Some,
        spec_lookup(entries, q.stem@) is None,
        exists|i: int| 0 <= i < current.len() && current[i]@ == q.resolved_text(),
    ensures
        ({
            let g = spec_guess_idx(q.stem@, current, entries.push(q));
            &&& g is Some
            &&& 0 <= g->0 < current.len()
            &&& current[g->0]@ == q.resolved_text()
        }),
{
    crate::cache::lemma_lookup_stable(entries, q);
    lemma_first_text_match(current, q.resolved_text());
}

/// The answer selection and brute-force trial for one question, run against
/// a table of submission outcomes: `outcomes[i]` is whether submitting
/// index `i` is accepted.  Returns the resolved question (same stem and
/// options, answer set to the first confirmed index, if any) together with
/// the indices submitted, in order.
pub fn resolve_question(q: &Question, cache: &AnswerCache, outcomes: &Vec<bool>) -> (r: (
    Question,
    Vec<u8>,
))
    requires
        q.options@.len() <= 255,
        outcomes@.len() == q.options@.len(),
    ensures
        r.0.stem == q.stem,
        r.0.options@ == q.options@,
        r.0.wf(),
        answer_matches(r.0.answer, spec_answer(q.stem@, q.options@, cache@, outcomes@)),
        r.1@.len() == spec_attempts(q.stem@, q.options@, cache@, outcomes@).len(),
        forall|j: int|
            0 <= j < r.1@.len() ==> r.1@[j] as int == spec_attempts(
                q.stem@,
                q.options@,
                cache@,
                outcomes@,
            )[j],
{
    let ghost sg = spec_guess_idx(q.stem@, q.options@, cache@);
    let ghost satt = spec_attempts(q.stem@, q.options@, cache@, outcomes@);
    let mut attempts: Vec<u8> = Vec::new();
    let guess = cached_guess(q, cache);
    if let Some(g) = guess {
        attempts.push(g);
        if outcomes[g as usize] {
            let resolved = Question {
                stem: q.stem.clone(),
                options: clone_options(&q.options),
                answer: Some(g),
            };
            proof {
                assert(satt =~= seq![g as int]);
            }
            return (resolved, attempts);
        }
    }
    let ghost pl = attempts@.len() as int;
    let n = q.options.len();
    let mut idx: usize = 0;
    while idx < n
        invariant
            n == q.options@.len(),
            n == outcomes@.len(),
            n <= 255,
            idx <= n,
            sg == spec_guess_idx(q.stem@, q.options@, cache@),
            satt == spec_attempts(q.stem@, q.options@, cache@, outcomes@),
            pl == (if sg is Some {
                1int
            } else {
                0int
            }),
            sg matches Some(g) ==> 0 <= g < n && !outcomes@[g] && attempts@[0] == g as u8
                && g as u8 as int == g,
            attempts@.len() == pl + idx,
            forall|j: int| 0 <= j < idx ==> #[trigger] attempts@[pl + j] == j as u8,
            forall|j: int| 0 <= j < idx ==> !outcomes@[j],
        decreases n - idx,
    {
        attempts.push(idx as u8);
        if outcomes[idx] {
            proof {
                lemma_first_true(outcomes@);
                assert(first_true(outcomes@) == Some(idx as int));
                assert(attempts@.len() == satt.len());
                assert forall|j: int| 0 <= j < attempts@.len() implies attempts@[j] as int
                    == satt[j] by {
                    if sg is Some {
                        if j > 0 {
                            assert(satt[j] == j - 1);
                            if j < attempts@.len() - 1 {
                                assert(attempts@[pl + (j - 1)] == (j - 1) as u8);
                            }
                        }
                    } else {
                        assert(satt[j] == j);
                        if j < attempts@.len() - 1 {
                            assert(attempts@[pl + j] == j as u8);
                        }
                    }
                };
            }
            let resolved = Question {
                stem: q.stem.clone(),
                options: clone_options(&q.options),
                answer: Some(idx as u8),
            };
            return (resolved, attempts);
        }
        idx += 1;
    }
    proof {
        lemma_first_true(outcomes@);
        assert(attempts@.len() == satt.len());
        assert forall|j: int| 0 <= j < attempts@.len() implies attempts@[j] as int == satt[j] by {
            if sg is Some {
                if j > 0 {
                    assert(satt[j] == j - 1);
                    assert(attempts@[pl + (j - 1)] == (j - 1) as u8);
                }
            } else {
                assert(satt[j] == j);
                assert(attempts@[pl + j] == j as u8);
            }
        };
    }
    let resolved = Question {
        stem: q.stem.clone(),
        options: clone_options(&q.options),
        answer: None,
    };
    (resolved, attempts)
}

/// One full question phase of a session: each question in order is resolved
/// against its outcome table and the cache as it stood when that question
/// was played, and the resolved question is appended to the cache,
/// duplicates and all.
pub fn run_quiz(questions: &Vec<Question>, outcomes: &Vec<Vec<bool>>, cache: &mut AnswerCache)
    requires
        questions@.len() == outcomes@.len(),
        forall|i: int| 0 <= i < questions@.len() ==> questions@[i].options@.len() <= 255,
        forall|i: int|
            0 <= i < questions@.len() ==> outcomes@[i]@.len() == questions@[i].options@.len(),
    ensures
        final(cache)@.len() == old(cache)@.len() + questions@.len(),
        forall|j: int| 0 <= j < old(cache)@.len() ==> final(cache)@[j] == old(cache)@[j],
        forall|i: int|
            #![trigger questions@[i]]
            0 <= i < questions@.len() ==> {
                let e = final(cache)@[old(cache)@.len() + i];
                &&& e.stem == questions@[i].stem
                &&& e.options@ == questions@[i].options@
                &&& e.wf()
                &&& answer_matches(
                    e.answer,
                    spec_answer(
                        questions@[i].stem@,
                        questions@[i].options@,
                        final(cache)@.subrange(0, old(cache)@.len() + i),
                        outcomes@[i]@,
                    ),
                )
            },
{
    let ghost base = cache@;
    let n = questions.len();
    let mut i: usize = 0;
    while i < n
        invariant
            n == questions@.len(),
            n == outcomes@.len(),
            forall|k: int| 0 <= k < n ==> questions@[k].options@.len() <= 255,
            forall|k: int| 0 <= k < n ==> outcomes@[k]@.len() == questions@[k].options@.len(),
            i <= n,
            cache@.len() == base.len() + i,
            cache@.subrange(0, base.len() as int) == base,
            forall|k: int|
                #![trigger questions@[k]]
                0 <= k < i ==> {
                    let e = cache@[base.len() + k];
                    &&& e.stem == questions@[k].stem
                    &&& e.options@ == questions@[k].options@
                    &&& e.wf()
                    &&& answer_matches(
                        e.answer,
                        spec_answer(
                            questions@[k].stem@,
                            questions@[k].options@,
                            cache@.subrange(0, base.len() + k),
                            outcomes@[k]@,
                        ),
                    )
                },
        decreases n - i,
    {
        let ghost before = cache@;
        let (resolved, _attempts) = resolve_question(&questions[i], cache, &outcomes[i]);
        cache.record_if_absent(resolved);
        proof {
            assert(cache@.subrange(0, before.len() as int) =~= before);
            assert(cache@.subrange(0, base.len() as int) =~= before.subrange(
                0,
                base.len() as int,
            ));
            assert(forall|k: int|
                0 <= k <= i ==> #[trigger] cache@.subrange(0, base.len() + k) =~= before.subrange(
                    0,
                    base.len() + k,
                ));
            assert(before.subrange(0, before.len() as int) =~= before);
        }
        i += 1;
    }
    proof {
        assert(cache@.subrange(0, base.len() as int) =~= base);
    }
}

} // verus!
