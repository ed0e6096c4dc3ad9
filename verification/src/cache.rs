//! The answer cache: an ordered sequence of previously resolved questions,
//! used as a lookup table keyed by the normalised stem.

use crate::question::Question;
use crate::text::str_eq;
use vstd::prelude::*;

verus! {

/// The first stored question whose stem equals `stem`, scanning from the
/// front of the sequence.
pub open spec fn spec_lookup(entries: Seq<Question>, stem: Seq<char>) -> Option<Question>
    decreases entries.len(),
{
    if entries.len() == 0 {
        None
    } else if entries.first().stem@ == stem {
        Some(entries.first())
    } else {
        spec_lookup(entries.drop_first(), stem)
    }
}

/// Previously observed questions, keyed by stem.  Insertion order is
/// preserved only because the whole sequence is what gets persisted;
/// appending never deduplicates, and lookups return the first match, so an
/// early entry shadows any later entry with the same stem.
pub struct AnswerCache {
    entries: Vec<Question>,
}

impl View for AnswerCache {
    type V = Seq<Question>;

    closed spec fn view(&self) -> Seq<Question> {
        self.entries@
    }
}

impl AnswerCache {
    /// An empty cache, as when no store exists yet.
    pub fn new() -> (c: Self)
        ensures
            c@ == Seq::<Question>::empty(),
    {
        let c = AnswerCache { entries: Vec::new() };
        proof {
            assert(c@ =~= Seq::<Question>::empty());
        }
        c
    }

    /// Wraps entries loaded in bulk from the persisted store.
    pub fn from_entries(entries: Vec<Question>) -> (c: Self)
        ensures
            c@ == entries@,
    {
        AnswerCache { entries }
    }

    /// The stored entries, in insertion order, for bulk persistence.
    pub fn entries(&self) -> (r: &Vec<Question>)
        ensures
            r@ == self@,
    {
        &self.entries
    }

    pub fn len(&self) -> (n: usize)
        ensures
            n == self@.len(),
    {
        self.entries.len()
    }

    /// The first stored question whose stem matches exactly (plain string
    /// equality, no fuzzy matching).
    pub fn lookup(&self, stem: &str) -> (r: Option<&Question>)
        ensures
            match r {
                Some(q) => spec_lookup(self@, stem@) == Some(*q),
                None => spec_lookup(self@, stem@) is None,
            },
    {
        let n = self.entries.len();
        let mut i: usize = 0;
        proof {
            assert(self@.skip(0) =~= self@);
        }
        while i < n
            invariant
                n == self@.len(),
                i <= n,
                spec_lookup(self@.skip(i as int), stem@) == spec_lookup(self@, stem@),
            decreases n - i,
        {
            proof {
                assert(self@.skip(i as int).first() == self@[i as int]);
            }
            if str_eq(self.entries[i].stem.as_str(), stem) {
                return Some(&self.entries[i]);
            }
            proof {
                assert(self@.skip(i as int).drop_first() =~= self@.skip(i + 1));
            }
            i += 1;
        }
        proof {
            assert(self@.skip(n as int).len() == 0);
        }
        None
    }

    /// Appends a resolved question.  Appending is unconditional: a duplicate
    /// stem is legal, and later lookups keep returning the first match, so a
    /// stale early entry can shadow a corrected later one.
    pub fn record_if_absent(&mut self, q: Question)
        ensures
            final(self)@ == old(self)@.push(q),
    {
        self.entries.push(q);
    }
}

/// Law: recording a question whose stem the cache does not yet know, then
/// looking that stem up, finds exactly the recorded question, so the looked
/// up resolved option text is the recorded one.
pub proof fn lemma_lookup_stable(entries: Seq<Question>, q: Question)
    requires
        q.wf(),
        q.answer is Some,
        spec_lookup(entries, q.stem@) is None,
    ensures
        spec_lookup(entries.push(q), q.stem@) == Some(q),
        spec_lookup(entries.push(q), q.stem@)->0.resolved_text() == q.resolved_text(),
    decreases entries.len(),
{
    if entries.len() == 0 {
        assert(entries.push(q).first() == q);
    } else {
        assert(entries.push(q).first() == entries.first());
        assert(entries.push(q).drop_first() =~= entries.drop_first().push(q));
        lemma_lookup_stable(entries.drop_first(), q);
    }
}

} // verus!
