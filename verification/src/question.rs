//! The quiz question data model and the page-text normalisation rules.

use crate::text::push_char;
use vstd::prelude::*;
use vstd::string::StrSliceExecFns;

verus! {

/// A character that stem normalisation removes: ASCII whitespace.
pub open spec fn is_ws_char(c: char) -> bool {
    c == ' ' || c == '\t' || c == '\n' || c == '\x0C' || c == '\r'
}

/// Stem normalisation: every ASCII whitespace character removed.
pub open spec fn strip_ws(s: Seq<char>) -> Seq<char>
    decreases s.len(),
{
    if s.len() == 0 {
        Seq::empty()
    } else if is_ws_char(s.last()) {
        strip_ws(s.drop_last())
    } else {
        strip_ws(s.drop_last()).push(s.last())
    }
}

/// Option-text normalisation: the page renders a fixed three-character
/// index prefix before each option text, which is dropped before storage.
pub open spec fn strip_prefix(s: Seq<char>) -> Seq<char> {
    if s.len() <= 3 {
        Seq::empty()
    } else {
        s.subrange(3, s.len() as int)
    }
}

/// One multiple-choice question as rendered by the quiz page.
#[derive(Debug, Clone)]
pub struct Question {
    /// Normalised question text; the answer-cache key.
    pub stem: String,
    /// Option texts in rendered order.  The order matters: it encodes the
    /// position of the control used to submit an answer, and it may differ
    /// from one rendering of the same question to the next.
    pub options: Vec<String>,
    /// Index of the correct option, once the server has confirmed one.
    pub answer: Option<u8>,
}

impl Question {
    /// The answer index, when set, is a valid index into the options.
    pub open spec fn wf(self) -> bool {
        match self.answer {
            Some(i) => (i as int) < self.options@.len(),
            None => true,
        }
    }

    /// The text of the confirmed option (meaningful when `answer` is set
    /// and the question is well formed).
    pub open spec fn resolved_text(self) -> Seq<char> {
        self.options@[self.answer->0 as int]@
    }

    /// Builds a fresh, unresolved question from the scraped stem text and
    /// the scraped option texts, applying both normalisation rules.
    pub fn from_texts(stem_raw: &str, option_raws: &Vec<String>) -> (q: Question)
        ensures
            q.stem@ == strip_ws(stem_raw@),
            q.options@.len() == option_raws@.len(),
            forall|i: int|
                0 <= i < option_raws@.len() ==> q.options@[i]@ == strip_prefix(option_raws@[i]@),
            q.answer is None,
            q.wf(),
    {
        let stem = normalize_stem(stem_raw);
        let mut options: Vec<String> = Vec::new();
        let mut i: usize = 0;
        while i < option_raws.len()
            invariant
                i <= option_raws@.len(),
                options@.len() == i,
                forall|j: int|
                    0 <= j < i ==> options@[j]@ == strip_prefix(option_raws@[j]@),
            decreases option_raws@.len() - i,
        {
            options.push(strip_option_prefix(option_raws[i].as_str()));
            i += 1;
        }
        Question { stem, options, answer: None }
    }
}

/// The first position among the rendered options whose text equals `t`.
pub open spec fn first_text_match(options: Seq<String>, t: Seq<char>) -> Option<int>
    decreases options.len(),
{
    if options.len() == 0 {
        None
    } else if options.first()@ == t {
        Some(0)
    } else {
        match first_text_match(options.drop_first(), t) {
            Some(k) => Some(k + 1),
            None => None,
        }
    }
}

/// What `first_text_match` returns: the first index holding `t`, or nothing
/// when no option holds it.
pub proof fn lemma_first_text_match(options: Seq<String>, t: Seq<char>)
    ensures
        match first_text_match(options, t) {
            Some(k) => {
                &&& 0 <= k < options.len()
                &&& options[k]@ == t
                &&& forall|j: int| 0 <= j < k ==> options[j]@ != t
            },
            None => forall|j: int| 0 <= j < options.len() ==> options[j]@ != t,
        },
    decreases options.len(),
{
    if options.len() > 0 && options.first()@ != t {
        lemma_first_text_match(options.drop_first(), t);
        assert(forall|j: int|
            1 <= j < options.len() ==> options[j] == options.drop_first()[j - 1]);
    }
}

/// Normalises scraped stem text: strips every ASCII whitespace character.
pub fn normalize_stem(text: &str) -> (r: String)
    ensures
        r@ == strip_ws(text@),
{
    let n = text.unicode_len();
    let mut r = String::new();
    let mut i: usize = 0;
    while i < n
        invariant
            n == text@.len(),
            i <= n,
            r@ == strip_ws(text@.subrange(0, i as int)),
        decreases n - i,
    {
        let c = text.get_char(i);
        proof {
            assert(text@.subrange(0, i + 1).drop_last() =~= text@.subrange(0, i as int));
            assert(text@.subrange(0, i + 1).last() == text@[i as int]);
        }
        if !(c == ' ' || c == '\t' || c == '\n' || c == '\x0C' || c == '\r') {
            push_char(&mut r, c);
        }
        i += 1;
    }
    proof {
        assert(text@.subrange(0, n as int) =~= text@);
    }
    r
}

/// Drops the three-character index prefix from one scraped option text.
pub fn strip_option_prefix(text: &str) -> (r: String)
    ensures
        r@ == strip_prefix(text@),
{
    let n = text.unicode_len();
    let mut r = String::new();
    if n <= 3 {
        return r;
    }
    let mut i: usize = 3;
    while i < n
        invariant
            n == text@.len(),
            3 <= i <= n,
            r@ == text@.subrange(3, i as int),
        decreases n - i,
    {
        let c = text.get_char(i);
        proof {
            assert(text@.subrange(3, i as int).push(text@[i as int]) =~= text@.subrange(
                3,
                i + 1,
            ));
        }
        push_char(&mut r, c);
        i += 1;
    }
    r
}

/// Copies a list of option texts, one text at a time.
pub(crate) fn clone_options(v: &Vec<String>) -> (r: Vec<String>)
    ensures
        r@ == v@,
{
    let mut r: Vec<String> = Vec::new();
    let mut i: usize = 0;
    while i < v.len()
        invariant
            i <= v@.len(),
            r@ == v@.subrange(0, i as int),
        decreases v@.len() - i,
    {
        proof {
            assert(v@.subrange(0, i as int).push(v@[i as int]) =~= v@.subrange(0, i + 1));
        }
        r.push(v[i].clone());
        i += 1;
    }
    proof {
        assert(v@.subrange(0, v@.len() as int) =~= v@);
    }
    r
}

} // verus!
