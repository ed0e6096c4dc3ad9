//! CAPTCHA acceptance policy and the OCR retry loop.
//!
//! The widget always encodes exactly six decimal digits.  A raw OCR reading
//! is accepted when six digits survive filtering; in strict mode the raw
//! text itself must also be exactly six characters long, so that stray
//! non-digit noise rejects the reading instead of being silently dropped.

use crate::text::push_char;
use vstd::prelude::*;
use vstd::string::StrSliceExecFns;

verus! {

/// A character is an ASCII decimal digit.
pub open spec fn is_digit_char(c: char) -> bool {
    '0' <= c && c <= '9'
}

/// The ASCII digits of `s`, in order.
pub open spec fn digits_of(s: Seq<char>) -> Seq<char>
    decreases s.len(),
{
    if s.len() == 0 {
        Seq::empty()
    } else if is_digit_char(s.last()) {
        digits_of(s.drop_last()).push(s.last())
    } else {
        digits_of(s.drop_last())
    }
}

/// Acceptance policy for one OCR reading: exactly six digits survive the
/// filter, and in strict mode the raw reading is itself exactly six
/// characters (no stray noise at all).
pub open spec fn spec_accept(text: Seq<char>, strict: bool) -> bool {
    digits_of(text).len() == 6 && (!strict || text.len() == 6)
}

/// Filters an OCR reading down to its ASCII digits.
pub fn filter_digits(text: &str) -> (r: String)
    ensures
        r@ == digits_of(text@),
{
    let n = text.unicode_len();
    let mut r = String::new();
    let mut i: usize = 0;
    while i < n
        invariant
            n == text@.len(),
            i <= n,
            r@ == digits_of(text@.subrange(0, i as int)),
        decreases n - i,
    {
        let c = text.get_char(i);
        proof {
            assert(text@.subrange(0, i + 1).drop_last() =~= text@.subrange(0, i as int));
            assert(text@.subrange(0, i + 1).last() == text@[i as int]);
        }
        if '0' <= c && c <= '9' {
            push_char(&mut r, c);
        }
        i += 1;
    }
    proof {
        assert(text@.subrange(0, n as int) =~= text@);
    }
    r
}

/// Whether one OCR reading is accepted under the given policy.
pub fn accept(text: &str, strict: bool) -> (r: bool)
    ensures
        r == spec_accept(text@, strict),
{
    let digits = filter_digits(text);
    let dn = digits.as_str().unicode_len();
    dn == 6 && (!strict || text.unicode_len() == 6)
}

/// Applies the acceptance policy to one OCR reading: the digits to type when
/// the reading is convincing, and nothing when it should be retried.
pub fn recognize(text: &str, strict: bool) -> (r: Option<String>)
    ensures
        r is Some <==> spec_accept(text@, strict),
        r is Some ==> r->0@ == digits_of(text@),
{
    let digits = filter_digits(text);
    let dn = digits.as_str().unicode_len();
    if dn == 6 && (!strict || text.unicode_len() == 6) {
        Some(digits)
    } else {
        None
    }
}

/// The capture-recognise-retry loop of the CAPTCHA solver, run over a
/// deterministic sequence of OCR readings: each rejected reading triggers a
/// widget reload and another capture, and the first accepted reading is
/// typed as the answer.  Returns how many readings were consumed together
/// with the accepted digits, or nothing when every reading was rejected.
pub fn solve_from_readings(readings: &Vec<String>, strict: bool) -> (r: Option<(usize, String)>)
    ensures
        match r {
            Some(ia) => {
                &&& ia.0 < readings@.len()
                &&& spec_accept(readings@[ia.0 as int]@, strict)
                &&& forall|j: int| 0 <= j < ia.0 ==> !spec_accept(readings@[j]@, strict)
                &&& ia.1@ == digits_of(readings@[ia.0 as int]@)
            },
            None => forall|j: int| 0 <= j < readings@.len() ==> !spec_accept(readings@[j]@, strict),
        },
{
    let n = readings.len();
    let mut i: usize = 0;
    while i < n
        invariant
            n == readings@.len(),
            i <= n,
            forall|j: int| 0 <= j < i ==> !spec_accept(readings@[j]@, strict),
        decreases n - i,
    {
        let text = &readings[i];
        if let Some(ans) = recognize(text.as_str(), strict) {
            return Some((i, ans));
        }
        i += 1;
    }
    None
}

} // verus!
