//! The relevance gate. The model is sampled several times with the
//! question whether the user's message is irrelevant; the sampling is an
//! outside call, and its lower-cased answers are judged here: the message
//! counts as relevant as soon as any sample fails to answer `yes`.

use vstd::prelude::*;

verus! {

use crate::text::{chars_of, match_at};

/// `sub` occurs contiguously somewhere in `s`.
pub open spec fn has_substring(s: Seq<char>, sub: Seq<char>) -> bool {
    exists|i: int|
        0 <= i <= s.len() - sub.len() && #[trigger] s.subrange(i, i + sub.len() as int) == sub
}

/// Whether `sub` occurs anywhere in `s`.
pub fn contains_substring(s: &Vec<char>, sub: &Vec<char>) -> (b: bool)
    ensures
        b == has_substring(s@, sub@),
{
    let n = s.len();
    let m = sub.len();
    if m == 0 {
        proof {
            assert(s@.subrange(0, 0 + sub@.len() as int) =~= sub@);
        }
        return true;
    }
    if m > n {
        proof {
            if has_substring(s@, sub@) {
                let i = choose|i: int|
                    0 <= i <= s@.len() - sub@.len()
                        && #[trigger] s@.subrange(i, i + sub@.len() as int) == sub@;
            }
        }
        return false;
    }
    let mut i: usize = 0;
    while i <= n - m
        invariant
            n == s@.len(),
            m == sub@.len(),
            1 <= m <= n,
            i <= n - m + 1,
            forall|k: int| 0 <= k < i
                ==> #[trigger] s@.subrange(k, k + sub@.len() as int) != sub@,
        decreases n - m + 1 - i,
    {
        if match_at(s, sub, i) {
            proof {
                assert(0 <= i as int <= s@.len() - sub@.len());
            }
            return true;
        }
        i += 1;
    }
    proof {
        if has_substring(s@, sub@) {
            let k = choose|k: int|
                0 <= k <= s@.len() - sub@.len()
                    && #[trigger] s@.subrange(k, k + sub@.len() as int) == sub@;
        }
    }
    false
}

/// Judge the sampled answers: the message is relevant exactly when some
/// sample does not contain `yes`. An empty sample list judges nothing
/// relevant, matching a transport that returned no answer.
pub fn check_relevance(choices: &Vec<String>) -> (b: bool)
    ensures
        b == (exists|i: int|
            0 <= i < choices.deep_view().len()
                && !has_substring(#[trigger] choices.deep_view()[i], "yes"@)),
{
    let needle = chars_of("yes");
    let n = choices.len();
    let mut i: usize = 0;
    while i < n
        invariant
            n == choices@.len(),
            needle@ == "yes"@,
            i <= n,
            forall|j: int| 0 <= j < i
                ==> has_substring(#[trigger] choices.deep_view()[j], "yes"@),
        decreases n - i,
    {
        let choice_chars = chars_of(choices[i].as_str());
        proof {
            assert(choices.deep_view()[i as int] == choices@[i as int].deep_view());
        }
        if !contains_substring(&choice_chars, &needle) {
            proof {
                assert(!has_substring(choices.deep_view()[i as int], "yes"@));
            }
            return true;
        }
        i += 1;
    }
    proof {
        assert(choices.deep_view().len() == choices@.len());
    }
    false
}

} // verus!
