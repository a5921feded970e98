//! Small verified text utilities shared by the extractor, the progress feed
//! and the message builders.

use vstd::prelude::*;
use vstd::string::StrSliceExecFns;
use vstd::string::StringExecFns;

verus! {

/// The characters of `s`, in order, as a vector.
pub fn chars_of(s: &str) -> (r: Vec<char>)
    ensures
        r@ == s@,
{
    let n = s.unicode_len();
    let mut r: Vec<char> = Vec::new();
    let mut i: usize = 0;
    while i < n
        invariant
            n == s@.len(),
            i <= n,
            r@ == s@.subrange(0, i as int),
        decreases n - i,
    {
        let c = s.get_char(i);
        r.push(c);
        i += 1;
        assert(r@ =~= s@.subrange(0, i as int));
    }
    assert(s@.subrange(0, n as int) =~= s@);
    r
}

/// Relies on std's `FromIterator` impl for `String`: collecting `char`s
/// yields the string made of exactly those characters, in order.
#[verifier::external_body]
pub fn string_from_chars(v: &Vec<char>) -> (s: String)
    ensures
        s@ == v@,
{
    v.iter().collect()
}

/// Index of the first `sep` in `v`, if any; earlier positions hold none.
pub(crate) fn find_char(v: &Vec<char>, sep: char) -> (r: Option<usize>)
    ensures
        match r {
            Some(i) => i < v@.len() && v@[i as int] == sep
                && forall|j: int| 0 <= j < i ==> v@[j] != sep,
            None => forall|j: int| 0 <= j < v@.len() ==> v@[j] != sep,
        },
{
    let n = v.len();
    let mut i: usize = 0;
    while i < n
        invariant
            n == v.len(),
            i <= n,
            forall|j: int| 0 <= j < i ==> v@[j] != sep,
        decreases n - i,
    {
        if v[i] == sep {
            return Some(i);
        }
        i += 1;
    }
    None
}

/// Whether `sub` matches `s` at position `i`.
pub(crate) fn match_at(s: &Vec<char>, sub: &Vec<char>, i: usize) -> (b: bool)
    requires
        i + sub@.len() <= s@.len(),
    ensures
        b == (s@.subrange(i as int, i as int + sub@.len() as int) == sub@),
{
    let m = sub.len();
    let n = s.len();
    let mut j: usize = 0;
    while j < m
        invariant
            m == sub@.len(),
            n == s@.len(),
            i + m <= n,
            j <= m,
            forall|t: int| 0 <= t < j ==> s@[i + t] == sub@[t],
        decreases m - j,
    {
        if s[i + j] != sub[j] {
            proof {
                if s@.subrange(i as int, i as int + m as int) == sub@ {
                    assert(s@.subrange(i as int, i as int + m as int)[j as int]
                        == s@[i + j]);
                }
            }
            return false;
        }
        j += 1;
    }
    proof {
        assert(s@.subrange(i as int, i as int + m as int) =~= sub@);
    }
    true
}

/// `s` with every occurrence of `pat` replaced by `rep`, scanning left to
/// right over non-overlapping matches; an empty pattern replaces nothing.
pub open spec fn replaced(s: Seq<char>, pat: Seq<char>, rep: Seq<char>) -> Seq<char>
    decreases s.len(),
{
    if pat.len() == 0 || s.len() == 0 {
        s
    } else if pat.len() <= s.len() && s.subrange(0, pat.len() as int) == pat {
        rep + replaced(s.skip(pat.len() as int), pat, rep)
    } else {
        seq![s[0]] + replaced(s.skip(1), pat, rep)
    }
}

/// Replace every occurrence of `pat` in `s` by `rep`, left to right over
/// non-overlapping matches.
pub fn replace_all(s: &str, pat: &str, rep: &str) -> (r: String)
    ensures
        r@ == replaced(s@, pat@, rep@),
{
    let s_chars = chars_of(s);
    let pat_chars = chars_of(pat);
    let n = s_chars.len();
    let m = pat_chars.len();
    if m == 0 {
        return s.to_owned();
    }
    let mut out = String::new();
    let mut i: usize = 0;
    proof {
        assert(s@.skip(0) =~= s@);
    }
    while i < n
        invariant
            s_chars@ == s@,
            pat_chars@ == pat@,
            n == s@.len(),
            m == pat@.len(),
            1 <= m,
            i <= n,
            replaced(s@, pat@, rep@) == out@ + replaced(s@.skip(i as int), pat@, rep@),
        decreases n - i,
    {
        let ghost rest = s@.skip(i as int);
        proof {
            assert(rest.len() == n - i);
            assert(rest[0] == s@[i as int]);
        }
        let here = if m <= n && i <= n - m {
            proof {
                assert(rest.subrange(0, m as int) =~= s@.subrange(i as int, i as int + m as int));
            }
            match_at(&s_chars, &pat_chars, i)
        } else {
            proof {
                assert(!(pat@.len() <= rest.len()));
            }
            false
        };
        if here {
            out.append(rep);
            proof {
                assert(rest.subrange(0, m as int) == pat@);
                assert(rest.skip(m as int) =~= s@.skip(i as int + m as int));
            }
            i += m;
        } else {
            proof {
                if pat@.len() <= rest.len() {
                    assert(rest.subrange(0, m as int)
                        =~= s@.subrange(i as int, i as int + m as int));
                }
                assert(rest.skip(1) =~= s@.skip(i as int + 1));
            }
            let mut piece: Vec<char> = Vec::new();
            piece.push(s_chars[i]);
            let piece_string = string_from_chars(&piece);
            out.append(piece_string.as_str());
            proof {
                assert(piece@ =~= seq![s@[i as int]]);
            }
            i += 1;
        }
    }
    proof {
        assert(s@.skip(n as int) =~= Seq::<char>::empty());
        assert(out@ + replaced(s@.skip(n as int), pat@, rep@) =~= out@);
    }
    out
}

/// The user-facing status cap: what a status line shows of `s` when the
/// cap is `cap` characters.
pub open spec fn truncated(s: Seq<char>, cap: nat) -> Seq<char> {
    if s.len() <= cap {
        s
    } else {
        s.subrange(0, cap as int) + "..."@
    }
}

/// Cut a status string down to at most `cap` characters, marking the cut
/// with an ellipsis; a string within the cap passes through unchanged.
pub fn truncate_with_ellipsis(s: &str, cap: usize) -> (r: String)
    ensures
        r@ == truncated(s@, cap as nat),
{
    let n = s.unicode_len();
    if n <= cap {
        s.to_owned()
    } else {
        let head = s.substring_char(0, cap);
        head.to_owned().concat("...")
    }
}

} // verus!
