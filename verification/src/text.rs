use vstd::prelude::*;

verus! {

use vstd::std_specs::iter::IteratorSpec;

/// `s` ends with `suffix`.
pub open spec fn seq_ends_with(s: Seq<char>, suffix: Seq<char>) -> bool {
    suffix.len() <= s.len() && s.skip(s.len() - suffix.len()) == suffix
}

/// `pat` occurs in `s` starting at position `i`.
pub open spec fn seq_matches_at(s: Seq<char>, i: int, pat: Seq<char>) -> bool {
    0 <= i && i + pat.len() <= s.len() && s.subrange(i, i + pat.len()) == pat
}

/// `pat` occurs somewhere in `s`.
pub open spec fn seq_contains_seq(s: Seq<char>, pat: Seq<char>) -> bool {
    exists|i: int| seq_matches_at(s, i, pat)
}

/// The characters of `s`, in order, as a vector.
pub fn str_to_chars(s: &str) -> (r: Vec<char>)
    ensures
        r@ == s@,
{
    let mut it = s.chars();
    let mut r: Vec<char> = Vec::new();
    loop
        invariant_except_break
            it.obeys_prophetic_iter_laws(),
            r@ + it.remaining() == s@,
        ensures
            r@ == s@,
        decreases s@.len() - r@.len(),
    {
        match it.next() {
            Some(c) => {
                r.push(c);
                proof {
                    assert(r@ + it.remaining() =~= s@);
                }
            },
            None => {
                proof {
                    assert(r@ + it.remaining() =~= r@);
                }
                break ;
            },
        }
    }
    r
}

pub fn chars_matches_at(s: &Vec<char>, i: usize, pat: &Vec<char>) -> (r: bool)
    ensures
        r == seq_matches_at(s@, i as int, pat@),
{
    if i > s.len() || pat.len() > s.len() - i {
        return false;
    }
    let n = s.len();
    let mut j: usize = 0;
    while j < pat.len()
        invariant
            j <= pat@.len(),
            i + pat@.len() <= n,
            n == s@.len(),
            forall|k: int| 0 <= k < j ==> s@[i + k] == pat@[k],
        decreases pat@.len() - j,
    {
        if s[i + j] != pat[j] {
            proof {
                assert(seq_matches_at(s@, i as int, pat@) ==> s@.subrange(
                    i as int,
                    i + pat@.len(),
                )[j as int] == pat@[j as int]);
                assert(s@.subrange(i as int, i + pat@.len())[j as int] == s@[i + j]);
            }
            return false;
        }
        j += 1;
    }
    proof {
        assert(s@.subrange(i as int, i + pat@.len()) =~= pat@);
    }
    true
}

pub fn chars_ends_with(s: &Vec<char>, suffix: &Vec<char>) -> (r: bool)
    ensures
        r == seq_ends_with(s@, suffix@),
{
    if suffix.len() > s.len() {
        return false;
    }
    let start = s.len() - suffix.len();
    let r = chars_matches_at(s, start, suffix);
    proof {
        assert(s@.skip(s@.len() - suffix@.len()) =~= s@.subrange(
            start as int,
            start + suffix@.len(),
        ));
    }
    r
}

pub fn chars_eq(a: &Vec<char>, b: &Vec<char>) -> (r: bool)
    ensures
        r == (a@ == b@),
{
    if a.len() != b.len() {
        proof {
            assert(a@ != b@);
        }
        return false;
    }
    let r = chars_matches_at(a, 0, b);
    proof {
        assert(a@.subrange(0, b@.len() as int) =~= a@);
    }
    r
}

pub fn chars_subrange(s: &Vec<char>, a: usize, b: usize) -> (r: Vec<char>)
    requires
        a <= b && b <= s@.len(),
    ensures
        r@ == s@.subrange(a as int, b as int),
{
    let mut r: Vec<char> = Vec::new();
    let mut k = a;
    proof {
        assert(r@ =~= s@.subrange(a as int, a as int));
    }
    while k < b
        invariant
            a <= k <= b <= s@.len(),
            r@ == s@.subrange(a as int, k as int),
        decreases b - k,
    {
        r.push(s[k]);
        proof {
            assert(s@.subrange(a as int, k as int + 1) =~= s@.subrange(a as int, k as int).push(
                s@[k as int],
            ));
        }
        k += 1;
    }
    r
}

pub fn chars_contains(s: &Vec<char>, pat: &Vec<char>) -> (r: bool)
    ensures
        r == seq_contains_seq(s@, pat@),
{
    if pat.len() > s.len() {
        proof {
            assert(forall|i: int| !seq_matches_at(s@, i, pat@));
        }
        return false;
    }
    if pat.len() == 0 {
        proof {
            assert(s@.subrange(0, 0) =~= pat@);
            assert(seq_matches_at(s@, 0, pat@));
        }
        return true;
    }
    let mut i: usize = 0;
    while i <= s.len() - pat.len()
        invariant
            1 <= pat@.len() <= s@.len(),
            i <= s@.len() - pat@.len() + 1,
            forall|k: int| 0 <= k < i ==> !seq_matches_at(s@, k, pat@),
        decreases s@.len() - pat@.len() + 1 - i,
    {
        if chars_matches_at(s, i, pat) {
            return true;
        }
        i += 1;
    }
    proof {
        assert(forall|k: int| k >= i ==> !seq_matches_at(s@, k, pat@));
    }
    false
}

} // verus!
