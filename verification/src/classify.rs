use vstd::prelude::*;

verus! {

use crate::tally::{Tally, tally_zero};
use crate::text::{
    seq_matches_at,
    seq_contains_seq,
    chars_matches_at,
    chars_contains,
    chars_eq,
    chars_subrange,
    str_to_chars,
};

/// Outcome of inspecting one leaf record.
///
/// `NoTag` is the silent case (no coordinate-system tag found); `Unknown` is a
/// recognized tag whose value matches neither category and is worth a
/// diagnostic.
#[derive(Clone, Copy, PartialEq, Eq, Structural, Debug)]
pub enum Classification {
    Arbitrary,
    Public,
    Unknown,
    NoTag,
}

/// The opening tag marker.
pub open spec fn open_tag() -> Seq<char> {
    seq!['<', '座', '標', '系', '>']
}

/// The closing tag marker.
pub open spec fn close_tag() -> Seq<char> {
    seq!['<', '/', '座', '標', '系', '>']
}

/// The value recognized by exact equality.
pub open spec fn arbitrary_lit() -> Seq<char> {
    seq!['任', '意', '座', '標', '系']
}

/// The value recognized by substring containment.
pub open spec fn public_lit() -> Seq<char> {
    seq!['公', '共', '座', '標']
}

/// First position at or after `j` where the closing tag starts, scanning left
/// to right; the search fails at the end of the text or at a newline, since
/// the captured value may not span lines.
pub open spec fn find_close_from(s: Seq<char>, j: int) -> Option<int>
    decreases s.len() - j,
{
    if j < 0 || j > s.len() {
        None
    } else if seq_matches_at(s, j, close_tag()) {
        Some(j)
    } else if j == s.len() {
        None
    } else if s[j] == '\n' {
        None
    } else {
        find_close_from(s, j + 1)
    }
}

/// First position at or after `i` where the opening tag starts and a closing
/// tag follows on the same line; yields the bounds of the captured value.
pub open spec fn find_open_from(s: Seq<char>, i: int) -> Option<(int, int)>
    decreases s.len() - i,
{
    if i < 0 || i >= s.len() {
        None
    } else if seq_matches_at(s, i, open_tag()) {
        match find_close_from(s, i + open_tag().len()) {
            Some(j) => Some((i + open_tag().len(), j)),
            None => find_open_from(s, i + 1),
        }
    } else {
        find_open_from(s, i + 1)
    }
}

/// The leftmost, shortest text between an opening and a closing tag marker on
/// one line, if any.
pub open spec fn tag_capture(s: Seq<char>) -> Option<Seq<char>> {
    match find_open_from(s, 0) {
        Some((a, b)) => Some(s.subrange(a, b)),
        None => None,
    }
}

pub open spec fn classify_value_spec(v: Seq<char>) -> Classification {
    if v == arbitrary_lit() {
        Classification::Arbitrary
    } else if seq_contains_seq(v, public_lit()) {
        Classification::Public
    } else {
        Classification::Unknown
    }
}

/// How one leaf record's text is classified: extract the tag value, then
/// compare it with the two recognized categories.
pub open spec fn classify_text_spec(s: Seq<char>) -> Classification {
    match tag_capture(s) {
        Some(v) => classify_value_spec(v),
        None => Classification::NoTag,
    }
}

/// The contribution of one classification outcome to a tally: exactly one
/// counter incremented for a recognized value, nothing otherwise.
pub open spec fn tally_of_class(c: Classification) -> Tally {
    match c {
        Classification::Arbitrary => Tally { arbitrary: 1, public: 0 },
        Classification::Public => Tally { arbitrary: 0, public: 1 },
        Classification::Unknown => tally_zero(),
        Classification::NoTag => tally_zero(),
    }
}

proof fn lemma_find_close_bounds(s: Seq<char>, j: int)
    ensures
        match find_close_from(s, j) {
            Some(k) => j <= k && k + close_tag().len() <= s.len(),
            None => true,
        },
    decreases s.len() - j,
{
    if j < 0 || j > s.len() {
    } else if seq_matches_at(s, j, close_tag()) {
    } else if j == s.len() {
    } else if s[j] == '\n' {
    } else {
        lemma_find_close_bounds(s, j + 1);
    }
}

fn open_tag_vec() -> (v: Vec<char>)
    ensures
        v@ == open_tag(),
{
    let v = vec!['<', '座', '標', '系', '>'];
    proof {
        assert(v@ =~= open_tag());
    }
    v
}

fn close_tag_vec() -> (v: Vec<char>)
    ensures
        v@ == close_tag(),
{
    let v = vec!['<', '/', '座', '標', '系', '>'];
    proof {
        assert(v@ =~= close_tag());
    }
    v
}

fn arbitrary_lit_vec() -> (v: Vec<char>)
    ensures
        v@ == arbitrary_lit(),
{
    let v = vec!['任', '意', '座', '標', '系'];
    proof {
        assert(v@ =~= arbitrary_lit());
    }
    v
}

fn public_lit_vec() -> (v: Vec<char>)
    ensures
        v@ == public_lit(),
{
    let v = vec!['公', '共', '座', '標'];
    proof {
        assert(v@ =~= public_lit());
    }
    v
}

fn find_close_exec(s: &Vec<char>, start: usize, close: &Vec<char>) -> (r: Option<usize>)
    requires
        close@ == close_tag(),
        start <= s@.len(),
    ensures
        match r {
            Some(j) => find_close_from(s@, start as int) == Some(j as int),
            None => find_close_from(s@, start as int) is None,
        },
{
    let mut j = start;
    while j < s.len()
        invariant
            close@ == close_tag(),
            start <= j <= s@.len(),
            find_close_from(s@, start as int) == find_close_from(s@, j as int),
        decreases s@.len() - j,
    {
        if chars_matches_at(s, j, close) {
            return Some(j);
        }
        if s[j] == '\n' {
            return None;
        }
        j += 1;
    }
    None
}

fn classify_chars(s: &Vec<char>) -> (c: Classification)
    ensures
        c == classify_text_spec(s@),
{
    let open = open_tag_vec();
    let close = close_tag_vec();
    let mut i: usize = 0;
    while i < s.len()
        invariant
            open@ == open_tag(),
            close@ == close_tag(),
            i <= s@.len(),
            find_open_from(s@, 0) == find_open_from(s@, i as int),
        decreases s@.len() - i,
    {
        if chars_matches_at(s, i, &open) {
            let a = i + open.len();
            match find_close_exec(s, a, &close) {
                Some(j) => {
                    proof {
                        lemma_find_close_bounds(s@, a as int);
                    }
                    let v = chars_subrange(s, a, j);
                    let arb = arbitrary_lit_vec();
                    if chars_eq(&v, &arb) {
                        return Classification::Arbitrary;
                    }
                    let publ = public_lit_vec();
                    if chars_contains(&v, &publ) {
                        return Classification::Public;
                    }
                    return Classification::Unknown;
                },
                None => {
                    i += 1;
                },
            }
        } else {
            i += 1;
        }
    }
    Classification::NoTag
}

/// Classify one leaf record's (decoded) text.
pub fn classify_text(s: &str) -> (c: Classification)
    ensures
        c == classify_text_spec(s@),
{
    let v = str_to_chars(s);
    classify_chars(&v)
}

/// The tally contributed by one classification outcome.
pub fn classification_tally(c: Classification) -> (t: Tally)
    ensures
        t == tally_of_class(c),
{
    match c {
        Classification::Arbitrary => Tally { arbitrary: 1, public: 0 },
        Classification::Public => Tally { arbitrary: 0, public: 1 },
        Classification::Unknown => Tally { arbitrary: 0, public: 0 },
        Classification::NoTag => Tally { arbitrary: 0, public: 0 },
    }
}

} // verus!
