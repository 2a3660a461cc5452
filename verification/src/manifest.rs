use vstd::prelude::*;

verus! {

use crate::text::{seq_matches_at, chars_matches_at, chars_eq, chars_subrange, str_to_chars};

// --- How the manifest text splits into lines ---
//
// A line ends at a line feed; a carriage return directly before the line feed
// is not part of the line. Text after the last line feed forms a final line
// (kept as is), and there is no empty final line after a trailing line feed.

pub open spec fn strip_cr(l: Seq<char>) -> Seq<char> {
    if l.len() > 0 && l[l.len() - 1] == '\r' {
        l.drop_last()
    } else {
        l
    }
}

pub open spec fn lines_acc(s: Seq<char>, cur: Seq<char>) -> Seq<Seq<char>>
    decreases s.len(),
{
    if s.len() == 0 {
        if cur.len() == 0 {
            Seq::empty()
        } else {
            seq![cur]
        }
    } else if s[0] == '\n' {
        seq![strip_cr(cur)] + lines_acc(s.skip(1), Seq::empty())
    } else {
        lines_acc(s.skip(1), cur.push(s[0]))
    }
}

pub open spec fn lines_of(s: Seq<char>) -> Seq<Seq<char>> {
    lines_acc(s, Seq::empty())
}

// --- Which lines reference a nested archive ---

pub open spec fn digit_or_hyphen(c: char) -> bool {
    (48 <= c as u32 && c as u32 <= 57) || c as u32 == 45
}

/// Length of the leading run of digits and hyphens.
pub open spec fn class_run(l: Seq<char>) -> int
    decreases l.len(),
{
    if l.len() == 0 || !digit_or_hyphen(l[0]) {
        0
    } else {
        1 + class_run(l.skip(1))
    }
}

pub open spec fn zip_comma() -> Seq<char> {
    seq!['.', 'z', 'i', 'p', ',']
}

/// A relevant line starts with one or more digits or hyphens, followed by the
/// literal `.zip` and a comma; the referenced name is everything before the
/// comma. Any other line is ignored.
pub open spec fn line_name(l: Seq<char>) -> Option<Seq<char>> {
    let k = class_run(l);
    if k >= 1 && seq_matches_at(l, k, zip_comma()) {
        Some(l.subrange(0, k + 4))
    } else {
        None
    }
}

// --- Multiplicity: how often a name's lines occur ---

pub open spec fn count_in(ns: Seq<Seq<char>>, n: Seq<char>) -> nat
    decreases ns.len(),
{
    if ns.len() == 0 {
        0
    } else {
        (if ns[0] == n {
            1 as nat
        } else {
            0 as nat
        }) + count_in(ns.skip(1), n)
    }
}

/// The names of the relevant lines, in order, with repetition.
pub open spec fn matched_of(ls: Seq<Seq<char>>) -> Seq<Seq<char>>
    decreases ls.len(),
{
    if ls.len() == 0 {
        Seq::empty()
    } else {
        (match line_name(ls[0]) {
            Some(n) => seq![n],
            None => Seq::empty(),
        }) + matched_of(ls.skip(1))
    }
}

/// The number of lines of `ls` that reference `n`.
pub open spec fn count_name(ls: Seq<Seq<char>>, n: Seq<char>) -> nat {
    count_in(matched_of(ls), n)
}

/// The manifest mapping: each referenced name to its multiplicity. A name
/// no line references is absent.
pub open spec fn manifest_spec(text: Seq<char>) -> Map<Seq<char>, nat> {
    Map::new(
        |n: Seq<char>| count_name(lines_of(text), n) > 0,
        |n: Seq<char>| count_name(lines_of(text), n),
    )
}

pub open spec fn manifest_is_empty(text: Seq<char>) -> bool {
    forall|n: Seq<char>| #[trigger] count_name(lines_of(text), n) == 0
}

/// Multiplicity of `n` under mapping `m`: an absent name weighs zero.
pub open spec fn mult_of(m: Map<Seq<char>, nat>, n: Seq<char>) -> nat {
    if m.contains_key(n) {
        m[n]
    } else {
        0
    }
}

/// A name's multiplicity is exactly the number of lines referencing it.
pub proof fn lemma_manifest_multiplicity(text: Seq<char>, n: Seq<char>)
    ensures
        mult_of(manifest_spec(text), n) == count_name(lines_of(text), n),
{
}

// --- The executable mapping ---

/// The manifest mapping, built from the manifest's text. Internally the
/// referenced names are kept once per referencing line, so a name's
/// multiplicity is its number of occurrences.
pub struct ManifestMap {
    names: Vec<Vec<char>>,
}

impl View for ManifestMap {
    type V = Map<Seq<char>, nat>;

    closed spec fn view(&self) -> Map<Seq<char>, nat> {
        Map::new(
            |n: Seq<char>| count_in(self.names.deep_view(), n) > 0,
            |n: Seq<char>| count_in(self.names.deep_view(), n),
        )
    }
}

proof fn lemma_count_in_skip(ns: Seq<Seq<char>>, p: int, n: Seq<char>)
    requires
        0 <= p < ns.len(),
    ensures
        count_in(ns.skip(p), n) == (if ns[p] == n {
            1 as nat
        } else {
            0 as nat
        }) + count_in(ns.skip(p + 1), n),
{
    assert(ns.skip(p).len() > 0);
    assert(ns.skip(p)[0] == ns[p]);
    assert(ns.skip(p).skip(1) =~= ns.skip(p + 1));
}

impl ManifestMap {
    /// The multiplicity recorded for `name`; zero when absent.
    pub fn get(&self, name: &Vec<char>) -> (r: usize)
        ensures
            r as nat == mult_of(self@, name@),
    {
        let ghost ns = self.names.deep_view();
        let mut c: usize = 0;
        let mut p: usize = 0;
        proof {
            assert(ns.skip(0) =~= ns);
        }
        while p < self.names.len()
            invariant
                p <= ns.len(),
                ns == self.names.deep_view(),
                c <= p,
                c + count_in(ns.skip(p as int), name@) == count_in(ns, name@),
            decreases ns.len() - p,
        {
            proof {
                lemma_count_in_skip(ns, p as int, name@);
                assert(ns[p as int] =~= self.names@[p as int]@);
            }
            if chars_eq(&self.names[p], name) {
                c += 1;
            }
            p += 1;
        }
        proof {
            assert(ns.skip(ns.len() as int) =~= Seq::<Seq<char>>::empty());
        }
        c
    }

    /// The multiplicity recorded for `name`, given as text.
    pub fn get_str(&self, name: &str) -> (r: usize)
        ensures
            r as nat == mult_of(self@, name@),
    {
        let v = str_to_chars(name);
        self.get(&v)
    }

    /// Whether no name at all is referenced.
    pub fn is_empty(&self) -> (r: bool)
        ensures
            r == (forall|n: Seq<char>| #[trigger] mult_of(self@, n) == 0),
    {
        let ghost ns = self.names.deep_view();
        if self.names.len() == 0 {
            true
        } else {
            proof {
                lemma_count_in_skip(ns, 0, ns[0]);
                assert(count_in(ns, ns[0]) > 0);
                assert(mult_of(self@, ns[0]) > 0);
            }
            false
        }
    }
}

// --- Parsing ---

fn digit_or_hyphen_exec(c: char) -> (r: bool)
    ensures
        r == digit_or_hyphen(c),
{
    let u = c as u32;
    (48 <= u && u <= 57) || u == 45
}

fn zip_comma_vec() -> (v: Vec<char>)
    ensures
        v@ == zip_comma(),
{
    let v = vec!['.', 'z', 'i', 'p', ','];
    proof {
        assert(v@ =~= zip_comma());
    }
    v
}

proof fn lemma_class_run_skip(l: Seq<char>, k: int)
    requires
        0 <= k < l.len(),
        digit_or_hyphen(l[k]),
    ensures
        class_run(l.skip(k)) == 1 + class_run(l.skip(k + 1)),
{
    assert(l.skip(k).len() > 0);
    assert(l.skip(k)[0] == l[k]);
    assert(l.skip(k).skip(1) =~= l.skip(k + 1));
}

/// The name a single line references, if any.
fn match_line(l: &Vec<char>, pat: &Vec<char>) -> (r: Option<Vec<char>>)
    requires
        pat@ == zip_comma(),
    ensures
        match r {
            Some(v) => line_name(l@) == Some(v@),
            None => line_name(l@) is None,
        },
{
    let mut k: usize = 0;
    proof {
        assert(l@.skip(0) =~= l@);
    }
    while k < l.len() && digit_or_hyphen_exec(l[k])
        invariant
            k <= l@.len(),
            class_run(l@) == k + class_run(l@.skip(k as int)),
            forall|q: int| 0 <= q < k ==> digit_or_hyphen(l@[q]),
        decreases l@.len() - k,
    {
        proof {
            lemma_class_run_skip(l@, k as int);
        }
        k += 1;
    }
    proof {
        assert(class_run(l@.skip(k as int)) == 0);
        assert(class_run(l@) == k);
    }
    if k >= 1 && chars_matches_at(l, k, pat) {
        Some(chars_subrange(l, 0, k + 4))
    } else {
        None
    }
}

proof fn lemma_matched_push(ls: Seq<Seq<char>>, l: Seq<char>)
    ensures
        matched_of(ls.push(l)) == matched_of(ls) + (match line_name(l) {
            Some(n) => seq![n],
            None => Seq::<Seq<char>>::empty(),
        }),
    decreases ls.len(),
{
    let tail = match line_name(l) {
        Some(n) => seq![n],
        None => Seq::<Seq<char>>::empty(),
    };
    if ls.len() == 0 {
        assert(ls.push(l)[0] == l);
        assert(ls.push(l).skip(1) =~= Seq::<Seq<char>>::empty());
        assert(matched_of(ls.push(l)) == tail + matched_of(Seq::<Seq<char>>::empty()));
        assert(tail + Seq::<Seq<char>>::empty() =~~= tail);
        assert(matched_of(ls) + tail =~~= tail);
    } else {
        assert(ls.push(l)[0] == ls[0]);
        assert(ls.push(l).skip(1) =~= ls.skip(1).push(l));
        lemma_matched_push(ls.skip(1), l);
        let head = match line_name(ls[0]) {
            Some(n) => seq![n],
            None => Seq::<Seq<char>>::empty(),
        };
        assert(matched_of(ls.push(l)) == head + matched_of(ls.skip(1).push(l)));
        assert(head + (matched_of(ls.skip(1)) + tail) =~= (head + matched_of(ls.skip(1))) + tail);
    }
}

proof fn lemma_lines_acc_step(s: Seq<char>, p: int, cur: Seq<char>)
    requires
        0 <= p < s.len(),
    ensures
        s[p] == '\n' ==> lines_acc(s.skip(p), cur) == seq![strip_cr(cur)] + lines_acc(
            s.skip(p + 1),
            Seq::<char>::empty(),
        ),
        s[p] != '\n' ==> lines_acc(s.skip(p), cur) == lines_acc(s.skip(p + 1), cur.push(s[p])),
{
    assert(s.skip(p).len() > 0);
    assert(s.skip(p)[0] == s[p]);
    assert(s.skip(p).skip(1) =~= s.skip(p + 1));
}

/// Parse the decoded manifest text into the name-to-multiplicity mapping.
/// Every line that references a name raises that name's multiplicity by one;
/// all other lines are ignored.
pub fn parse_manifest_text(text: &str) -> (m: ManifestMap)
    ensures
        m@ == manifest_spec(text@),
{
    let chars = str_to_chars(text);
    let pat = zip_comma_vec();
    let mut names: Vec<Vec<char>> = Vec::new();
    let mut cur: Vec<char> = Vec::new();
    let ghost mut done: Seq<Seq<char>> = Seq::empty();
    let mut p: usize = 0;
    proof {
        assert(chars@.skip(0) =~= chars@);
        assert(lines_of(chars@) =~= done + lines_acc(chars@.skip(0), cur@));
        assert(matched_of(done) =~= Seq::<Seq<char>>::empty());
    }
    while p < chars.len()
        invariant
            p <= chars@.len(),
            pat@ == zip_comma(),
            lines_of(chars@) == done + lines_acc(chars@.skip(p as int), cur@),
            names.deep_view() == matched_of(done),
        decreases chars@.len() - p,
    {
        let ghost cur0 = cur@;
        let ghost done0 = done;
        proof {
            lemma_lines_acc_step(chars@, p as int, cur0);
        }
        let c = chars[p];
        if c == '\n' {
            let mut line = cur;
            cur = Vec::new();
            if line.len() > 0 && line[line.len() - 1] == '\r' {
                line.pop();
            }
            proof {
                assert(line@ =~~= strip_cr(cur0));
            }
            let ghost nsv0 = names.deep_view();
            match match_line(&line, &pat) {
                Some(nm) => {
                    names.push(nm);
                    proof {
                        assert(names.deep_view() =~~= nsv0.push(nm@));
                    }
                },
                None => {},
            }
            proof {
                done = done0.push(line@);
                lemma_matched_push(done0, line@);
                assert(done0.push(line@) =~~= done0 + seq![line@]);
                assert((done0 + seq![strip_cr(cur0)]) + lines_acc(
                    chars@.skip(p as int + 1),
                    Seq::<char>::empty(),
                ) =~~= done0 + (seq![strip_cr(cur0)] + lines_acc(
                    chars@.skip(p as int + 1),
                    Seq::<char>::empty(),
                )));
            }
        } else {
            cur.push(c);
        }
        p += 1;
    }
    proof {
        assert(chars@.skip(chars@.len() as int) =~~= Seq::<char>::empty());
    }
    let ghost done0 = done;
    let ghost cur0 = cur@;
    if cur.len() > 0 {
        let line = cur;
        let ghost nsv0 = names.deep_view();
        match match_line(&line, &pat) {
            Some(nm) => {
                names.push(nm);
                proof {
                    assert(names.deep_view() =~~= nsv0.push(nm@));
                }
            },
            None => {},
        }
        proof {
            done = done0.push(line@);
            lemma_matched_push(done0, line@);
            assert(done0.push(line@) =~~= done0 + seq![line@]);
            assert(lines_acc(Seq::<char>::empty(), cur0) =~~= seq![cur0]);
            assert(matched_of(done0) + Seq::<Seq<char>>::empty() =~~= matched_of(done0));
            assert(names.deep_view() =~~= matched_of(done));
        }
    } else {
        proof {
            assert(lines_acc(Seq::<char>::empty(), cur0) =~~= Seq::<Seq<char>>::empty());
            assert(done0 + Seq::<Seq<char>>::empty() =~~= done0);
        }
    }
    let m = ManifestMap { names };
    proof {
        assert(done =~~= lines_of(text@));
        assert(m.names.deep_view() =~~= matched_of(lines_of(text@)));
        assert forall|n: Seq<char>| #[trigger] count_in(m.names.deep_view(), n) == count_name(
            lines_of(text@),
            n,
        ) by {}
        assert(m@ =~= manifest_spec(text@));
    }
    m
}

} // verus!
