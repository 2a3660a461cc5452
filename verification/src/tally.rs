use vstd::prelude::*;

verus! {

/// A pair of non-negative counters: how many leaf records were classified as
/// the "arbitrary" coordinate system and how many as the "public" one.
/// Counters are only ever added or scaled by non-negative multiplicities;
/// both operations saturate at `usize::MAX` instead of overflowing.
#[derive(Clone, Copy, PartialEq, Eq, Structural, Debug)]
pub struct Tally {
    pub arbitrary: usize,
    pub public: usize,
}

pub open spec fn tally_zero() -> Tally {
    Tally { arbitrary: 0, public: 0 }
}

/// Addition on one counter, saturating at `usize::MAX`.
pub open spec fn sat_add_spec(a: nat, b: nat) -> nat {
    if a + b > usize::MAX {
        usize::MAX as nat
    } else {
        a + b
    }
}

/// Multiplication on one counter, saturating at `usize::MAX`.
pub open spec fn sat_mul_spec(a: nat, b: nat) -> nat {
    if a * b > usize::MAX {
        usize::MAX as nat
    } else {
        a * b
    }
}

pub open spec fn tally_add_spec(a: Tally, b: Tally) -> Tally {
    Tally {
        arbitrary: sat_add_spec(a.arbitrary as nat, b.arbitrary as nat) as usize,
        public: sat_add_spec(a.public as nat, b.public as nat) as usize,
    }
}

pub open spec fn tally_scale_spec(t: Tally, k: nat) -> Tally {
    Tally {
        arbitrary: sat_mul_spec(t.arbitrary as nat, k) as usize,
        public: sat_mul_spec(t.public as nat, k) as usize,
    }
}

pub fn tally_new() -> (t: Tally)
    ensures
        t == tally_zero(),
{
    Tally { arbitrary: 0, public: 0 }
}

fn sat_add(a: usize, b: usize) -> (r: usize)
    ensures
        r as nat == sat_add_spec(a as nat, b as nat),
{
    match a.checked_add(b) {
        Some(s) => s,
        None => usize::MAX,
    }
}

fn sat_mul(a: usize, b: usize) -> (r: usize)
    ensures
        r as nat == sat_mul_spec(a as nat, b as nat),
{
    match a.checked_mul(b) {
        Some(p) => p,
        None => usize::MAX,
    }
}

pub fn tally_add(a: Tally, b: Tally) -> (r: Tally)
    ensures
        r == tally_add_spec(a, b),
{
    Tally { arbitrary: sat_add(a.arbitrary, b.arbitrary), public: sat_add(a.public, b.public) }
}

pub fn tally_scale(t: Tally, k: usize) -> (r: Tally)
    ensures
        r == tally_scale_spec(t, k as nat),
{
    Tally { arbitrary: sat_mul(t.arbitrary, k), public: sat_mul(t.public, k) }
}

/// Adding the empty tally changes nothing.
pub proof fn lemma_tally_add_zero(a: Tally)
    ensures
        tally_add_spec(a, tally_zero()) == a,
        tally_add_spec(tally_zero(), a) == a,
{
}

/// Tally addition is commutative: the order in which two per-archive results
/// are combined does not change the totals.
pub proof fn lemma_tally_add_comm(a: Tally, b: Tally)
    ensures
        tally_add_spec(a, b) == tally_add_spec(b, a),
{
}

/// Tally addition is associative: combining per-archive results in any
/// grouping yields the same totals.
pub proof fn lemma_tally_add_assoc(a: Tally, b: Tally, c: Tally)
    ensures
        tally_add_spec(tally_add_spec(a, b), c) == tally_add_spec(a, tally_add_spec(b, c)),
{
}

proof fn lemma_sat_mul_assoc(x: nat, a: nat, b: nat)
    ensures
        sat_mul_spec(sat_mul_spec(x, a), b) == sat_mul_spec(x, a * b),
{
    if b == 0 {
        assert(sat_mul_spec(x, a) * 0 == 0) by (nonlinear_arith);
        assert(x * (a * 0) == 0) by (nonlinear_arith);
    } else if x * a > usize::MAX {
        assert((usize::MAX as nat) * b >= usize::MAX) by (nonlinear_arith)
            requires
                b >= 1,
        ;
        assert(x * (a * b) >= x * a) by (nonlinear_arith)
            requires
                b >= 1,
        ;
    } else {
        assert((x * a) * b == x * (a * b)) by (nonlinear_arith);
    }
}

/// Scaling is multiplicative: scaling by one multiplicity and then another
/// is scaling by their product.
pub proof fn lemma_tally_scale_mul(t: Tally, a: nat, b: nat)
    ensures
        tally_scale_spec(tally_scale_spec(t, a), b) == tally_scale_spec(t, a * b),
{
    lemma_sat_mul_assoc(t.arbitrary as nat, a, b);
    lemma_sat_mul_assoc(t.public as nat, a, b);
}

} // verus!
