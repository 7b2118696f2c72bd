//! Discovered fund records, their values, and the dust partition used by the
//! conversion builder.

use vstd::prelude::*;

verus! {

/// A fund owned by the wallet, discovered while scanning a snapshot.
///
/// A single-address fund keeps the index of the candidate keypair that owns
/// it (its source address is that candidate's public key under the network's
/// discrimination tag); an account fund is owned by the wallet's account key.
#[derive(Clone, Copy, Debug, PartialEq, Eq, Structural)]
pub enum FundRecord {
    Utxo { key: usize, value: u64 },
    Account { value: u64 },
}

impl FundRecord {
    pub open spec fn spec_value(self) -> u64 {
        match self {
            FundRecord::Utxo { value, .. } => value,
            FundRecord::Account { value } => value,
        }
    }

    /// The value of the fund in atomic units.
    pub fn value(self) -> (r: u64)
        ensures
            r == self.spec_value(),
    {
        match self {
            FundRecord::Utxo { value, .. } => value,
            FundRecord::Account { value } => value,
        }
    }
}

/// The sum, over the integers, of the values of a sequence of funds.
pub open spec fn sum_values(s: Seq<FundRecord>) -> int
    decreases s.len(),
{
    if s.len() == 0 {
        0
    } else {
        sum_values(s.drop_last()) + s.last().spec_value()
    }
}

pub proof fn lemma_sum_nonneg(s: Seq<FundRecord>)
    ensures
        sum_values(s) >= 0,
    decreases s.len(),
{
    if s.len() > 0 {
        lemma_sum_nonneg(s.drop_last());
    }
}

pub proof fn lemma_sum_append(a: Seq<FundRecord>, b: Seq<FundRecord>)
    ensures
        sum_values(a + b) == sum_values(a) + sum_values(b),
    decreases b.len(),
{
    if b.len() == 0 {
        assert(a + b =~= a);
    } else {
        lemma_sum_append(a, b.drop_last());
        assert((a + b).drop_last() =~= a + b.drop_last());
        assert((a + b).last() == b.last());
    }
}

/// The sum of the values of a vector of funds, clamped at the largest
/// representable value.
pub fn sum_clamped(funds: &Vec<FundRecord>) -> (r: u64)
    ensures
        r as int == crate::bytes::clamp_u64(sum_values(funds@)),
{
    let mut acc: u64 = 0;
    let n: usize = funds.len();
    let mut t: usize = 0;
    while t < n
        invariant
            t <= n,
            n == funds@.len(),
            acc as int == crate::bytes::clamp_u64(sum_values(funds@.take(t as int))),
        decreases n - t,
    {
        proof {
            assert(funds@.take(t + 1).drop_last() =~= funds@.take(t as int));
            assert(funds@.take(t + 1).last() == funds@[t as int]);
            lemma_sum_nonneg(funds@.take(t as int));
        }
        acc = crate::bytes::sat_add(acc, funds[t].value());
        t = t + 1;
    }
    proof {
        assert(funds@.take(n as int) =~= funds@);
    }
    acc
}

/// A fund is dust when its value does not exceed its own marginal inclusion
/// cost: the fee delta (the per-piece fee coefficient) incurred by adding it
/// as one more input.
pub open spec fn is_dust(value: u64, coefficient: u64) -> bool {
    value <= coefficient
}

/// Executable form of the dust predicate, so its boundary can be tested.
pub fn fund_is_dust(value: u64, coefficient: u64) -> (r: bool)
    ensures
        r == is_dust(value, coefficient),
{
    value <= coefficient
}

/// The subsequence of funds that are dust under `coefficient`, in order.
pub open spec fn dust_of(s: Seq<FundRecord>, coefficient: u64) -> Seq<FundRecord>
    decreases s.len(),
{
    if s.len() == 0 {
        Seq::empty()
    } else if is_dust(s.last().spec_value(), coefficient) {
        dust_of(s.drop_last(), coefficient).push(s.last())
    } else {
        dust_of(s.drop_last(), coefficient)
    }
}

/// The subsequence of funds that are worth sweeping, in order.
pub open spec fn kept_of(s: Seq<FundRecord>, coefficient: u64) -> Seq<FundRecord>
    decreases s.len(),
{
    if s.len() == 0 {
        Seq::empty()
    } else if is_dust(s.last().spec_value(), coefficient) {
        kept_of(s.drop_last(), coefficient)
    } else {
        kept_of(s.drop_last(), coefficient).push(s.last())
    }
}

/// Every fund is accounted for exactly once: the dust set and the kept set
/// partition the fund set, so their values sum to the whole.
pub proof fn lemma_sum_partition(s: Seq<FundRecord>, coefficient: u64)
    ensures
        sum_values(dust_of(s, coefficient)) + sum_values(kept_of(s, coefficient)) == sum_values(s),
    decreases s.len(),
{
    if s.len() > 0 {
        lemma_sum_partition(s.drop_last(), coefficient);
        if is_dust(s.last().spec_value(), coefficient) {
            lemma_sum_push(dust_of(s.drop_last(), coefficient), s.last());
        } else {
            lemma_sum_push(kept_of(s.drop_last(), coefficient), s.last());
        }
    }
}

pub proof fn lemma_sum_push(s: Seq<FundRecord>, f: FundRecord)
    ensures
        sum_values(s.push(f)) == sum_values(s) + f.spec_value(),
{
    assert(s.push(f).drop_last() =~= s);
    assert(s.push(f).last() == f);
}

} // verus!
