//! The wallet: key hierarchies recovered from a mnemonic, the fund set
//! discovered by scanning snapshots, and the externally synchronized account
//! state.

use vstd::prelude::*;

use crate::bytes::clamp_u64;
use crate::bytes::sat_add;
use crate::crypto::entropy_of;
use crate::crypto::mnemonic_is_valid;
use crate::crypto::seed_of;
use crate::errors::Error;
use crate::errors::ErrorKind;
use crate::funds::FundRecord;
use crate::funds::sum_values;
use crate::funds::lemma_sum_nonneg;
use crate::keys::ACCOUNT_TAG;
use crate::keys::Candidate;
use crate::keys::Scheme;
use crate::keys::address_of;
use crate::keys::child_keypair;
use crate::keys::derive_candidate;
use crate::keys::derive_child;
use crate::keys::make_address;
use crate::snapshot::RawFund;
use crate::snapshot::RawFundV;
use crate::snapshot::Settings;
use crate::snapshot::decode_snapshot;
use crate::snapshot::parse_snapshot;
use crate::snapshot::views_of;
use crate::crypto::mnemonic_entropy;
use crate::crypto::master_seed;

verus! {

/// Externally observed account state: balance and replay counter. The caller
/// is the sole authority for both.
#[derive(Clone, Copy, Debug, PartialEq, Eq, Structural)]
pub struct AccountState {
    pub value: u64,
    pub counter: u32,
}

/// How many child indices are derived per sequential scheme by `recover`.
pub const DEFAULT_INDEX_BOUND: u32 = 32;

/// A recovered wallet.
pub struct Wallet {
    /// Candidate keypairs of every supported scheme, legacy children first.
    pub candidates: Vec<Candidate>,
    /// 64-byte extended secret of the new-format account.
    pub account_secret: Vec<u8>,
    /// 32-byte public key of the new-format account; also its identifier.
    pub account_public: Vec<u8>,
    /// Funds discovered by scanning snapshots.
    pub funds: Vec<FundRecord>,
    /// Account state, synchronized by the caller through `set_state`.
    pub state: AccountState,
}

/// A fund record never refers to a candidate the wallet does not hold.
pub open spec fn fund_key_ok(f: FundRecord, n: int) -> bool {
    match f {
        FundRecord::Utxo { key, .. } => key < n,
        FundRecord::Account { .. } => true,
    }
}

/// The total value of a wallet: its discovered funds plus its account state.
pub open spec fn total_spec(w: Wallet) -> int {
    sum_values(w.funds@) + w.state.value
}

/// The wallet's keys all derive from `seed`: `bound` legacy children, then
/// `bound` standard children, then the account keypair.
pub open spec fn derived_from(w: Wallet, seed: Seq<u8>, bound: u32) -> bool {
    &&& w.candidates@.len() == 2 * bound
    &&& forall|k: int|
        0 <= k < bound ==> (#[trigger] w.candidates@[k]).is_child_of(seed, Scheme::Legacy, k as u32)
    &&& forall|k: int|
        bound <= k < 2 * bound ==> (#[trigger] w.candidates@[k]).is_child_of(
            seed,
            Scheme::Standard,
            (k - bound) as u32,
        )
    &&& w.account_secret@ == child_keypair(seed, ACCOUNT_TAG, 0).0
    &&& w.account_public@ == child_keypair(seed, ACCOUNT_TAG, 0).1
}

/// The first candidate, scanning from `k`, whose address under
/// `discrimination` equals `owner`.
pub open spec fn find_candidate(
    cands: Seq<Candidate>,
    discrimination: u8,
    owner: Seq<u8>,
    k: int,
) -> Option<int>
    decreases cands.len() - k,
{
    if k < 0 || k >= cands.len() {
        None
    } else if owner == address_of(discrimination, cands[k].public@) {
        Some(k)
    } else {
        find_candidate(cands, discrimination, owner, k + 1)
    }
}

pub proof fn lemma_find_in_range(cands: Seq<Candidate>, discrimination: u8, owner: Seq<u8>, k: int)
    ensures
        find_candidate(cands, discrimination, owner, k) matches Some(j) ==> k <= j
            < cands.len(),
    decreases cands.len() - k,
{
    if 0 <= k < cands.len() && owner != address_of(discrimination, cands[k].public@) {
        lemma_find_in_range(cands, discrimination, owner, k + 1);
    }
}

/// Whether a raw fund record belongs to the wallet, and as which fund.
pub open spec fn match_raw(
    cands: Seq<Candidate>,
    account_public: Seq<u8>,
    discrimination: u8,
    f: RawFundV,
) -> Option<FundRecord> {
    if f.account {
        if f.owner == account_public {
            Some(FundRecord::Account { value: f.value })
        } else {
            None
        }
    } else {
        match find_candidate(cands, discrimination, f.owner, 0) {
            Some(k) => Some(FundRecord::Utxo { key: k as usize, value: f.value }),
            None => None,
        }
    }
}

/// The funds a scan appends: each matching raw record, in snapshot order.
pub open spec fn matched_funds(
    cands: Seq<Candidate>,
    account_public: Seq<u8>,
    discrimination: u8,
    raws: Seq<RawFundV>,
) -> Seq<FundRecord>
    decreases raws.len(),
{
    if raws.len() == 0 {
        Seq::empty()
    } else {
        let rest = matched_funds(cands, account_public, discrimination, raws.drop_last());
        match match_raw(cands, account_public, discrimination, raws.last()) {
            Some(f) => rest.push(f),
            None => rest,
        }
    }
}

impl Wallet {
    /// Structural well-formedness: key material has the right widths and no
    /// fund refers outside the candidate list.
    pub open spec fn wf(self) -> bool {
        &&& self.account_secret@.len() == 64
        &&& self.account_public@.len() == 32
        &&& forall|k: int|
            0 <= k < self.candidates@.len() ==> (#[trigger] self.candidates@[k]).wf()
        &&& forall|k: int|
            0 <= k < self.funds@.len() ==> fund_key_ok(
                #[trigger] self.funds@[k],
                self.candidates@.len() as int,
            )
    }

    /// Recover a wallet from a mnemonic phrase and an optional passphrase
    /// (absence is an empty byte sequence), deriving `bound` child keys per
    /// supported scheme. Succeeds exactly on valid mnemonics; the fresh
    /// wallet holds no funds and a zeroed account state, so its total value
    /// is zero.
    pub fn recover_with_bound(mnemonic: &str, passphrase: &[u8], bound: u32) -> (r: Result<
        Wallet,
        Error,
    >)
        ensures
            r is Ok <==> mnemonic_is_valid(mnemonic@),
            r matches Err(e) ==> e.kind == ErrorKind::InvalidMnemonic,
            r matches Ok(w) ==> {
                &&& w.wf()
                &&& derived_from(w, seed_of(entropy_of(mnemonic@), passphrase@), bound)
                &&& w.funds@ == Seq::<FundRecord>::empty()
                &&& w.state == (AccountState { value: 0u64, counter: 0u32 })
                &&& total_spec(w) == 0
            },
    {
        let entropy = match mnemonic_entropy(mnemonic) {
            Some(e) => e,
            None => {
                return Err(Error::invalid_mnemonic());
            },
        };
        let pass = vstd::slice::slice_to_vec(passphrase);
        let seed = master_seed(&entropy, &pass);
        let mut candidates: Vec<Candidate> = Vec::new();
        let mut idx: u32 = 0;
        while idx < bound
            invariant
                idx <= bound,
                candidates@.len() == idx,
                seed@ == seed_of(entropy_of(mnemonic@), passphrase@),
                forall|k: int|
                    0 <= k < idx ==> (#[trigger] candidates@[k]).is_child_of(
                        seed@,
                        Scheme::Legacy,
                        k as u32,
                    ) && candidates@[k].wf(),
            decreases bound - idx,
        {
            candidates.push(derive_candidate(&seed, Scheme::Legacy, idx));
            idx = idx + 1;
        }
        let mut idx2: u32 = 0;
        while idx2 < bound
            invariant
                idx2 <= bound,
                candidates@.len() == bound + idx2,
                seed@ == seed_of(entropy_of(mnemonic@), passphrase@),
                forall|k: int|
                    0 <= k < bound ==> (#[trigger] candidates@[k]).is_child_of(
                        seed@,
                        Scheme::Legacy,
                        k as u32,
                    ) && candidates@[k].wf(),
                forall|k: int|
                    bound <= k < bound + idx2 ==> (#[trigger] candidates@[k]).is_child_of(
                        seed@,
                        Scheme::Standard,
                        (k - bound) as u32,
                    ) && candidates@[k].wf(),
            decreases bound - idx2,
        {
            candidates.push(derive_candidate(&seed, Scheme::Standard, idx2));
            idx2 = idx2 + 1;
        }
        let (account_secret, account_public) = derive_child(&seed, ACCOUNT_TAG, 0);
        let w = Wallet {
            candidates,
            account_secret,
            account_public,
            funds: Vec::new(),
            state: AccountState { value: 0, counter: 0 },
        };
        Ok(w)
    }

    /// `recover_with_bound` at the engine's default index bound.
    pub fn recover(mnemonic: &str, passphrase: &[u8]) -> (r: Result<Wallet, Error>)
        ensures
            r is Ok <==> mnemonic_is_valid(mnemonic@),
            r matches Err(e) ==> e.kind == ErrorKind::InvalidMnemonic,
            r matches Ok(w) ==> {
                &&& w.wf()
                &&& derived_from(
                    w,
                    seed_of(entropy_of(mnemonic@), passphrase@),
                    DEFAULT_INDEX_BOUND,
                )
                &&& w.funds@ == Seq::<FundRecord>::empty()
                &&& w.state == (AccountState { value: 0u64, counter: 0u32 })
                &&& total_spec(w) == 0
            },
    {
        Self::recover_with_bound(mnemonic, passphrase, DEFAULT_INDEX_BOUND)
    }

    /// Scan a snapshot: extract its protocol parameters and append to the
    /// wallet every initial fund owned by one of its candidate addresses or
    /// by its account key. Fails exactly on malformed snapshots, leaving the
    /// wallet unchanged; repeated scans accumulate.
    pub fn retrieve_funds(&mut self, snapshot: &[u8]) -> (r: Result<Settings, Error>)
        requires
            old(self).wf(),
        ensures
            final(self).wf(),
            r is Ok <==> parse_snapshot(snapshot@) is Some,
            r matches Err(e) ==> e.kind == ErrorKind::MalformedSnapshot
                && *final(self) == *old(self),
            r matches Ok(st) ==> (parse_snapshot(snapshot@) matches Some(p)
                && st == p.0
                && final(self).funds@ == old(self).funds@ + matched_funds(
                    old(self).candidates@,
                    old(self).account_public@,
                    p.0.discrimination,
                    p.1,
                )
                && final(self).candidates == old(self).candidates
                && final(self).account_secret == old(self).account_secret
                && final(self).account_public == old(self).account_public
                && final(self).state == old(self).state),
    {
        let bytes = vstd::slice::slice_to_vec(snapshot);
        let (settings, raws) = match decode_snapshot(&bytes) {
            Ok(p) => p,
            Err(e) => {
                return Err(e);
            },
        };
        let ghost all = views_of(raws@);
        let n: usize = raws.len();
        let mut t: usize = 0;
        proof {
            lemma_views_len(raws@);
        }
        while t < n
            invariant
                t <= n,
                n == raws@.len(),
                all == views_of(raws@),
                all.len() == n,
                self.candidates == old(self).candidates,
                self.account_secret == old(self).account_secret,
                self.account_public == old(self).account_public,
                self.state == old(self).state,
                old(self).wf(),
                self.wf(),
                self.funds@ == old(self).funds@ + matched_funds(
                    self.candidates@,
                    self.account_public@,
                    settings.discrimination,
                    all.take(t as int),
                ),
            decreases n - t,
        {
            proof {
                lemma_views_index(raws@, t as int);
                assert(all.take(t + 1).drop_last() =~= all.take(t as int));
                assert(all.take(t + 1).last() == all[t as int]);
            }
            let m = match_one(&self.candidates, &self.account_public, settings.discrimination, &raws[t]);
            match m {
                Some(f) => {
                    self.funds.push(f);
                },
                None => {},
            }
            t = t + 1;
        }
        proof {
            assert(all.take(n as int) =~= all);
        }
        Ok(settings)
    }

    /// The wallet's total value: the sum of its discovered funds plus its
    /// account-state value, clamped at the largest representable value.
    pub fn total_value(&self) -> (r: u64)
        ensures
            r as int == clamp_u64(total_spec(*self)),
    {
        let mut acc: u64 = 0;
        let n: usize = self.funds.len();
        let mut t: usize = 0;
        while t < n
            invariant
                t <= n,
                n == self.funds@.len(),
                acc as int == clamp_u64(sum_values(self.funds@.take(t as int))),
            decreases n - t,
        {
            proof {
                assert(self.funds@.take(t + 1).drop_last() =~= self.funds@.take(t as int));
                assert(self.funds@.take(t + 1).last() == self.funds@[t as int]);
                lemma_sum_nonneg(self.funds@.take(t as int));
            }
            acc = sat_add(acc, self.funds[t].value());
            t = t + 1;
        }
        proof {
            assert(self.funds@.take(n as int) =~= self.funds@);
            lemma_sum_nonneg(self.funds@);
        }
        sat_add(acc, self.state.value)
    }

    /// Unconditionally overwrite the account state with externally observed
    /// values. Nothing else about the wallet changes.
    pub fn set_state(&mut self, value: u64, counter: u32)
        ensures
            final(self).state == (AccountState { value, counter }),
            final(self).funds == old(self).funds,
            final(self).candidates == old(self).candidates,
            final(self).account_secret == old(self).account_secret,
            final(self).account_public == old(self).account_public,
            old(self).wf() ==> final(self).wf(),
    {
        self.state = AccountState { value, counter };
    }

    /// How many candidate keypairs the wallet retains.
    pub fn candidate_count(&self) -> (r: usize)
        ensures
            r == self.candidates@.len(),
    {
        self.candidates.len()
    }

    /// The address of candidate `k` on the network tagged `discrimination`,
    /// or an out-of-bound failure when the wallet has no such candidate.
    pub fn candidate_address(&self, k: usize, discrimination: u8) -> (r: Result<Vec<u8>, Error>)
        requires
            self.wf(),
        ensures
            r is Ok <==> k < self.candidates@.len(),
            r matches Ok(a) ==> a@ == address_of(discrimination, self.candidates@[k as int].public@),
            r matches Err(e) ==> e.kind == ErrorKind::OutOfBound,
    {
        if k < self.candidates.len() {
            Ok(make_address(discrimination, &self.candidates[k].public))
        } else {
            Err(Error::out_of_bound())
        }
    }

    /// The wallet's account identifier: its new-format public key.
    pub fn account_id(&self) -> (r: &Vec<u8>)
        ensures
            r@ == self.account_public@,
    {
        &self.account_public
    }
}

/// Scans accumulate and never double count: when a scan appends a batch of
/// matched funds and leaves the account state alone, the wallet's total value
/// grows by exactly the batch's sum. In particular, after one scan of a
/// snapshot holding one fund of value `v` addressed to the wallet, a fresh
/// wallet's total value is exactly `v`.
pub proof fn lemma_scan_accumulates(w0: Wallet, w1: Wallet, added: Seq<FundRecord>)
    requires
        w1.funds@ == w0.funds@ + added,
        w1.state == w0.state,
    ensures
        total_spec(w1) == total_spec(w0) + sum_values(added),
{
    crate::funds::lemma_sum_append(w0.funds@, added);
}

pub proof fn lemma_views_len(s: Seq<RawFund>)
    ensures
        views_of(s).len() == s.len(),
    decreases s.len(),
{
    if s.len() > 0 {
        lemma_views_len(s.drop_last());
    }
}

pub proof fn lemma_views_index(s: Seq<RawFund>, k: int)
    requires
        0 <= k < s.len(),
    ensures
        views_of(s).len() == s.len(),
        views_of(s)[k] == s[k]@,
    decreases s.len(),
{
    lemma_views_len(s);
    if k < s.len() - 1 {
        lemma_views_index(s.drop_last(), k);
    }
}

/// Whether one raw fund belongs to the wallet, and as which fund record.
fn match_one(
    cands: &Vec<Candidate>,
    account_public: &Vec<u8>,
    discrimination: u8,
    f: &RawFund,
) -> (r: Option<FundRecord>)
    requires
        forall|k: int| 0 <= k < cands@.len() ==> (#[trigger] cands@[k]).wf(),
    ensures
        r == match_raw(cands@, account_public@, discrimination, f@),
        r matches Some(rec) ==> fund_key_ok(rec, cands@.len() as int),
{
    if f.account {
        if bytes_eq(&f.owner, account_public) {
            Some(FundRecord::Account { value: f.value })
        } else {
            None
        }
    } else {
        match find_matching(cands, discrimination, &f.owner) {
            Some(k) => {
                proof {
                    lemma_find_in_range(cands@, discrimination, f.owner@, 0);
                }
                Some(FundRecord::Utxo { key: k, value: f.value })
            },
            None => None,
        }
    }
}

/// The first candidate whose address under `discrimination` is `owner`.
fn find_matching(cands: &Vec<Candidate>, discrimination: u8, owner: &Vec<u8>) -> (r: Option<usize>)
    requires
        forall|k: int| 0 <= k < cands@.len() ==> (#[trigger] cands@[k]).wf(),
    ensures
        r is None <==> find_candidate(cands@, discrimination, owner@, 0) is None,
        r matches Some(k) ==> find_candidate(cands@, discrimination, owner@, 0) == Some(k as int),
{
    let n: usize = cands.len();
    let mut k: usize = 0;
    while k < n
        invariant
            k <= n,
            n == cands@.len(),
            forall|j: int| 0 <= j < cands@.len() ==> (#[trigger] cands@[j]).wf(),
            find_candidate(cands@, discrimination, owner@, 0) == find_candidate(
                cands@,
                discrimination,
                owner@,
                k as int,
            ),
        decreases n - k,
    {
        let addr = make_address(discrimination, &cands[k].public);
        if bytes_eq(owner, &addr) {
            proof {
                assert(owner@ == address_of(discrimination, cands@[k as int].public@));
            }
            return Some(k);
        }
        k = k + 1;
    }
    None
}

/// Whether two byte vectors hold the same bytes.
pub fn bytes_eq(a: &Vec<u8>, b: &Vec<u8>) -> (r: bool)
    ensures
        r <==> a@ == b@,
{
    let n: usize = a.len();
    if n != b.len() {
        proof {
            assert(a@.len() != b@.len());
        }
        return false;
    }
    let mut j: usize = 0;
    while j < n
        invariant
            j <= n,
            n == a@.len(),
            n == b@.len(),
            forall|i: int| 0 <= i < j ==> a@[i] == b@[i],
        decreases n - j,
    {
        if a[j] != b[j] {
            return false;
        }
        j = j + 1;
    }
    proof {
        assert(a@ =~= b@);
    }
    true
}

} // verus!
