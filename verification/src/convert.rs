//! The conversion builder: group the wallet's swept-worthy funds into sweep
//! transactions paying the wallet's new-format account, setting dust aside.

use vstd::prelude::*;

use crate::bytes::clamp_u64;
use crate::bytes::le64_bytes;
use crate::bytes::push_bytes;
use crate::bytes::push_u64_le;
use crate::bytes::sat_add;
use crate::crypto::digest256;
use crate::crypto::digest256_of;
use crate::crypto::sign;
use crate::crypto::signature_of;
use crate::errors::Error;
use crate::errors::ErrorKind;
use crate::funds::FundRecord;
use crate::funds::dust_of;
use crate::funds::fund_is_dust;
use crate::funds::kept_of;
use crate::funds::lemma_sum_partition;
use crate::funds::sum_clamped;
use crate::funds::sum_values;
use crate::keys::address_of;
use crate::keys::make_address;
use crate::snapshot::Settings;
use crate::wallet::Wallet;
use crate::wallet::fund_key_ok;
use crate::wallet::total_spec;

verus! {

/// Maximum encoded size of one sweep transaction, a protocol constant.
pub const MAX_TRANSACTION_SIZE: usize = 8192;

/// Bytes of the input/output count header.
pub const TX_HEADER_LEN: usize = 2;

/// Bytes of the single output: address plus value.
pub const TX_OUTPUT_LEN: usize = 41;

/// Worst-case bytes of one encoded input: kind, owner, value.
pub const TX_INPUT_LEN: usize = 42;

/// Bytes of one witness signature.
pub const TX_WITNESS_LEN: usize = 64;

/// Per-transaction input bound implied by the maximum transaction size: the
/// largest count whose inputs and witnesses fit beside the header and the
/// single output.
pub const MAX_INPUTS_PER_TX: usize = 76;

/// The input bound is what the maximum transaction size allows: one more
/// input would not fit.
pub proof fn lemma_input_bound_fits()
    ensures
        MAX_INPUTS_PER_TX * (TX_INPUT_LEN + TX_WITNESS_LEN) + TX_HEADER_LEN + TX_OUTPUT_LEN
            <= MAX_TRANSACTION_SIZE,
        (MAX_INPUTS_PER_TX + 1) * (TX_INPUT_LEN + TX_WITNESS_LEN) + TX_HEADER_LEN + TX_OUTPUT_LEN
            > MAX_TRANSACTION_SIZE,
{
}

/// One sweep transaction: its signed bytes, and the funds it spends.
pub struct BuiltTransaction {
    pub bytes: Vec<u8>,
    pub inputs: Vec<FundRecord>,
}

/// The output of one build pass: the sweep transactions in order, and the
/// dust funds that could not be economically included.
pub struct Conversion {
    pub transactions: Vec<BuiltTransaction>,
    pub ignored: Vec<FundRecord>,
}

/// The funds spent across all transactions, in order.
pub open spec fn spent_of(txs: Seq<BuiltTransaction>) -> Seq<FundRecord>
    decreases txs.len(),
{
    if txs.len() == 0 {
        Seq::empty()
    } else {
        spent_of(txs.drop_last()) + txs.last().inputs@
    }
}

pub proof fn lemma_spent_push(txs: Seq<BuiltTransaction>, t: BuiltTransaction)
    ensures
        spent_of(txs.push(t)) == spent_of(txs) + t.inputs@,
{
    assert(txs.push(t).drop_last() =~= txs);
    assert(txs.push(t).last() == t);
}

/// The key material that signs a fund: the owning candidate's secret for a
/// single-address fund, the account secret for an account fund.
pub open spec fn secret_of(w: Wallet, f: FundRecord) -> Seq<u8> {
    match f {
        FundRecord::Utxo { key, .. } => w.candidates@[key as int].secret@,
        FundRecord::Account { .. } => w.account_secret@,
    }
}

/// The encoding of one input: kind byte, owning address or account
/// identifier, value.
pub open spec fn encode_input(w: Wallet, discrimination: u8, f: FundRecord) -> Seq<u8> {
    match f {
        FundRecord::Utxo { key, value } => seq![0u8] + address_of(
            discrimination,
            w.candidates@[key as int].public@,
        ) + le64_bytes(value),
        FundRecord::Account { value } => seq![1u8] + w.account_public@ + le64_bytes(value),
    }
}

/// The concatenated encodings of a group of inputs, in order.
pub open spec fn encode_inputs(w: Wallet, discrimination: u8, s: Seq<FundRecord>) -> Seq<u8>
    decreases s.len(),
{
    if s.len() == 0 {
        Seq::empty()
    } else {
        encode_inputs(w, discrimination, s.drop_last()) + encode_input(w, discrimination, s.last())
    }
}

/// The linear fee of a transaction with the given piece counts.
pub open spec fn fee_of(st: Settings, n_inputs: int, n_outputs: int) -> int {
    st.fee_constant + st.fee_coefficient * (n_inputs + n_outputs)
}

/// The value of the single output sweeping `group`: what the inputs carry
/// minus the fee, zero when the fee eats the whole group.
pub open spec fn output_value(st: Settings, group: Seq<FundRecord>) -> u64 {
    let total = clamp_u64(sum_values(group));
    let fee = clamp_u64(fee_of(st, group.len() as int, 1));
    if total > fee {
        (total - fee) as u64
    } else {
        0u64
    }
}

/// The unsigned payload of one sweep transaction: counts, encoded inputs,
/// and the single output paying the wallet's account address.
pub open spec fn payload_of(w: Wallet, st: Settings, group: Seq<FundRecord>) -> Seq<u8> {
    seq![group.len() as u8, 1u8] + encode_inputs(w, st.discrimination, group) + address_of(
        st.discrimination,
        w.account_public@,
    ) + le64_bytes(output_value(st, group))
}

/// The concatenated witnesses: one signature of the payload digest per
/// input, by the key that owns it, in input order.
pub open spec fn witnesses_of(w: Wallet, txid: Seq<u8>, group: Seq<FundRecord>) -> Seq<u8>
    decreases group.len(),
{
    if group.len() == 0 {
        Seq::empty()
    } else {
        witnesses_of(w, txid, group.drop_last()) + signature_of(txid, secret_of(w, group.last()))
    }
}

/// The signed bytes of one sweep transaction.
pub open spec fn blob_of(w: Wallet, st: Settings, group: Seq<FundRecord>) -> Seq<u8> {
    payload_of(w, st, group) + witnesses_of(
        w,
        digest256_of(payload_of(w, st, group)),
        group,
    )
}

/// Build and sign the one transaction sweeping `group` into the wallet's
/// account address.
fn build_transaction(w: &Wallet, st: &Settings, group: Vec<FundRecord>) -> (r: BuiltTransaction)
    requires
        w.wf(),
        1 <= group@.len() <= MAX_INPUTS_PER_TX,
        forall|i: int|
            0 <= i < group@.len() ==> fund_key_ok(#[trigger] group@[i], w.candidates@.len() as int),
    ensures
        r.inputs@ == group@,
        r.bytes@ == blob_of(*w, *st, group@),
        1 <= r.bytes@.len() <= MAX_TRANSACTION_SIZE,
{
    let n_in: usize = group.len();
    assert(MAX_INPUTS_PER_TX <= 255);
    let mut payload: Vec<u8> = Vec::new();
    payload.push(n_in as u8);
    payload.push(1u8);
    let ghost header: Seq<u8> = seq![group@.len() as u8, 1u8];
    assert(payload@ =~= header);
    let mut t: usize = 0;
    while t < n_in
        invariant
            t <= n_in,
            n_in == group@.len(),
            w.wf(),
            forall|i: int|
                0 <= i < group@.len() ==> fund_key_ok(
                    #[trigger] group@[i],
                    w.candidates@.len() as int,
                ),
            payload@ == header + encode_inputs(*w, st.discrimination, group@.take(t as int)),
            payload@.len() <= TX_HEADER_LEN + TX_INPUT_LEN * t,
        decreases n_in - t,
    {
        proof {
            assert(group@.take(t + 1).drop_last() =~= group@.take(t as int));
            assert(group@.take(t + 1).last() == group@[t as int]);
        }
        match group[t] {
            FundRecord::Utxo { key, value } => {
                payload.push(0u8);
                let addr = make_address(st.discrimination, &w.candidates[key].public);
                push_bytes(&mut payload, &addr);
                push_u64_le(&mut payload, value);
                proof {
                    assert(payload@ =~= header + encode_inputs(
                        *w,
                        st.discrimination,
                        group@.take(t + 1),
                    ));
                }
            },
            FundRecord::Account { value } => {
                payload.push(1u8);
                push_bytes(&mut payload, &w.account_public);
                push_u64_le(&mut payload, value);
                proof {
                    assert(payload@ =~= header + encode_inputs(
                        *w,
                        st.discrimination,
                        group@.take(t + 1),
                    ));
                }
            },
        }
        t = t + 1;
    }
    proof {
        assert(group@.take(n_in as int) =~= group@);
    }
    let out_addr = make_address(st.discrimination, &w.account_public);
    push_bytes(&mut payload, &out_addr);
    let total = sum_clamped(&group);
    let pieces: u64 = (n_in as u64) + 1;
    let fee: u64 = match st.fee_coefficient.checked_mul(pieces) {
        Some(v) => sat_add(st.fee_constant, v),
        None => u64::MAX,
    };
    proof {
        assert(fee as int == clamp_u64(fee_of(*st, group@.len() as int, 1)));
    }
    let out_value: u64 = if total > fee {
        total - fee
    } else {
        0
    };
    push_u64_le(&mut payload, out_value);
    proof {
        assert(payload@ =~= payload_of(*w, *st, group@));
    }
    let txid = digest256(&payload);
    let ghost payload_view = payload@;
    let mut blob = payload;
    let mut t2: usize = 0;
    while t2 < n_in
        invariant
            t2 <= n_in,
            n_in == group@.len(),
            w.wf(),
            forall|i: int|
                0 <= i < group@.len() ==> fund_key_ok(
                    #[trigger] group@[i],
                    w.candidates@.len() as int,
                ),
            txid@ == digest256_of(payload_view),
            txid@.len() == 32,
            payload_view.len() <= TX_HEADER_LEN + TX_INPUT_LEN * n_in + TX_OUTPUT_LEN,
            blob@ == payload_view + witnesses_of(*w, txid@, group@.take(t2 as int)),
            blob@.len() <= payload_view.len() + TX_WITNESS_LEN * t2,
        decreases n_in - t2,
    {
        proof {
            assert(group@.take(t2 + 1).drop_last() =~= group@.take(t2 as int));
            assert(group@.take(t2 + 1).last() == group@[t2 as int]);
        }
        let sig = match group[t2] {
            FundRecord::Utxo { key, .. } => sign(&txid, &w.candidates[key].secret),
            FundRecord::Account { .. } => sign(&txid, &w.account_secret),
        };
        push_bytes(&mut blob, &sig);
        proof {
            assert(blob@ =~= payload_view + witnesses_of(*w, txid@, group@.take(t2 + 1)));
        }
        t2 = t2 + 1;
    }
    proof {
        assert(group@.take(n_in as int) =~= group@);
        assert(blob@ =~= blob_of(*w, *st, group@));
        assert(blob@.len() <= TX_HEADER_LEN + TX_INPUT_LEN * MAX_INPUTS_PER_TX + TX_OUTPUT_LEN
            + TX_WITNESS_LEN * MAX_INPUTS_PER_TX);
    }
    BuiltTransaction { bytes: blob, inputs: group }
}

impl Conversion {
    /// Every transaction's byte blob is non-empty and spends at least one
    /// fund; only the last transaction may be short of the input bound.
    pub open spec fn wf(self) -> bool {
        forall|i: int|
            0 <= i < self.transactions@.len() ==> 1 <= (
            #[trigger] self.transactions@[i]).bytes@.len()
    }

    /// How many sweep transactions the conversion holds.
    pub fn transactions_size(&self) -> (r: usize)
        ensures
            r == self.transactions@.len(),
    {
        self.transactions.len()
    }

    /// The bytes of the transaction at `index`. Succeeds exactly when the
    /// index is in range, with a non-empty byte view; any index at or past
    /// the size is an out-of-bound failure.
    pub fn transactions_get(&self, index: usize) -> (r: Result<&Vec<u8>, Error>)
        requires
            self.wf(),
        ensures
            r is Ok <==> index < self.transactions@.len(),
            r matches Ok(b) ==> b@ == self.transactions@[index as int].bytes@ && b@.len() >= 1,
            r matches Err(e) ==> e.kind == ErrorKind::OutOfBound,
    {
        if index < self.transactions.len() {
            Ok(&self.transactions[index].bytes)
        } else {
            Err(Error::out_of_bound())
        }
    }

    /// The total value lost to dust, clamped at the largest representable
    /// value.
    pub fn ignored_value(&self) -> (r: u64)
        ensures
            r as int == clamp_u64(sum_values(self.ignored@)),
    {
        sum_clamped(&self.ignored)
    }

    /// How many dust funds were set aside.
    pub fn ignored_count(&self) -> (r: usize)
        ensures
            r == self.ignored@.len(),
    {
        self.ignored.len()
    }
}

impl Wallet {
    /// Build the conversion sweeping this wallet's discovered funds into its
    /// new-format account address: dust funds are set aside as ignored, the
    /// rest are grouped in order into transactions of at most
    /// `MAX_INPUTS_PER_TX` inputs, every group but the last exactly full.
    /// Read-only: repeated calls return the same conversion. An empty fund
    /// set yields zero transactions and zero ignored funds. Every discovered
    /// fund lands in exactly one transaction's inputs or in the ignored set,
    /// so the two sides sum to the whole fund set.
    pub fn convert(&self, settings: &Settings) -> (r: Conversion)
        requires
            self.wf(),
        ensures
            r.ignored@ == dust_of(self.funds@, settings.fee_coefficient),
            spent_of(r.transactions@) == kept_of(self.funds@, settings.fee_coefficient),
            forall|i: int|
                0 <= i < r.transactions@.len() ==> {
                    let t = #[trigger] r.transactions@[i];
                    &&& 1 <= t.inputs@.len() <= MAX_INPUTS_PER_TX
                    &&& t.bytes@ == blob_of(*self, *settings, t.inputs@)
                    &&& 1 <= t.bytes@.len() <= MAX_TRANSACTION_SIZE
                },
            forall|i: int|
                0 <= i < r.transactions@.len() - 1 ==> (
                #[trigger] r.transactions@[i]).inputs@.len() == MAX_INPUTS_PER_TX,
            sum_values(r.ignored@) + sum_values(spent_of(r.transactions@)) == sum_values(
                self.funds@,
            ),
            self.funds@.len() == 0 ==> r.transactions@.len() == 0 && r.ignored@.len() == 0,
            r.wf(),
    {
        let coefficient = settings.fee_coefficient;
        let n: usize = self.funds.len();
        let mut ignored: Vec<FundRecord> = Vec::new();
        let mut kept: Vec<FundRecord> = Vec::new();
        let mut t: usize = 0;
        while t < n
            invariant
                t <= n,
                n == self.funds@.len(),
                self.wf(),
                coefficient == settings.fee_coefficient,
                ignored@ == dust_of(self.funds@.take(t as int), coefficient),
                kept@ == kept_of(self.funds@.take(t as int), coefficient),
                forall|i: int|
                    0 <= i < kept@.len() ==> fund_key_ok(
                        #[trigger] kept@[i],
                        self.candidates@.len() as int,
                    ),
            decreases n - t,
        {
            proof {
                assert(self.funds@.take(t + 1).drop_last() =~= self.funds@.take(t as int));
                assert(self.funds@.take(t + 1).last() == self.funds@[t as int]);
            }
            let f = self.funds[t];
            if fund_is_dust(f.value(), coefficient) {
                ignored.push(f);
            } else {
                kept.push(f);
            }
            t = t + 1;
        }
        proof {
            assert(self.funds@.take(n as int) =~= self.funds@);
        }
        let m: usize = kept.len();
        let mut transactions: Vec<BuiltTransaction> = Vec::new();
        let mut group: Vec<FundRecord> = Vec::new();
        let mut j: usize = 0;
        while j < m
            invariant
                j <= m,
                m == kept@.len(),
                self.wf(),
                group@.len() < MAX_INPUTS_PER_TX,
                spent_of(transactions@) + group@ == kept@.take(j as int),
                forall|i: int|
                    0 <= i < kept@.len() ==> fund_key_ok(
                        #[trigger] kept@[i],
                        self.candidates@.len() as int,
                    ),
                forall|i: int|
                    0 <= i < group@.len() ==> fund_key_ok(
                        #[trigger] group@[i],
                        self.candidates@.len() as int,
                    ),
                forall|i: int|
                    0 <= i < transactions@.len() ==> {
                        let tx = #[trigger] transactions@[i];
                        &&& tx.inputs@.len() == MAX_INPUTS_PER_TX
                        &&& tx.bytes@ == blob_of(*self, *settings, tx.inputs@)
                        &&& 1 <= tx.bytes@.len() <= MAX_TRANSACTION_SIZE
                    },
            decreases m - j,
        {
            group.push(kept[j]);
            proof {
                assert(kept@.take(j + 1) =~= kept@.take(j as int).push(kept@[j as int]));
                assert(spent_of(transactions@) + group@ =~= kept@.take(j + 1));
            }
            j = j + 1;
            if group.len() == MAX_INPUTS_PER_TX {
                let ghost before = transactions@;
                let tx = build_transaction(self, settings, group);
                transactions.push(tx);
                group = Vec::new();
                proof {
                    lemma_spent_push(before, transactions@.last());
                    assert(spent_of(transactions@) + group@ =~= kept@.take(j as int));
                }
            }
        }
        if group.len() > 0 {
            let ghost before = transactions@;
            let tx = build_transaction(self, settings, group);
            transactions.push(tx);
            proof {
                lemma_spent_push(before, transactions@.last());
            }
        } else {
            proof {
                assert(spent_of(transactions@) + group@ =~= spent_of(transactions@));
            }
        }
        proof {
            assert(kept@.take(m as int) =~= kept@);
            assert(spent_of(transactions@) =~= kept@);
            lemma_sum_partition(self.funds@, coefficient);
        }
        Conversion { transactions, ignored }
    }
}

/// Every discovered fund is accounted for exactly once: the values set aside
/// as ignored plus the values spent across all conversion transactions sum
/// to the wallet's total value, for a wallet whose account state holds no
/// value yet.
pub proof fn lemma_conversion_accounts_for_all(w: Wallet, st: Settings, c: Conversion)
    requires
        c.ignored@ == dust_of(w.funds@, st.fee_coefficient),
        spent_of(c.transactions@) == kept_of(w.funds@, st.fee_coefficient),
        w.state.value == 0,
    ensures
        sum_values(c.ignored@) + sum_values(spent_of(c.transactions@)) == total_spec(w),
{
    lemma_sum_partition(w.funds@, st.fee_coefficient);
}

} // verus!
