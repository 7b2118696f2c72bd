//! End-to-end behaviour of the recovery, scanning and conversion engine.

use wallet_core::convert::Conversion;
use wallet_core::errors::ErrorKind;
use wallet_core::funds::FundRecord;
use wallet_core::registry::Registry;
use wallet_core::wallet::Wallet;

const MNEMONIC: &str = "abandon abandon abandon abandon abandon abandon abandon abandon abandon abandon abandon about";
const BAD_CHECKSUM: &str = "abandon abandon abandon abandon abandon abandon abandon abandon abandon abandon abandon abandon";
const BAD_LENGTH: &str = "abandon abandon abandon abandon abandon abandon abandon abandon abandon abandon abandon";

fn snapshot_bytes(
    discrimination: u8,
    fee_constant: u64,
    fee_coefficient: u64,
    fee_certificate: u64,
    slot_duration: u8,
    slots_per_epoch: u32,
    funds: &[(bool, Vec<u8>, u64)],
) -> Vec<u8> {
    let mut v = vec![discrimination];
    v.extend_from_slice(&fee_constant.to_le_bytes());
    v.extend_from_slice(&fee_coefficient.to_le_bytes());
    v.extend_from_slice(&fee_certificate.to_le_bytes());
    v.push(slot_duration);
    v.extend_from_slice(&slots_per_epoch.to_le_bytes());
    v.extend_from_slice(&(funds.len() as u32).to_le_bytes());
    for (account, owner, value) in funds {
        v.push(if *account { 1 } else { 0 });
        v.extend_from_slice(owner);
        v.extend_from_slice(&value.to_le_bytes());
    }
    v
}

fn plain_snapshot(funds: &[(bool, Vec<u8>, u64)]) -> Vec<u8> {
    snapshot_bytes(0, 10, 100, 7, 2, 1000, funds)
}

fn fund_value(f: &FundRecord) -> u64 {
    match f {
        FundRecord::Utxo { value, .. } => *value,
        FundRecord::Account { value } => *value,
    }
}

#[test]
fn recover_valid_mnemonic_has_zero_total() {
    let w = Wallet::recover(MNEMONIC, &[]).expect("valid mnemonic must recover");
    assert_eq!(w.total_value(), 0);
    assert!(w.candidate_count() > 0);
}

#[test]
fn recover_other_valid_mnemonic_has_zero_total() {
    let phrase = "zoo zoo zoo zoo zoo zoo zoo zoo zoo zoo zoo wrong";
    let w = Wallet::recover(phrase, &[]).expect("valid mnemonic must recover");
    assert_eq!(w.total_value(), 0);
}

#[test]
fn error_kinds_and_text() {
    let e = wallet_core::errors::Error::invalid_input("wallet");
    assert_eq!(e.kind(), ErrorKind::InvalidInput);
    assert_eq!(e.text(), "wallet");
    let m = wallet_core::errors::Error::malformed_snapshot();
    assert_eq!(m.kind(), ErrorKind::MalformedSnapshot);
    assert!(!m.text().is_empty());
}

#[test]
fn recover_bad_checksum_fails() {
    let r = Wallet::recover(BAD_CHECKSUM, &[]);
    assert_eq!(r.err().expect("must fail").kind(), ErrorKind::InvalidMnemonic);
}

#[test]
fn recover_bad_length_fails() {
    let r = Wallet::recover(BAD_LENGTH, &[]);
    assert_eq!(r.err().expect("must fail").kind(), ErrorKind::InvalidMnemonic);
}

#[test]
fn scan_finds_addressed_fund() {
    let mut w = Wallet::recover(MNEMONIC, &[]).unwrap();
    let addr = w.candidate_address(0, 0).unwrap();
    let snap = plain_snapshot(&[(false, addr, 1000)]);
    let settings = w.retrieve_funds(&snap).expect("well-formed snapshot");
    assert_eq!(settings.discrimination, 0);
    assert_eq!(settings.fee_constant, 10);
    assert_eq!(settings.fee_coefficient, 100);
    assert_eq!(settings.fee_certificate, 7);
    assert_eq!(settings.slot_duration, 2);
    assert_eq!(settings.slots_per_epoch, 1000);
    assert_eq!(w.total_value(), 1000);
}

#[test]
fn scans_accumulate_across_disjoint_snapshots() {
    let mut w = Wallet::recover(MNEMONIC, &[]).unwrap();
    let a0 = w.candidate_address(0, 0).unwrap();
    let a1 = w.candidate_address(1, 0).unwrap();
    w.retrieve_funds(&plain_snapshot(&[(false, a0, 1000)])).unwrap();
    w.retrieve_funds(&plain_snapshot(&[(false, a1, 500)])).unwrap();
    assert_eq!(w.total_value(), 1500);
}

#[test]
fn scan_finds_account_fund_and_skips_strangers() {
    let mut w = Wallet::recover(MNEMONIC, &[]).unwrap();
    let account = w.account_id().clone();
    let stranger = vec![0xAB; 33];
    let snap = plain_snapshot(&[
        (true, account, 700),
        (false, stranger, 123456),
    ]);
    w.retrieve_funds(&snap).unwrap();
    assert_eq!(w.total_value(), 700);
}

#[test]
fn scan_rejects_malformed_snapshots() {
    let mut w = Wallet::recover(MNEMONIC, &[]).unwrap();
    let truncated = vec![0u8; 10];
    assert_eq!(
        w.retrieve_funds(&truncated).err().unwrap().kind(),
        ErrorKind::MalformedSnapshot
    );
    let bad_discrimination = snapshot_bytes(9, 0, 0, 0, 0, 0, &[]);
    assert_eq!(
        w.retrieve_funds(&bad_discrimination).err().unwrap().kind(),
        ErrorKind::MalformedSnapshot
    );
    let mut trailing = plain_snapshot(&[]);
    trailing.push(0);
    assert_eq!(
        w.retrieve_funds(&trailing).err().unwrap().kind(),
        ErrorKind::MalformedSnapshot
    );
    let bad_kind = plain_snapshot(&[(true, vec![0u8; 32], 1)]);
    let mut bad_kind = bad_kind;
    // overwrite the record's kind byte with an unknown kind
    bad_kind[34] = 9;
    assert_eq!(
        w.retrieve_funds(&bad_kind).err().unwrap().kind(),
        ErrorKind::MalformedSnapshot
    );
    // failed scans leave the wallet unchanged
    assert_eq!(w.total_value(), 0);
}

fn wallet_with_funds(values: &[u64]) -> (Wallet, wallet_core::snapshot::Settings) {
    let mut w = Wallet::recover(MNEMONIC, &[]).unwrap();
    let funds: Vec<(bool, Vec<u8>, u64)> = values
        .iter()
        .enumerate()
        .map(|(k, v)| (false, w.candidate_address(k, 0).unwrap(), *v))
        .collect();
    let snap = plain_snapshot(&funds);
    let settings = w.retrieve_funds(&snap).unwrap();
    (w, settings)
}

fn spent_sum(c: &Conversion) -> u64 {
    c.transactions
        .iter()
        .flat_map(|t| t.inputs.iter())
        .map(fund_value)
        .sum()
}

#[test]
fn conversion_accounts_for_every_fund() {
    // fee coefficient is 100: the 40 and the boundary 100 are dust
    let (w, settings) = wallet_with_funds(&[40, 100, 5000, 7000]);
    let before = w.total_value();
    let c = w.convert(&settings);
    assert_eq!(c.ignored_count(), 2);
    assert_eq!(c.ignored_value(), 140);
    assert_eq!(c.ignored_value() + spent_sum(&c), before);
}

#[test]
fn conversion_is_repeatable_and_deterministic() {
    let (w, settings) = wallet_with_funds(&[5000, 7000]);
    let a = w.convert(&settings);
    let b = w.convert(&settings);
    assert_eq!(a.transactions_size(), b.transactions_size());
    for i in 0..a.transactions_size() {
        assert_eq!(
            a.transactions_get(i).unwrap(),
            b.transactions_get(i).unwrap()
        );
    }
}

#[test]
fn conversion_get_bounds() {
    let (w, settings) = wallet_with_funds(&[5000, 7000]);
    let c = w.convert(&settings);
    let size = c.transactions_size();
    assert!(size >= 1);
    for i in 0..size {
        let bytes = c.transactions_get(i).unwrap();
        assert!(!bytes.is_empty());
    }
    assert_eq!(
        c.transactions_get(size).err().unwrap().kind(),
        ErrorKind::OutOfBound
    );
    assert_eq!(
        c.transactions_get(size + 10).err().unwrap().kind(),
        ErrorKind::OutOfBound
    );
}

#[test]
fn empty_fund_set_converts_to_nothing() {
    let (w, settings) = wallet_with_funds(&[]);
    let c = w.convert(&settings);
    assert_eq!(c.transactions_size(), 0);
    assert_eq!(c.ignored_count(), 0);
    assert_eq!(c.ignored_value(), 0);
}

#[test]
fn set_state_reflects_in_total_value() {
    let (mut w, _) = wallet_with_funds(&[5000]);
    assert_eq!(w.total_value(), 5000);
    w.set_state(1000, 5);
    assert_eq!(w.total_value(), 6000);
    assert_eq!(w.state.counter, 5);
    // set_state overwrites, it does not add
    w.set_state(2000, 6);
    assert_eq!(w.total_value(), 7000);
}

#[test]
fn dust_predicate_boundary() {
    assert!(wallet_core::funds::fund_is_dust(100, 100));
    assert!(!wallet_core::funds::fund_is_dust(101, 100));
    assert!(wallet_core::funds::fund_is_dust(0, 0));
}

#[test]
fn registry_destroy_absent_is_noop() {
    let mut reg: Registry<u64> = Registry::new();
    let id = reg.register(42);
    assert_eq!(reg.get(id).copied(), Some(42));
    reg.destroy(id);
    assert!(reg.get(id).is_none());
    // destroying again, or destroying a never-issued handle, is a no-op
    reg.destroy(id);
    reg.destroy(999);
    assert!(reg.get(id).is_none());
    let id2 = reg.register(7);
    assert_eq!(reg.get(id2).copied(), Some(7));
}
