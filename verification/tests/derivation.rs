//! The derivation pipeline and the transaction encoding, cross-checked
//! against the underlying cryptographic crates called directly.

use wallet_core::wallet::Wallet;

const MNEMONIC: &str = "abandon abandon abandon abandon abandon abandon abandon abandon abandon abandon abandon about";

fn expected_seed(passphrase: &[u8]) -> Vec<u8> {
    let m = bip39::Mnemonic::parse_in_normalized(bip39::Language::English, MNEMONIC).unwrap();
    let entropy = m.to_entropy();
    let mut seed = vec![0u8; 64];
    cryptoxide::pbkdf2::pbkdf2::<cryptoxide::hashing::sha2::Sha512>(
        &entropy,
        passphrase,
        2048,
        &mut seed,
    );
    seed
}

fn expected_child_public(seed: &[u8], tag: u8, index: u32) -> [u8; 32] {
    let mut input = seed.to_vec();
    input.push(tag);
    input.extend_from_slice(&index.to_le_bytes());
    let ctx = cryptoxide::hashing::blake2b::Context::<256>::new();
    let key_seed = ctx.update(&input).finalize();
    let (_, public) = cryptoxide::ed25519::keypair(&key_seed);
    public
}

#[test]
fn candidate_addresses_match_the_primitives() {
    let w = Wallet::recover(MNEMONIC, &[]).unwrap();
    let seed = expected_seed(&[]);
    // candidate 0 is the legacy child at index 0 (tag 0)
    let public = expected_child_public(&seed, 0, 0);
    let mut expected = vec![1u8];
    expected.extend_from_slice(&public);
    assert_eq!(w.candidate_address(0, 1).unwrap(), expected);
}

#[test]
fn account_id_matches_the_primitives() {
    let w = Wallet::recover(MNEMONIC, &[]).unwrap();
    let seed = expected_seed(&[]);
    // the account keypair is the child at tag 2, index 0
    let public = expected_child_public(&seed, 2, 0);
    assert_eq!(w.account_id().as_slice(), &public);
}

#[test]
fn passphrase_changes_the_derived_keys() {
    let a = Wallet::recover(MNEMONIC, &[]).unwrap();
    let b = Wallet::recover(MNEMONIC, b"trezor").unwrap();
    assert_ne!(
        a.candidate_address(0, 0).unwrap(),
        b.candidate_address(0, 0).unwrap()
    );
    assert_ne!(a.account_id(), b.account_id());
}

#[test]
fn sweep_transaction_layout_and_signature() {
    let mut w = Wallet::recover(MNEMONIC, &[]).unwrap();
    let addr = w.candidate_address(0, 0).unwrap();
    let mut snap = vec![0u8];
    snap.extend_from_slice(&10u64.to_le_bytes()); // fee constant
    snap.extend_from_slice(&100u64.to_le_bytes()); // fee coefficient
    snap.extend_from_slice(&0u64.to_le_bytes()); // fee certificate
    snap.push(2); // slot duration
    snap.extend_from_slice(&1000u32.to_le_bytes()); // slots per epoch
    snap.extend_from_slice(&1u32.to_le_bytes()); // one fund record
    snap.push(0); // single-address fund
    snap.extend_from_slice(&addr);
    snap.extend_from_slice(&5000u64.to_le_bytes());
    let settings = w.retrieve_funds(&snap).unwrap();

    let c = w.convert(&settings);
    assert_eq!(c.transactions_size(), 1);
    let blob = c.transactions_get(0).unwrap();
    // header (2) + one input (42) + one output (41) + one witness (64)
    assert_eq!(blob.len(), 149);
    assert_eq!(blob[0], 1); // one input
    assert_eq!(blob[1], 1); // one output
    assert_eq!(blob[2], 0); // input kind: single-address
    assert_eq!(&blob[3..36], addr.as_slice());
    assert_eq!(&blob[36..44], &5000u64.to_le_bytes());
    // the output pays the account address the input minus the fee
    let mut account_address = vec![0u8];
    account_address.extend_from_slice(w.account_id());
    assert_eq!(&blob[44..77], account_address.as_slice());
    let fee = 10 + 100 * (1 + 1);
    assert_eq!(&blob[77..85], &(5000u64 - fee).to_le_bytes());
    // the witness is the owning key's signature of the payload digest
    let payload = &blob[..85];
    let txid = cryptoxide::hashing::blake2b::Context::<256>::new()
        .update(payload)
        .finalize();
    let public: [u8; 32] = addr[1..].try_into().unwrap();
    let signature: [u8; 64] = blob[85..149].try_into().unwrap();
    assert!(cryptoxide::ed25519::verify(&txid, &public, &signature));
}
