//! Recovery of a legacy-format wallet from a mnemonic phrase, discovery of the
//! funds it owns in an initial ledger snapshot, and construction of the sweep
//! transactions that move those funds to the new address format.

pub mod bytes;
pub mod errors;
pub mod crypto;
pub mod keys;
pub mod funds;
pub mod snapshot;
pub mod wallet;
pub mod convert;
pub mod registry;
