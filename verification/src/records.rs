//! The record set that wallet generation emits: one entry per derived
//! address, in order, never mutated after it is appended.

use vstd::prelude::*;

verus! {

/// Which kind of address a record holds.
#[derive(Clone, Copy, PartialEq, Eq, Structural, Debug)]
pub enum AddressKind {
    Zaddr,
    Taddr,
}

/// The seed and derivation path of a hierarchically derived record, kept for
/// auditability.
#[derive(Clone, Debug, PartialEq)]
pub struct SeedInfo {
    pub hd_seed: String,
    pub path: String,
}

/// One derived address with its private key. `seed_info` is present exactly
/// for hierarchically derived (shielded) records.
#[derive(Clone, Debug, PartialEq)]
pub struct WalletRecord {
    pub num: u32,
    pub address: String,
    pub private_key: String,
    pub kind: AddressKind,
    pub seed_info: Option<SeedInfo>,
}

} // verus!
