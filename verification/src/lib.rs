//! Deterministic paper-wallet derivation engine: entropy mixing, ZIP-32-style
//! hierarchical address derivation, checksum text encodings, and the vanity
//! address search, with machine-checked contracts.

pub mod caps;
pub mod derive;
pub mod encoding;
pub mod layout;
pub mod params;
pub mod records;
pub mod vanity;
pub mod wallet;

use vstd::prelude::*;

verus! {

} // verus!
