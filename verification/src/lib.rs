//! A rate-limited token-dispensing service.
//!
//! The library keeps, for every caller, the timestamp of its last successful
//! dispensation, rejects requests that come before a fixed cooldown window has
//! elapsed, encodes a transfer instruction in the wire format the external
//! ledger's call router expects, and maps the outcome of either of two
//! transport paths back into one uniform error type.

use vstd::prelude::*;

mod account;
mod codec;
mod faucet;
mod host;

pub use account::CallerId;
pub use codec::ADDRESS_RAW_ID_TAG;
pub use codec::ASSETS_TRANSFER_INDEX;
pub use codec::PALLET_ASSETS_INDEX;
pub use codec::encode_transfer;
pub use codec::spec_compact_u128;
pub use codec::spec_compact_u32;
pub use codec::spec_encode_transfer;
pub use faucet::Faucet;
pub use faucet::FaucetError;
pub use faucet::cooldown_passed;
pub use faucet::lemma_consume_on_attempt;
pub use faucet::lemma_cooldown_monotonicity;
pub use faucet::lemma_cooldown_release;
pub use faucet::lemma_unknown_caller_default;
pub use faucet::settle_direct_outcome;
pub use faucet::settle_extension_outcome;
pub use faucet::spec_cooldown_passed;
pub use faucet::spec_drip_records;
pub use faucet::spec_last_access;
pub use host::CallRuntime;
pub use host::FetchAsset;
pub use host::FetchAssetError;
pub use host::HostError;

verus! {

/// Minimum number of milliseconds that must elapse between two successful
/// dispensations for the same caller.
pub const COOLDOWN_MS: u64 = 10000;

} // verus!
