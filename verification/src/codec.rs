//! The wire format of the transfer instruction.
//!
//! The external ledger routes an instruction by a two-level tagged union: an
//! outer tag byte selecting the assets module, an inner tag byte selecting the
//! "transfer" operation, then the operation's fields in order: the asset
//! identifier in the compact variable-length integer encoding, the target
//! address in the raw-identifier address form (one tag byte, then the 32
//! identifier bytes), and the amount again in the compact encoding.
//!
//! The two compact-encoded fields are produced by the `parity_scale_codec`
//! crate, behind trusted wrappers whose contracts restate that crate's
//! encoding byte for byte; the framing around them is verified here.

use vstd::prelude::*;

use crate::account::CallerId;

verus! {

/// Outer tag byte: index of the assets module in the ledger's call router.
pub const PALLET_ASSETS_INDEX: u8 = 8;

/// Inner tag byte: index of the "transfer" operation within the assets module.
pub const ASSETS_TRANSFER_INDEX: u8 = 8;

/// Tag byte of the raw-identifier form of the ledger's multi-form address
/// encoding.
pub const ADDRESS_RAW_ID_TAG: u8 = 0;

/// The `n` least-significant bytes of `x`, least-significant first.
pub open spec fn spec_le_bytes(x: int, n: nat) -> Seq<u8>
    decreases n,
{
    if n == 0 {
        Seq::empty()
    } else {
        seq![(x % 256) as u8] + spec_le_bytes(x / 256, (n - 1) as nat)
    }
}

/// The least number of bytes that can hold `x`.
pub open spec fn spec_byte_len(x: nat) -> nat
    decreases x,
{
    if x < 256 {
        1
    } else {
        (1 + spec_byte_len(x / 256)) as nat
    }
}

/// The compact variable-length encoding of a 32-bit unsigned integer: the two
/// low bits of the first byte say how wide the encoding is, the value sits in
/// the remaining bits, least-significant byte first.
pub open spec fn spec_compact_u32(value: u32) -> Seq<u8> {
    if value < 64 {
        seq![(value * 4) as u8]
    } else if value < 16384 {
        spec_le_bytes(value * 4 + 1, 2)
    } else if value < 1073741824 {
        spec_le_bytes(value * 4 + 2, 4)
    } else {
        seq![3u8] + spec_le_bytes(value as int, 4)
    }
}

/// The compact variable-length encoding of a 128-bit unsigned integer. Values
/// of at least 2^30 are encoded as a header byte holding the byte count,
/// followed by the value's minimal little-endian bytes.
pub open spec fn spec_compact_u128(value: u128) -> Seq<u8> {
    if value < 64 {
        seq![(value * 4) as u8]
    } else if value < 16384 {
        spec_le_bytes(value * 4 + 1, 2)
    } else if value < 1073741824 {
        spec_le_bytes(value * 4 + 2, 4)
    } else {
        seq![((spec_byte_len(value as nat) - 4) * 4 + 3) as u8]
            + spec_le_bytes(value as int, spec_byte_len(value as nat))
    }
}

/// The full encoded transfer instruction for the ledger's call router.
pub open spec fn spec_encode_transfer(asset_id: u32, target: Seq<u8>, amount: u128) -> Seq<u8> {
    seq![PALLET_ASSETS_INDEX, ASSETS_TRANSFER_INDEX] + spec_compact_u32(asset_id)
        + seq![ADDRESS_RAW_ID_TAG] + target + spec_compact_u128(amount)
}

/// Relies on `parity_scale_codec`: `Compact(value).encode()` for a `u32` emits
/// the SCALE compact encoding described by `spec_compact_u32`.
#[verifier::external_body]
fn compact_u32(value: u32) -> (r: Vec<u8>)
    ensures
        r@ == spec_compact_u32(value),
{
    parity_scale_codec::Encode::encode(&parity_scale_codec::Compact(value))
}

/// Relies on `parity_scale_codec`: `Compact(value).encode()` for a `u128`
/// emits the SCALE compact encoding described by `spec_compact_u128`.
#[verifier::external_body]
fn compact_u128(value: u128) -> (r: Vec<u8>)
    ensures
        r@ == spec_compact_u128(value),
{
    parity_scale_codec::Encode::encode(&parity_scale_codec::Compact(value))
}

/// Serializes "move `amount` of asset `asset_id` to `target`" into the exact
/// byte layout the external ledger's call router expects.
pub fn encode_transfer(asset_id: u32, target: &CallerId, amount: u128) -> (r: Vec<u8>)
    ensures
        r@ == spec_encode_transfer(asset_id, target@, amount),
{
    let mut out: Vec<u8> = Vec::new();
    out.push(PALLET_ASSETS_INDEX);
    out.push(ASSETS_TRANSFER_INDEX);
    let mut id_bytes = compact_u32(asset_id);
    out.append(&mut id_bytes);
    out.push(ADDRESS_RAW_ID_TAG);
    let ghost prefix: Seq<u8> = out@;
    let target_bytes = target.bytes();
    let mut i: usize = 0;
    while i < 32
        invariant
            i <= 32,
            target_bytes@ == target@,
            target_bytes@.len() == 32,
            out@ == prefix + target@.subrange(0, i as int),
        decreases 32 - i,
    {
        out.push(target_bytes[i]);
        i += 1;
        proof {
            assert(out@ =~= prefix + target@.subrange(0, i as int));
        }
    }
    proof {
        assert(target@.subrange(0, 32) =~= target@);
    }
    let mut amount_bytes = compact_u128(amount);
    out.append(&mut amount_bytes);
    proof {
        assert(out@ =~= spec_encode_transfer(asset_id, target@, amount));
    }
    out
}

} // verus!
