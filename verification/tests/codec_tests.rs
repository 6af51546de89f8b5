use faucet::{CallerId, encode_transfer};
use parity_scale_codec::{Compact, Encode};

fn fixed_id() -> [u8; 32] {
    let mut bytes = [0u8; 32];
    let mut i = 0;
    while i < 32 {
        bytes[i] = i as u8;
        i += 1;
    }
    bytes
}

#[test]
fn encode_known_vector() {
    let id = fixed_id();
    let encoded = encode_transfer(0, &CallerId::new(id), 1);
    let mut expected: Vec<u8> = vec![8, 8, 0x00, 0x00];
    expected.extend_from_slice(&id);
    expected.push(0x04);
    assert_eq!(encoded, expected);
    assert_eq!(encoded.len(), 37);
}

fn asset_id_bytes(asset_id: u32) -> Vec<u8> {
    let encoded = encode_transfer(asset_id, &CallerId::new([0u8; 32]), 1);
    // Outer and inner tag bytes, then the compact asset id, then the address
    // tag byte, 32 identifier bytes and the one-byte compact amount.
    let compact_len = encoded.len() - 2 - 1 - 32 - 1;
    encoded[2..2 + compact_len].to_vec()
}

fn amount_bytes(amount: u128) -> Vec<u8> {
    let encoded = encode_transfer(0, &CallerId::new([0u8; 32]), amount);
    // The compact asset id of 0 is a single byte, so the amount starts at 36.
    encoded[36..].to_vec()
}

#[test]
fn encode_compact_asset_id_widths() {
    assert_eq!(asset_id_bytes(0), vec![0x00]);
    assert_eq!(asset_id_bytes(1), vec![0x04]);
    assert_eq!(asset_id_bytes(42), vec![0xA8]);
    assert_eq!(asset_id_bytes(63), vec![0xFC]);
    assert_eq!(asset_id_bytes(64), vec![0x01, 0x01]);
    assert_eq!(asset_id_bytes(16383), vec![0xFD, 0xFF]);
    assert_eq!(asset_id_bytes(16384), vec![0x02, 0x00, 0x01, 0x00]);
    assert_eq!(asset_id_bytes(0x3FFF_FFFF), vec![0xFE, 0xFF, 0xFF, 0xFF]);
    assert_eq!(asset_id_bytes(0x4000_0000), vec![0x03, 0x00, 0x00, 0x00, 0x40]);
    assert_eq!(asset_id_bytes(u32::MAX), vec![0x03, 0xFF, 0xFF, 0xFF, 0xFF]);
}

#[test]
fn encode_compact_amount_widths() {
    assert_eq!(amount_bytes(0), vec![0x00]);
    assert_eq!(amount_bytes(1), vec![0x04]);
    assert_eq!(amount_bytes(63), vec![0xFC]);
    assert_eq!(amount_bytes(64), vec![0x01, 0x01]);
    assert_eq!(amount_bytes(16384), vec![0x02, 0x00, 0x01, 0x00]);
    assert_eq!(
        amount_bytes(0x4000_0000),
        vec![0x03, 0x00, 0x00, 0x00, 0x40]
    );
    assert_eq!(
        amount_bytes(0x1_0000_0000),
        vec![0x07, 0x00, 0x00, 0x00, 0x00, 0x01]
    );
    assert_eq!(amount_bytes(u128::MAX), {
        let mut v = vec![0x33];
        v.extend_from_slice(&[0xFF; 16]);
        v
    });
}

#[test]
fn encode_compact_fields_match_reference_codec() {
    for asset_id in [0u32, 5, 63, 64, 1000, 16383, 16384, 0x4000_0000, u32::MAX] {
        assert_eq!(asset_id_bytes(asset_id), Compact(asset_id).encode());
    }
    for amount in [
        0u128,
        1,
        63,
        64,
        16384,
        0x4000_0000,
        0x1_0000_0000,
        u64::MAX as u128,
        u128::MAX,
    ] {
        assert_eq!(amount_bytes(amount), Compact(amount).encode());
    }
}
