use hibana_mgmt::observe_stream::{TapBatch, TapRecord};
use hibana_mgmt::wire::CodecError;

fn sample(n: u32) -> TapRecord {
    TapRecord {
        ts: 0x0102_0304 + n,
        id: 0x0506,
        causal_key: 0x0708,
        arg0: 0x090A_0B0C,
        arg1: 0x0D0E_0F10,
        arg2: n,
    }
}

#[test]
fn tap_batch_decode_is_canonical() {
    let mut batch = TapBatch::empty();
    assert!(batch.push(TapRecord::zero()));

    let mut encoded = [0u8; 5 + 20];
    let len = batch.encode_into(&mut encoded).expect("encode tap batch");
    let decoded = TapBatch::decode_payload(&encoded[..len]).expect("decode exact tap batch");

    assert_eq!(decoded.len(), 1);
}

#[test]
fn tap_batch_decode_rejects_trailing_bytes() {
    let batch = TapBatch::empty();
    let mut encoded = [0u8; 5 + 1];
    let len = batch.encode_into(&mut encoded).expect("encode tap batch");

    assert!(
        TapBatch::decode_payload(&encoded[..len + 1]).is_err(),
        "TapBatch decode must reject trailing bytes"
    );
}

#[test]
fn tap_batch_image_is_header_then_big_endian_events() {
    let mut batch = TapBatch::empty();
    batch.set_lost_events(0xAABB_CCDD);
    assert!(batch.push(sample(1)));
    assert!(batch.push(sample(2)));
    assert_eq!(batch.encoded_len(), Some(45));
    let mut out = [0u8; 50];
    assert_eq!(batch.encode_into(&mut out), Ok(45));
    assert_eq!(&out[..5], &[2, 0xAA, 0xBB, 0xCC, 0xDD]);
    assert_eq!(
        &out[5..25],
        &[1, 2, 3, 5, 5, 6, 7, 8, 9, 10, 11, 12, 13, 14, 15, 16, 0, 0, 0, 1]
    );
    assert_eq!(&out[45..], &[0, 0, 0, 0, 0]);
    let back = TapBatch::decode_payload(&out[..45]).expect("decode batch");
    assert_eq!(back.lost_events(), 0xAABB_CCDD);
    assert_eq!(back.events(), &[sample(1), sample(2)]);
}

#[test]
fn tap_batch_holds_at_most_fifty_events() {
    let mut batch = TapBatch::default();
    for i in 0..50 {
        assert!(batch.push(sample(i)));
    }
    assert!(!batch.push(sample(99)));
    assert_eq!(batch.len(), 50);
    let mut out = vec![0u8; 5 + 50 * 20];
    assert_eq!(batch.encode_into(&mut out), Ok(1005));
    let back = TapBatch::decode_payload(&out).expect("decode full batch");
    assert_eq!(back.events(), batch.events());

    let mut short = vec![0u8; 1004];
    assert_eq!(batch.encode_into(&mut short), Err(CodecError::Truncated));
    assert!(short.iter().all(|b| *b == 0));
}

#[test]
fn tap_batch_decode_errors() {
    assert_eq!(TapBatch::decode_payload(&[0, 0, 0]).err(), Some(CodecError::Truncated));
    assert_eq!(
        TapBatch::decode_payload(&[51, 0, 0, 0, 0]).err(),
        Some(CodecError::Invalid("batch count exceeds maximum"))
    );
    assert_eq!(TapBatch::decode_payload(&[1, 0, 0, 0, 0, 1, 2]).err(), Some(CodecError::Truncated));
    assert_eq!(
        TapBatch::decode_payload(&[0, 0, 0, 0, 0, 1]).err(),
        Some(CodecError::Invalid("trailing bytes after TapBatch"))
    );
}
