use fvm_core::codec::{
    decode_apply_result, decode_message, encode_apply_result, encode_message, ApplyResult, Message,
};

fn sample_message() -> Message {
    Message {
        version: 0,
        from: 1,
        to: 2,
        sequence: 5,
        value: 340_282_366_920_938_463_463_374_607_431_768_211_455u128 - 7,
        method: 3,
        params: vec![9, 8, 7, 6, 5],
        gas_limit: 1000,
        gas_fee_cap: 4,
        gas_premium: 1,
    }
}

#[test]
fn message_round_trip() {
    let m = sample_message();
    let bytes = encode_message(&m);
    assert_eq!(bytes.len(), 88 + 5);
    let back = decode_message(&bytes).unwrap();
    assert_eq!(back, m);
}

#[test]
fn message_round_trip_empty_params() {
    let mut m = sample_message();
    m.params = Vec::new();
    m.value = 0;
    let bytes = encode_message(&m);
    assert_eq!(bytes.len(), 88);
    let back = decode_message(&bytes).unwrap();
    assert_eq!(back, m);
}

#[test]
fn message_decode_rejects_short_input() {
    assert!(decode_message(&vec![0u8; 87]).is_none());
    assert!(decode_message(&Vec::new()).is_none());
}

#[test]
fn message_decode_rejects_length_mismatch() {
    let m = sample_message();
    let mut bytes = encode_message(&m);
    bytes.push(0);
    assert!(decode_message(&bytes).is_none());
}

#[test]
fn message_zero_bytes_decode_as_zero_message() {
    let bytes = vec![0u8; 88];
    let m = decode_message(&bytes).unwrap();
    assert_eq!(m.version, 0);
    assert_eq!(m.value, 0);
    assert!(m.params.is_empty());
}

#[test]
fn apply_result_round_trip() {
    let a = ApplyResult {
        exit_code: 7,
        return_data: vec![1, 2, 3],
        gas_used: 42,
        state_root: vec![4, 5],
    };
    let bytes = encode_apply_result(&a);
    assert_eq!(bytes.len(), 32 + 3 + 2);
    let back = decode_apply_result(&bytes).unwrap();
    assert_eq!(back, a);
}

#[test]
fn apply_result_round_trip_empty() {
    let a = ApplyResult {
        exit_code: 0,
        return_data: Vec::new(),
        gas_used: 0,
        state_root: Vec::new(),
    };
    let bytes = encode_apply_result(&a);
    let back = decode_apply_result(&bytes).unwrap();
    assert_eq!(back, a);
}

#[test]
fn apply_result_decode_rejects_trailing_byte() {
    let a = ApplyResult {
        exit_code: 1,
        return_data: vec![9],
        gas_used: 3,
        state_root: vec![8, 8],
    };
    let mut bytes = encode_apply_result(&a);
    bytes.push(0);
    assert!(decode_apply_result(&bytes).is_none());
}

#[test]
fn apply_result_decode_rejects_oversized_exit_code() {
    // A first field that does not fit an unsigned 32-bit exit code.
    let mut bytes = vec![0u8; 32];
    bytes[0] = 1;
    assert!(decode_apply_result(&bytes).is_none());
}
