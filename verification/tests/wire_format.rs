use evm_host::bytes::Bytes20;
use evm_host::bytes::Bytes32;
use evm_host::wire::be_bytes_exec;
use evm_host::wire::be_val_exec;
use evm_host::wire::encode_account_code_payload;
use evm_host::wire::encode_add_pages_payload;
use evm_host::wire::encode_call_payload;
use evm_host::wire::encode_capture_hostio_payload;
use evm_host::wire::encode_create_payload;
use evm_host::wire::encode_emit_log_payload;

#[test]
fn be_bytes_exec_matches_std() {
    let v = be_bytes_exec(0x0102030405060708, 8);
    assert_eq!(v, 0x0102030405060708u64.to_be_bytes().to_vec());
    let two = be_bytes_exec(0xBEEF, 2);
    assert_eq!(two, vec![0xBE, 0xEF]);
}

#[test]
fn be_val_exec_inverts_encoding() {
    let v = be_bytes_exec(0xDEADBEEF01020304, 8);
    assert_eq!(be_val_exec(&v, 0, 8), 0xDEADBEEF01020304);
    let w = be_bytes_exec(0x1234, 2);
    assert_eq!(be_val_exec(&w, 0, 2), 0x1234);
}

#[test]
fn call_payload_layout() {
    let contract = Bytes20([0x11; 20]);
    let value = Bytes32([0x22; 32]);
    let input = vec![0xAA, 0xBB, 0xCC];
    let p = encode_call_payload(&contract, &value, 0x0102030405060708, input.as_slice());
    let mut expected = vec![0x11u8; 20];
    expected.extend([0x22u8; 32]);
    expected.extend(0x0102030405060708u64.to_be_bytes());
    expected.extend([0xAA, 0xBB, 0xCC]);
    assert_eq!(p, expected);
    assert_eq!(p.len(), 20 + 32 + 8 + 3);
}

#[test]
fn create_payload_layout_without_salt() {
    let endowment = Bytes32([0x07; 32]);
    let code = vec![0x60, 0x00];
    let p = encode_create_payload(500, &endowment, &None, &code);
    let mut expected = 500u64.to_be_bytes().to_vec();
    expected.extend([0x07u8; 32]);
    expected.extend([0x60, 0x00]);
    assert_eq!(p, expected);
}

#[test]
fn create_payload_layout_with_salt() {
    let endowment = Bytes32([0x07; 32]);
    let salt = Bytes32([0x09; 32]);
    let code = vec![0x60];
    let p = encode_create_payload(500, &endowment, &Some(salt), &code);
    let mut expected = 500u64.to_be_bytes().to_vec();
    expected.extend([0x07u8; 32]);
    expected.extend([0x09u8; 32]);
    expected.extend([0x60]);
    assert_eq!(p, expected);
}

#[test]
fn emit_log_payload_layout() {
    let data = vec![0xDE, 0xAD];
    let p = encode_emit_log_payload(3, &data);
    let mut expected = 3u32.to_be_bytes().to_vec();
    expected.extend([0xDE, 0xAD]);
    assert_eq!(p, expected);
}

#[test]
fn account_code_payload_layout() {
    let address = Bytes20([0x44; 20]);
    let p = encode_account_code_payload(&address, 0x0A0B);
    let mut expected = vec![0x44u8; 20];
    expected.extend(0x0A0Bu64.to_be_bytes());
    assert_eq!(p, expected);
}

#[test]
fn add_pages_payload_layout() {
    assert_eq!(encode_add_pages_payload(0x0102), vec![0x01, 0x02]);
    assert_eq!(encode_add_pages_payload(7), vec![0x00, 0x07]);
}

#[test]
fn capture_hostio_payload_layout() {
    let name = vec![b'p', b'a', b'y'];
    let args = vec![0x01, 0x02];
    let outs = vec![0x03];
    let p = encode_capture_hostio_payload(&name, &args, &outs, 1000, 900);
    let mut expected = 1000u64.to_be_bytes().to_vec();
    expected.extend(900u64.to_be_bytes());
    expected.extend(3u16.to_be_bytes());
    expected.extend(2u16.to_be_bytes());
    expected.extend(1u16.to_be_bytes());
    expected.extend([b'p', b'a', b'y']);
    expected.extend([0x01, 0x02]);
    expected.extend([0x03]);
    assert_eq!(p, expected);
}

#[test]
fn create_response_decodes_success_and_failure_shapes() {
    let mut ok = vec![2u8];
    ok.extend([0x5A; 20]);
    let r = evm_host::api::decode_create_response(&ok);
    assert_eq!(r.unwrap().0, [0x5A; 20]);

    // 21 bytes with a zero flag is a failure; the message is the tail.
    let mut zero_flag = vec![0u8];
    zero_flag.extend([b'x'; 20]);
    let r2 = evm_host::api::decode_create_response(&zero_flag);
    assert_eq!(r2.unwrap_err().message, "x".repeat(20));

    // A tail that is not UTF-8 falls back to the fixed message.
    let bad = vec![0u8, 0xFF, 0xFE];
    let r3 = evm_host::api::decode_create_response(&bad);
    assert_eq!(r3.unwrap_err().message, "create_response_malformed".to_string());
}

#[test]
fn emit_log_response_decodes_empty_as_success() {
    assert!(evm_host::api::decode_emit_log_response(vec![]).is_ok());
    let r = evm_host::api::decode_emit_log_response(b"denied".to_vec());
    assert_eq!(r.unwrap_err().message, "denied".to_string());
}
