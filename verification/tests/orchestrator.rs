use evm_host::api::EvmApiMethod;
use evm_host::api::UserOutcomeKind;
use evm_host::bytes::Bytes20;
use evm_host::bytes::Bytes32;
use evm_host::req::EvmApiRequestor;
use evm_host::req::RequestHandler;
use evm_host::retdata::RetData;
use evm_host::storage::STORAGE_READ_GAS;
use evm_host::storage::STORAGE_WRITE_GAS;
use evm_host::EVM_API_INK;

/// A host double that hands out scripted responses in order and records
/// every request it sees.
struct ScriptedHandler {
    responses: Vec<(Vec<u8>, Vec<u8>, u64)>,
    log: Vec<(EvmApiMethod, Vec<u8>)>,
}

impl ScriptedHandler {
    fn new(responses: Vec<(Vec<u8>, Vec<u8>, u64)>) -> ScriptedHandler {
        ScriptedHandler { responses, log: Vec::new() }
    }
}

impl RequestHandler for ScriptedHandler {
    fn handle_request(
        &mut self,
        req_type: EvmApiMethod,
        req_data: &[u8],
    ) -> (Vec<u8>, RetData, u64) {
        self.log.push((req_type, req_data.to_vec()));
        let (res, handle, cost) = self.responses.remove(0);
        (res, RetData::new(handle), cost)
    }
}

fn word(n: u8) -> Bytes32 {
    let mut a = [0u8; 32];
    a[31] = n;
    Bytes32(a)
}

fn address(n: u8) -> Bytes20 {
    let mut a = [0u8; 20];
    a[19] = n;
    Bytes20(a)
}

#[test]
fn storage_get_miss_fetches_then_hit_is_cached() {
    let handler = ScriptedHandler::new(vec![(word(7).0.to_vec(), vec![], 55)]);
    let mut req = EvmApiRequestor::new(handler);

    let (v, cost) = req.get_bytes32(word(1));
    assert_eq!(v.0, word(7).0);
    assert_eq!(cost, STORAGE_READ_GAS + 55 + EVM_API_INK);

    let (v2, cost2) = req.get_bytes32(word(1));
    assert_eq!(v2.0, word(7).0);
    assert_eq!(cost2, STORAGE_READ_GAS);

    let log = &req.request_handler().log;
    assert_eq!(log.len(), 1);
    assert_eq!(log[0].0, EvmApiMethod::GetBytes32);
    assert_eq!(log[0].1, word(1).0.to_vec());
}

#[test]
fn storage_set_then_flush_sends_the_dirty_pair() {
    let handler = ScriptedHandler::new(vec![(vec![0], vec![], 5), (vec![0], vec![], 6)]);
    let mut req = EvmApiRequestor::new(handler);

    let wcost = req.cache_bytes32(word(1), word(9));
    assert_eq!(wcost, STORAGE_WRITE_GAS);

    let r = req.flush_storage_cache(false, 77);
    assert_eq!(r.unwrap(), 5);

    // The record is now clean: a second flush carries only the gas prefix.
    let r2 = req.flush_storage_cache(false, 88);
    assert_eq!(r2.unwrap(), 6);

    let log = &req.request_handler().log;
    assert_eq!(log.len(), 2);
    assert_eq!(log[0].0, EvmApiMethod::SetTrieSlots);
    let mut expected = 77u64.to_be_bytes().to_vec();
    expected.extend(word(1).0);
    expected.extend(word(9).0);
    assert_eq!(log[0].1, expected);
    assert_eq!(log[1].1, 88u64.to_be_bytes().to_vec());
}

#[test]
fn flush_with_nothing_dirty_sends_only_the_gas_prefix() {
    let handler = ScriptedHandler::new(vec![(vec![0], vec![], 1)]);
    let mut req = EvmApiRequestor::new(handler);
    let r = req.flush_storage_cache(false, 1234);
    assert_eq!(r.unwrap(), 1);
    let log = &req.request_handler().log;
    assert_eq!(log[0].1, 1234u64.to_be_bytes().to_vec());
    assert_eq!(log[0].1.len(), 8);
}

#[test]
fn fetched_then_rewritten_with_same_value_stays_clean() {
    // A read miss records the fetched word as confirmed; writing the very
    // same word back leaves the record clean, so the flush carries nothing.
    let handler = ScriptedHandler::new(vec![(word(5).0.to_vec(), vec![], 3), (vec![0], vec![], 4)]);
    let mut req = EvmApiRequestor::new(handler);
    req.get_bytes32(word(2));
    req.cache_bytes32(word(2), word(5));
    let r = req.flush_storage_cache(false, 10);
    assert_eq!(r.unwrap(), 4);
    let log = &req.request_handler().log;
    assert_eq!(log[1].1.len(), 8);
}

#[test]
fn flush_clear_empties_the_cache_even_when_the_host_rejects() {
    let handler = ScriptedHandler::new(vec![
        (vec![1, 0xFF], vec![], 2),
        (word(8).0.to_vec(), vec![], 3),
    ]);
    let mut req = EvmApiRequestor::new(handler);
    req.cache_bytes32(word(1), word(9));

    let r = req.flush_storage_cache(true, 50);
    // 0x01 0xFF is not valid UTF-8, so the message degrades to hex.
    assert_eq!(r.unwrap_err().message, "01ff".to_string());

    // The cache was cleared before the rejection came back: the next read
    // of the same key is a miss and goes to the host.
    let (v, _cost) = req.get_bytes32(word(1));
    assert_eq!(v.0, word(8).0);
    let log = &req.request_handler().log;
    assert_eq!(log.len(), 2);
    assert_eq!(log[1].0, EvmApiMethod::GetBytes32);
}

#[test]
fn flush_rejection_carries_the_utf8_text() {
    let handler = ScriptedHandler::new(vec![(vec![1, b'n', b'o'], vec![], 2)]);
    let mut req = EvmApiRequestor::new(handler);
    req.cache_bytes32(word(1), word(9));
    let r = req.flush_storage_cache(false, 50);
    assert_eq!(r.unwrap_err().message, String::from_utf8(vec![1, b'n', b'o']).unwrap());
}

#[test]
fn contract_call_reports_outcome_and_stores_return_data() {
    let handler = ScriptedHandler::new(vec![(vec![0], vec![1, 2, 3], 42)]);
    let mut req = EvmApiRequestor::new(handler);

    let input = vec![0xAA];
    let (len, cost, outcome) = req.contract_call(address(1), input.as_slice(), 900, word(4));
    assert_eq!(len, 3);
    assert_eq!(cost, 42);
    assert_eq!(outcome, UserOutcomeKind::Success);

    let data = req.get_return_data();
    assert_eq!(*data.bytes(), vec![1, 2, 3]);
    assert_eq!(data.len(), 3);

    let log = &req.request_handler().log;
    assert_eq!(log[0].0, EvmApiMethod::ContractCall);
    let mut expected = address(1).0.to_vec();
    expected.extend(word(4).0);
    expected.extend(900u64.to_be_bytes());
    expected.extend([0xAA]);
    assert_eq!(log[0].1, expected);
}

#[test]
fn call_outcome_bytes_decode_exhaustively() {
    let handler = ScriptedHandler::new(vec![
        (vec![1], vec![], 1),
        (vec![2], vec![], 1),
        (vec![3], vec![], 1),
        (vec![4], vec![], 1),
    ]);
    let mut req = EvmApiRequestor::new(handler);
    let input: Vec<u8> = vec![];
    let (_, _, o1) = req.contract_call(address(1), input.as_slice(), 1, word(0));
    let (_, _, o2) = req.contract_call(address(1), input.as_slice(), 1, word(0));
    let (_, _, o3) = req.contract_call(address(1), input.as_slice(), 1, word(0));
    let (_, _, o4) = req.contract_call(address(1), input.as_slice(), 1, word(0));
    assert_eq!(o1, UserOutcomeKind::Revert);
    assert_eq!(o2, UserOutcomeKind::Failure);
    assert_eq!(o3, UserOutcomeKind::OutOfInk);
    assert_eq!(o4, UserOutcomeKind::OutOfStack);
}

#[test]
fn delegate_and_static_calls_send_a_zero_value_word() {
    let handler = ScriptedHandler::new(vec![(vec![0], vec![], 1), (vec![0], vec![], 1)]);
    let mut req = EvmApiRequestor::new(handler);
    let input = vec![0x01];
    req.delegate_call(address(2), input.as_slice(), 77);
    req.static_call(address(3), input.as_slice(), 78);

    let log = &req.request_handler().log;
    assert_eq!(log[0].0, EvmApiMethod::DelegateCall);
    assert_eq!(log[1].0, EvmApiMethod::StaticCall);
    let mut expected = address(2).0.to_vec();
    expected.extend([0u8; 32]);
    expected.extend(77u64.to_be_bytes());
    expected.extend([0x01]);
    assert_eq!(log[0].1, expected);
    assert_eq!(&log[1].1[20..52], &[0u8; 32]);
}

#[test]
fn create1_success_returns_the_address_bytes() {
    let mut res = vec![1u8];
    res.extend([0xAB; 20]);
    let handler = ScriptedHandler::new(vec![(res, vec![9, 9], 33)]);
    let mut req = EvmApiRequestor::new(handler);

    let (outcome, ret_len, cost) = req.create1(vec![0x60], word(0), 4000);
    assert_eq!(outcome.unwrap().0, [0xAB; 20]);
    assert_eq!(ret_len, 2);
    assert_eq!(cost, 33);
    assert_eq!(*req.get_return_data().bytes(), vec![9, 9]);

    let log = &req.request_handler().log;
    assert_eq!(log[0].0, EvmApiMethod::Create1);
    let mut expected = 4000u64.to_be_bytes().to_vec();
    expected.extend(word(0).0);
    expected.extend([0x60]);
    assert_eq!(log[0].1, expected);
}

#[test]
fn create1_failure_decodes_the_message() {
    let mut res = vec![0u8];
    res.extend(*b"bad");
    let handler = ScriptedHandler::new(vec![(res, vec![], 7)]);
    let mut req = EvmApiRequestor::new(handler);
    let (outcome, ret_len, cost) = req.create1(vec![], word(0), 1);
    assert_eq!(outcome.unwrap_err().message, "bad".to_string());
    assert_eq!(ret_len, 0);
    assert_eq!(cost, 7);
}

#[test]
fn create1_empty_response_uses_the_fallback_message() {
    let handler = ScriptedHandler::new(vec![(vec![], vec![], 7)]);
    let mut req = EvmApiRequestor::new(handler);
    let (outcome, ret_len, _) = req.create1(vec![], word(0), 1);
    assert_eq!(outcome.unwrap_err().message, "create_response_malformed".to_string());
    assert_eq!(ret_len, 0);
}

#[test]
fn create_failure_keeps_the_previous_return_data() {
    let handler = ScriptedHandler::new(vec![(vec![0], vec![5, 5], 1), (vec![], vec![], 1)]);
    let mut req = EvmApiRequestor::new(handler);
    let input: Vec<u8> = vec![];
    req.contract_call(address(1), input.as_slice(), 1, word(0));
    let (outcome, _, _) = req.create1(vec![], word(0), 1);
    assert!(outcome.is_err());
    assert_eq!(*req.get_return_data().bytes(), vec![5, 5]);
}

#[test]
fn create2_sends_the_salt_word() {
    let mut res = vec![1u8];
    res.extend([0xCD; 20]);
    let handler = ScriptedHandler::new(vec![(res, vec![], 1)]);
    let mut req = EvmApiRequestor::new(handler);
    let (outcome, _, _) = req.create2(vec![0x61], word(2), word(3), 600);
    assert_eq!(outcome.unwrap().0, [0xCD; 20]);

    let log = &req.request_handler().log;
    assert_eq!(log[0].0, EvmApiMethod::Create2);
    let mut expected = 600u64.to_be_bytes().to_vec();
    expected.extend(word(2).0);
    expected.extend(word(3).0);
    expected.extend([0x61]);
    assert_eq!(log[0].1, expected);
}

#[test]
fn emit_log_succeeds_on_an_empty_body_and_fails_on_any_other() {
    let handler = ScriptedHandler::new(vec![(vec![], vec![], 1), (b"fail".to_vec(), vec![], 1)]);
    let mut req = EvmApiRequestor::new(handler);

    assert!(req.emit_log(vec![0xDD], 2).is_ok());
    let r = req.emit_log(vec![0xEE], 1).unwrap_err();
    assert_eq!(r.message, "fail".to_string());

    let log = &req.request_handler().log;
    let mut expected = 2u32.to_be_bytes().to_vec();
    expected.extend([0xDD]);
    assert_eq!(log[0].1, expected);
}

#[test]
fn account_balance_and_codehash_decode_one_word() {
    let handler = ScriptedHandler::new(vec![
        (vec![0x03; 32], vec![], 21),
        (vec![0x04; 32], vec![], 22),
    ]);
    let mut req = EvmApiRequestor::new(handler);

    let (balance, c1) = req.account_balance(address(6));
    assert_eq!(balance.0, [0x03; 32]);
    assert_eq!(c1, 21);

    let (hash, c2) = req.account_codehash(address(6));
    assert_eq!(hash.0, [0x04; 32]);
    assert_eq!(c2, 22);

    let log = &req.request_handler().log;
    assert_eq!(log[0].0, EvmApiMethod::AccountBalance);
    assert_eq!(log[1].0, EvmApiMethod::AccountCodeHash);
    assert_eq!(log[0].1, address(6).0.to_vec());
}

#[test]
fn account_code_memoizes_one_address_at_a_time() {
    let handler = ScriptedHandler::new(vec![
        (vec![], vec![0xA1], 7),
        (vec![], vec![0xB2], 9),
        (vec![], vec![0xA1], 11),
    ]);
    let mut req = EvmApiRequestor::new(handler);

    let (code_a, cost_a) = req.account_code(address(1), 100);
    assert_eq!(*code_a.bytes(), vec![0xA1]);
    assert_eq!(cost_a, 7);

    // The same address again: answered from the single-slot cache, free.
    let (code_a2, cost_a2) = req.account_code(address(1), 100);
    assert_eq!(*code_a2.bytes(), vec![0xA1]);
    assert_eq!(cost_a2, 0);

    // A different address evicts the first.
    let (code_b, cost_b) = req.account_code(address(2), 100);
    assert_eq!(*code_b.bytes(), vec![0xB2]);
    assert_eq!(cost_b, 9);

    // The first address is a fresh miss now.
    let (code_a3, cost_a3) = req.account_code(address(1), 100);
    assert_eq!(*code_a3.bytes(), vec![0xA1]);
    assert_eq!(cost_a3, 11);

    let log = &req.request_handler().log;
    assert_eq!(log.len(), 3);
    let mut expected = address(1).0.to_vec();
    expected.extend(100u64.to_be_bytes());
    assert_eq!(log[0].1, expected);
}

#[test]
fn add_pages_sends_the_raw_count_and_passes_the_cost_through() {
    let handler = ScriptedHandler::new(vec![(vec![], vec![], 88)]);
    let mut req = EvmApiRequestor::new(handler);
    assert_eq!(req.add_pages(0x0102), 88);
    let log = &req.request_handler().log;
    assert_eq!(log[0].0, EvmApiMethod::AddPages);
    assert_eq!(log[0].1, vec![0x01, 0x02]);
}

#[test]
fn capture_hostio_ships_the_trace_and_ignores_the_response() {
    let handler = ScriptedHandler::new(vec![(vec![0xFF, 0xFF], vec![0xEE], 13)]);
    let mut req = EvmApiRequestor::new(handler);
    let name = b"read_args".to_vec();
    let args = vec![1, 2];
    let outs = vec![3];
    req.capture_hostio(&name, &args, &outs, 5000, 4600);

    let log = &req.request_handler().log;
    assert_eq!(log[0].0, EvmApiMethod::CaptureHostIO);
    let mut expected = 5000u64.to_be_bytes().to_vec();
    expected.extend(4600u64.to_be_bytes());
    expected.extend(9u16.to_be_bytes());
    expected.extend(2u16.to_be_bytes());
    expected.extend(1u16.to_be_bytes());
    expected.extend(*b"read_args");
    expected.extend([1, 2]);
    expected.extend([3]);
    assert_eq!(log[0].1, expected);
}

#[test]
fn flush_sends_dirty_pairs_in_cache_order() {
    let handler = ScriptedHandler::new(vec![
        (word(5).0.to_vec(), vec![], 1),
        (vec![0], vec![], 2),
    ]);
    let mut req = EvmApiRequestor::new(handler);

    // Key 1 written, key 2 fetched (clean), key 3 written: the flush must
    // carry exactly keys 1 and 3, in that order.
    req.cache_bytes32(word(1), word(10));
    req.get_bytes32(word(2));
    req.cache_bytes32(word(3), word(30));

    let r = req.flush_storage_cache(false, 9);
    assert_eq!(r.unwrap(), 2);

    let log = &req.request_handler().log;
    let mut expected = 9u64.to_be_bytes().to_vec();
    expected.extend(word(1).0);
    expected.extend(word(10).0);
    expected.extend(word(3).0);
    expected.extend(word(30).0);
    assert_eq!(log[1].1, expected);
}

#[test]
fn overwriting_a_flushed_slot_makes_it_dirty_again() {
    let handler = ScriptedHandler::new(vec![(vec![0], vec![], 1), (vec![0], vec![], 2)]);
    let mut req = EvmApiRequestor::new(handler);

    req.cache_bytes32(word(1), word(10));
    req.flush_storage_cache(false, 5).unwrap();
    req.cache_bytes32(word(1), word(11));
    req.flush_storage_cache(false, 6).unwrap();

    let log = &req.request_handler().log;
    let mut expected = 6u64.to_be_bytes().to_vec();
    expected.extend(word(1).0);
    expected.extend(word(11).0);
    assert_eq!(log[1].1, expected);
}
