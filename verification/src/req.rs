//! The orchestrator: owns the storage cache, the request primitive, and
//! two single-slot side caches (last fetched contract code, last return
//! data), and exposes the full typed operation set over the byte channel.

use vstd::prelude::*;

use crate::api::decode_create_response;
use crate::api::decode_emit_log_response;
use crate::api::decode_outcome;
use crate::api::flush_status;
use crate::api::outcome_of_byte;
use crate::api::EvmApiMethod;
use crate::api::UserOutcomeKind;
use crate::bytes::append_bytes;
use crate::bytes::Bytes20;
use crate::bytes::Bytes32;
use crate::retdata::RetData;
use crate::storage::cleaned;
use crate::storage::lookup;
use crate::storage::Slot;
use crate::storage::StorageCache;
use crate::storage::STORAGE_READ_GAS;
use crate::storage::STORAGE_WRITE_GAS;
use crate::text::HostError;
use crate::wire::encode_account_code_payload;
use crate::wire::encode_add_pages_payload;
use crate::wire::encode_call_payload;
use crate::wire::encode_capture_hostio_payload;
use crate::wire::encode_create_payload;
use crate::wire::encode_emit_log_payload;
use crate::EVM_API_INK;

verus! {

broadcast use vstd::array::group_array_axioms;

/// `a + b`, stuck at the ceiling on overflow.
pub open spec fn sat_add(a: u64, b: u64) -> u64 {
    if a + b > u64::MAX {
        u64::MAX
    } else {
        (a + b) as u64
    }
}

/// What every host honors about the shape of its responses. Fixed-width
/// queries answer with exactly one word; a flush answers with at least its
/// status byte; a call answers with a recognized outcome byte. Violating
/// this is a protocol fault, not an input the orchestrator handles.
pub open spec fn response_wf(method: EvmApiMethod, res: Seq<u8>) -> bool {
    match method {
        EvmApiMethod::GetBytes32 => res.len() == 32,
        EvmApiMethod::AccountBalance => res.len() == 32,
        EvmApiMethod::AccountCodeHash => res.len() == 32,
        EvmApiMethod::SetTrieSlots => res.len() >= 1,
        EvmApiMethod::ContractCall => res.len() >= 1 && outcome_of_byte(res[0]) is Some,
        EvmApiMethod::DelegateCall => res.len() >= 1 && outcome_of_byte(res[0]) is Some,
        EvmApiMethod::StaticCall => res.len() >= 1 && outcome_of_byte(res[0]) is Some,
        _ => true,
    }
}

/// The request primitive: submits one tagged payload to the host and
/// blocks for the response bytes, a shared handle over the response body,
/// and the gas cost. The orchestrator assumes nothing about the transport.
pub trait RequestHandler {
    fn handle_request(&mut self, req_type: EvmApiMethod, req_data: &[u8]) -> (r: (
        Vec<u8>,
        RetData,
        u64,
    ))
        ensures
            response_wf(req_type, r.0@),
    ;
}

/// Truncates a buffer length to the 32-bit figure the operation results
/// carry.
fn data_len_u32(data: &RetData) -> (r: u32)
    ensures
        r as nat == data@.len() % 0x100000000,
{
    let n: usize = data.len();
    let n64: u64 = n as u64;
    let m: u64 = n64 % 0x100000000;
    m as u32
}

/// The translation and caching layer over one request primitive.
pub struct EvmApiRequestor<H: RequestHandler> {
    handler: H,
    last_code: Option<(Bytes20, RetData)>,
    last_return_data: Option<RetData>,
    storage_cache: StorageCache,
}

impl<H: RequestHandler> EvmApiRequestor<H> {
    /// The storage cache model: (key, record) in cache order.
    pub closed spec fn cache(self) -> Seq<(Seq<u8>, Slot)> {
        self.storage_cache@
    }

    /// The single-slot code cache: the address and code last fetched.
    pub closed spec fn code_cache(self) -> Option<(Seq<u8>, Seq<u8>)> {
        match self.last_code {
            Some((a, d)) => Some((a@, d@)),
            None => None,
        }
    }

    /// The body of the most recent call or create response, once one
    /// happened.
    pub closed spec fn last_return(self) -> Option<Seq<u8>> {
        match self.last_return_data {
            Some(d) => Some(d@),
            None => None,
        }
    }

    pub closed spec fn wf(self) -> bool {
        self.storage_cache.wf()
    }

    /// A fresh orchestrator over `handler`: empty caches, no return data.
    pub fn new(handler: H) -> (r: Self)
        ensures
            r.wf(),
            r.cache() == Seq::<(Seq<u8>, Slot)>::empty(),
            r.code_cache() is None,
            r.last_return() is None,
    {
        EvmApiRequestor {
            handler,
            last_code: None,
            last_return_data: None,
            storage_cache: StorageCache::new(),
        }
    }

    /// The request primitive, for callers that need to reach it directly.
    pub fn request_handler(&mut self) -> &mut H {
        &mut self.handler
    }

    /// One round trip to the host. Leaves every cache as it was.
    fn handle_request(&mut self, req_type: EvmApiMethod, req_data: &Vec<u8>) -> (r: (
        Vec<u8>,
        RetData,
        u64,
    ))
        ensures
            response_wf(req_type, r.0@),
            final(self).cache() == old(self).cache(),
            final(self).code_cache() == old(self).code_cache(),
            final(self).last_return() == old(self).last_return(),
            final(self).wf() == old(self).wf(),
    {
        self.handler.handle_request(req_type, req_data.as_slice())
    }

    /// Storage read. A hit answers from the cache at the fixed read cost
    /// and changes nothing. A miss fetches the word, records it as
    /// confirmed and current, and adds the request's cost and the boundary
    /// charge on top of the read cost.
    pub fn get_bytes32(&mut self, key: Bytes32) -> (r: (Bytes32, u64))
        requires
            old(self).wf(),
        ensures
            final(self).wf(),
            lookup(old(self).cache(), key@) matches Some(s) ==> r.0@ == s.value && r.1
                == STORAGE_READ_GAS && final(self).cache() == old(self).cache(),
            lookup(old(self).cache(), key@) is None ==> final(self).cache() == old(
                self,
            ).cache().push((key@, Slot { known: Some(r.0@), value: r.0@ })) && lookup(
                final(self).cache(),
                key@,
            ) == Some(Slot { known: Some(r.0@), value: r.0@ }) && (exists|g: u64|
                r.1 == sat_add(sat_add(STORAGE_READ_GAS, g), EVM_API_INK)),
            final(self).code_cache() == old(self).code_cache(),
            final(self).last_return() == old(self).last_return(),
    {
        match self.storage_cache.get_cached(&key) {
            Some(value) => (value, STORAGE_READ_GAS),
            None => {
                let mut payload: Vec<u8> = Vec::new();
                append_bytes(&mut payload, key.0.as_slice());
                let (res, _data, gas) = self.handle_request(EvmApiMethod::GetBytes32, &payload);
                let word = Bytes32::from_exact(&res).unwrap();
                self.storage_cache.insert_known(key, word);
                let cost = STORAGE_READ_GAS.saturating_add(gas).saturating_add(EVM_API_INK);
                proof {
                    assert(cost == sat_add(sat_add(STORAGE_READ_GAS, gas), EVM_API_INK));
                }
                (word, cost)
            },
        }
    }

    /// Storage write into the cache, at the fixed write cost. Creates the
    /// record with no confirmed value when the key is new; dirty tracking
    /// is implicit in the record.
    pub fn cache_bytes32(&mut self, key: Bytes32, value: Bytes32) -> (r: u64)
        requires
            old(self).wf(),
        ensures
            final(self).wf(),
            r == STORAGE_WRITE_GAS,
            lookup(old(self).cache(), key@) is None ==> final(self).cache() == old(
                self,
            ).cache().push((key@, Slot { known: None, value: value@ })),
            lookup(old(self).cache(), key@) matches Some(s) ==> exists|i: int|
                0 <= i < old(self).cache().len() && (#[trigger] old(self).cache()[i]).0 == key@
                    && old(self).cache()[i].1 == s && final(self).cache() == old(
                    self,
                ).cache().update(i, (key@, Slot { known: s.known, value: value@ })),
            lookup(final(self).cache(), key@) == Some(
                Slot {
                    known: match lookup(old(self).cache(), key@) {
                        Some(s) => s.known,
                        None => None,
                    },
                    value: value@,
                },
            ),
            final(self).code_cache() == old(self).code_cache(),
            final(self).last_return() == old(self).last_return(),
    {
        self.storage_cache.set_word(key, value);
        STORAGE_WRITE_GAS
    }

    /// Flush: serializes the gas left and every dirty record, marks those
    /// records confirmed while building the payload — before the host sees
    /// anything — and, when `clear` is set, empties the cache, also before
    /// sending. A rejected flush therefore still leaves the cache cleaned
    /// or cleared: a caller must treat any flush failure as grounds for
    /// discarding the whole execution context.
    pub fn flush_storage_cache(&mut self, clear: bool, gas_left: u64) -> (r: Result<u64, HostError>)
        requires
            old(self).wf(),
        ensures
            final(self).wf(),
            final(self).cache() == if clear {
                Seq::<(Seq<u8>, Slot)>::empty()
            } else {
                cleaned(old(self).cache())
            },
            final(self).code_cache() == old(self).code_cache(),
            final(self).last_return() == old(self).last_return(),
    {
        let payload = self.storage_cache.drain_dirty(clear, gas_left);
        let (res, _data, cost) = self.handle_request(EvmApiMethod::SetTrieSlots, &payload);
        match flush_status(res) {
            Ok(()) => Ok(cost),
            Err(e) => Err(e),
        }
    }

    /// Call out to a contract: encodes the fixed layout, sends it, records
    /// the response body as the last return data, and reports its length
    /// and the decoded outcome byte.
    fn call_request(
        &mut self,
        call_type: EvmApiMethod,
        contract: Bytes20,
        input: &[u8],
        gas: u64,
        value: Bytes32,
    ) -> (r: (u32, u64, UserOutcomeKind))
        requires
            old(self).wf(),
            call_type == EvmApiMethod::ContractCall || call_type == EvmApiMethod::DelegateCall
                || call_type == EvmApiMethod::StaticCall,
        ensures
            final(self).wf(),
            final(self).cache() == old(self).cache(),
            final(self).code_cache() == old(self).code_cache(),
            final(self).last_return() matches Some(d) && r.0 as nat == d.len() % 0x100000000,
    {
        let payload = encode_call_payload(&contract, &value, gas, input);
        let (res, data, cost) = self.handle_request(call_type, &payload);
        let status = decode_outcome(res[0]).unwrap();
        let data_len = data_len_u32(&data);
        self.last_return_data = Some(data);
        (data_len, cost, status)
    }

    /// Contract call carrying a value.
    pub fn contract_call(&mut self, contract: Bytes20, input: &[u8], gas: u64, value: Bytes32) -> (r:
        (u32, u64, UserOutcomeKind))
        requires
            old(self).wf(),
        ensures
            final(self).wf(),
            final(self).cache() == old(self).cache(),
            final(self).code_cache() == old(self).code_cache(),
            final(self).last_return() matches Some(d) && r.0 as nat == d.len() % 0x100000000,
    {
        self.call_request(EvmApiMethod::ContractCall, contract, input, gas, value)
    }

    /// Delegate call: runs foreign code in the caller's context; carries no
    /// value, so the value word goes out as zero.
    pub fn delegate_call(&mut self, contract: Bytes20, input: &[u8], gas: u64) -> (r: (
        u32,
        u64,
        UserOutcomeKind,
    ))
        requires
            old(self).wf(),
        ensures
            final(self).wf(),
            final(self).cache() == old(self).cache(),
            final(self).code_cache() == old(self).code_cache(),
            final(self).last_return() matches Some(d) && r.0 as nat == d.len() % 0x100000000,
    {
        self.call_request(EvmApiMethod::DelegateCall, contract, input, gas, Bytes32::zero())
    }

    /// Static call: read-only; carries no value, so the value word goes out
    /// as zero.
    pub fn static_call(&mut self, contract: Bytes20, input: &[u8], gas: u64) -> (r: (
        u32,
        u64,
        UserOutcomeKind,
    ))
        requires
            old(self).wf(),
        ensures
            final(self).wf(),
            final(self).cache() == old(self).cache(),
            final(self).code_cache() == old(self).code_cache(),
            final(self).last_return() matches Some(d) && r.0 as nat == d.len() % 0x100000000,
    {
        self.call_request(EvmApiMethod::StaticCall, contract, input, gas, Bytes32::zero())
    }

    /// Deploy a contract: encodes the fixed layout, sends it, and decodes
    /// the response. Success records the response body as the last return
    /// data and reports its length; failure reports the decoded message and
    /// leaves the return data as it was. The gas cost passes through either
    /// way.
    fn create_request(
        &mut self,
        create_type: EvmApiMethod,
        code: Vec<u8>,
        endowment: Bytes32,
        salt: Option<Bytes32>,
        gas: u64,
    ) -> (r: (Result<Bytes20, HostError>, u32, u64))
        requires
            old(self).wf(),
        ensures
            final(self).wf(),
            final(self).cache() == old(self).cache(),
            final(self).code_cache() == old(self).code_cache(),
            r.0 is Ok ==> (final(self).last_return() matches Some(d) && r.1 as nat == d.len()
                % 0x100000000),
            r.0 is Err ==> (final(self).last_return() == old(self).last_return() && r.1 == 0),
    {
        let payload = encode_create_payload(gas, &endowment, &salt, &code);
        let (res, data, cost) = self.handle_request(create_type, &payload);
        match decode_create_response(&res) {
            Ok(address) => {
                let data_len = data_len_u32(&data);
                self.last_return_data = Some(data);
                (Ok(address), data_len, cost)
            },
            Err(e) => (Err(e), 0, cost),
        }
    }

    /// Deploy with no salt.
    pub fn create1(&mut self, code: Vec<u8>, endowment: Bytes32, gas: u64) -> (r: (
        Result<Bytes20, HostError>,
        u32,
        u64,
    ))
        requires
            old(self).wf(),
        ensures
            final(self).wf(),
            final(self).cache() == old(self).cache(),
            final(self).code_cache() == old(self).code_cache(),
            r.0 is Ok ==> (final(self).last_return() matches Some(d) && r.1 as nat == d.len()
                % 0x100000000),
            r.0 is Err ==> (final(self).last_return() == old(self).last_return() && r.1 == 0),
    {
        self.create_request(EvmApiMethod::Create1, code, endowment, None, gas)
    }

    /// Deploy at a salted address.
    pub fn create2(&mut self, code: Vec<u8>, endowment: Bytes32, salt: Bytes32, gas: u64) -> (r: (
        Result<Bytes20, HostError>,
        u32,
        u64,
    ))
        requires
            old(self).wf(),
        ensures
            final(self).wf(),
            final(self).cache() == old(self).cache(),
            final(self).code_cache() == old(self).code_cache(),
            r.0 is Ok ==> (final(self).last_return() matches Some(d) && r.1 as nat == d.len()
                % 0x100000000),
            r.0 is Err ==> (final(self).last_return() == old(self).last_return() && r.1 == 0),
    {
        self.create_request(EvmApiMethod::Create2, code, endowment, Some(salt), gas)
    }

    /// The body of the most recent call or create response. Calling this
    /// before any call or create is a sequencing bug in the caller, not
    /// bad external input: the contract excludes it.
    pub fn get_return_data(&self) -> (r: RetData)
        requires
            self.last_return() is Some,
        ensures
            r@ == self.last_return().unwrap(),
    {
        match &self.last_return_data {
            Some(d) => d.clone(),
            None => vstd::pervasive::unreached(),
        }
    }

    /// Emit a log: the topic count and data go out; an empty response body
    /// is success, any other body is the failure's text.
    pub fn emit_log(&mut self, data: Vec<u8>, topics: u32) -> (r: Result<(), HostError>)
        requires
            old(self).wf(),
        ensures
            final(self).wf(),
            final(self).cache() == old(self).cache(),
            final(self).code_cache() == old(self).code_cache(),
            final(self).last_return() == old(self).last_return(),
    {
        let payload = encode_emit_log_payload(topics, &data);
        let (res, _data, _cost) = self.handle_request(EvmApiMethod::EmitLog, &payload);
        decode_emit_log_response(res)
    }

    /// Account balance: the raw address goes out; the response is exactly
    /// one 32-byte word.
    pub fn account_balance(&mut self, address: Bytes20) -> (r: (Bytes32, u64))
        requires
            old(self).wf(),
        ensures
            final(self).wf(),
            final(self).cache() == old(self).cache(),
            final(self).code_cache() == old(self).code_cache(),
            final(self).last_return() == old(self).last_return(),
    {
        let mut payload: Vec<u8> = Vec::new();
        append_bytes(&mut payload, address.0.as_slice());
        let (res, _data, cost) = self.handle_request(EvmApiMethod::AccountBalance, &payload);
        (Bytes32::from_exact(&res).unwrap(), cost)
    }

    /// Account code, memoized one address at a time: a repeat of the
    /// cached address answers at zero cost; any other address fetches and
    /// replaces the cached pair.
    pub fn account_code(&mut self, address: Bytes20, gas_left: u64) -> (r: (RetData, u64))
        requires
            old(self).wf(),
        ensures
            final(self).wf(),
            final(self).cache() == old(self).cache(),
            final(self).last_return() == old(self).last_return(),
            old(self).code_cache() matches Some(p) ==> (p.0 == address@ ==> (r.0@ == p.1 && r.1
                == 0 && final(self).code_cache() == old(self).code_cache())),
            (match old(self).code_cache() {
                Some(p) => p.0 != address@,
                None => true,
            }) ==> final(self).code_cache() == Some((address@, r.0@)),
    {
        let cached: Option<RetData> = match &self.last_code {
            Some((stored, data)) => {
                if stored.same(&address) {
                    Some(data.clone())
                } else {
                    None
                }
            },
            None => None,
        };
        match cached {
            Some(data) => (data, 0),
            None => {
                let payload = encode_account_code_payload(&address, gas_left);
                let (_res, data, cost) = self.handle_request(EvmApiMethod::AccountCode, &payload);
                self.last_code = Some((address, data.clone()));
                (data, cost)
            },
        }
    }

    /// Account code hash: the raw address goes out; the response is exactly
    /// one 32-byte word.
    pub fn account_codehash(&mut self, address: Bytes20) -> (r: (Bytes32, u64))
        requires
            old(self).wf(),
        ensures
            final(self).wf(),
            final(self).cache() == old(self).cache(),
            final(self).code_cache() == old(self).code_cache(),
            final(self).last_return() == old(self).last_return(),
    {
        let mut payload: Vec<u8> = Vec::new();
        append_bytes(&mut payload, address.0.as_slice());
        let (res, _data, cost) = self.handle_request(EvmApiMethod::AccountCodeHash, &payload);
        (Bytes32::from_exact(&res).unwrap(), cost)
    }

    /// Charge for growing the sandboxed linear memory: the raw 2-byte count
    /// goes out; only the cost comes back.
    pub fn add_pages(&mut self, pages: u16) -> (r: u64)
        requires
            old(self).wf(),
        ensures
            final(self).wf(),
            final(self).cache() == old(self).cache(),
            final(self).code_cache() == old(self).code_cache(),
            final(self).last_return() == old(self).last_return(),
    {
        let payload = encode_add_pages_payload(pages);
        let (_res, _data, cost) = self.handle_request(EvmApiMethod::AddPages, &payload);
        cost
    }

    /// Fire-and-forget tracing: ships the metering counters and the three
    /// blobs; the response is ignored entirely and never affects control
    /// flow.
    pub fn capture_hostio(
        &mut self,
        name: &Vec<u8>,
        args: &Vec<u8>,
        outs: &Vec<u8>,
        start_ink: u64,
        end_ink: u64,
    )
        requires
            old(self).wf(),
        ensures
            final(self).wf(),
            final(self).cache() == old(self).cache(),
            final(self).code_cache() == old(self).code_cache(),
            final(self).last_return() == old(self).last_return(),
    {
        let payload = encode_capture_hostio_payload(name, args, outs, start_ink, end_ink);
        let (_res, _data, _cost) = self.handle_request(EvmApiMethod::CaptureHostIO, &payload);
    }
}

} // verus!
