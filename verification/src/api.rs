//! The operation tags shared with the host, the outcome codes of calls and
//! creations, and the status byte of a flush. The numbering is fixed
//! protocol surface: an unrecognized outcome byte is a protocol violation,
//! never silently defaulted.

use vstd::prelude::*;
use vstd::string::StringExecFns;

use crate::bytes::suffix_of;
use crate::bytes::Bytes20;
use crate::text::utf8_decode;
use crate::text::utf8_or_hex;
use crate::text::utf8_or_hex_string;
use crate::text::string_from_utf8;
use crate::text::HostError;

verus! {

/// The closed set of operations the host carries out. The tag travels with
/// every request; new values may only be appended.
#[derive(Clone, Copy, PartialEq, Eq, Debug)]
pub enum EvmApiMethod {
    GetBytes32,
    SetTrieSlots,
    ContractCall,
    DelegateCall,
    StaticCall,
    Create1,
    Create2,
    EmitLog,
    AccountBalance,
    AccountCode,
    AccountCodeHash,
    AddPages,
    CaptureHostIO,
}

/// How a call or create completed.
#[derive(Clone, Copy, PartialEq, Eq, Debug)]
pub enum UserOutcomeKind {
    Success,
    Revert,
    Failure,
    OutOfInk,
    OutOfStack,
}

/// The status byte a flush response leads with when the host accepted the
/// written slots.
pub const STATUS_SUCCESS: u8 = 0;

/// The exhaustive mapping from status byte to outcome; bytes outside the
/// known set map to nothing.
pub open spec fn outcome_of_byte(b: u8) -> Option<UserOutcomeKind> {
    if b == 0 {
        Some(UserOutcomeKind::Success)
    } else if b == 1 {
        Some(UserOutcomeKind::Revert)
    } else if b == 2 {
        Some(UserOutcomeKind::Failure)
    } else if b == 3 {
        Some(UserOutcomeKind::OutOfInk)
    } else if b == 4 {
        Some(UserOutcomeKind::OutOfStack)
    } else {
        None
    }
}

/// Decodes the leading byte of a call response.
pub fn decode_outcome(b: u8) -> (r: Option<UserOutcomeKind>)
    ensures
        r == outcome_of_byte(b),
{
    if b == 0 {
        Some(UserOutcomeKind::Success)
    } else if b == 1 {
        Some(UserOutcomeKind::Revert)
    } else if b == 2 {
        Some(UserOutcomeKind::Failure)
    } else if b == 3 {
        Some(UserOutcomeKind::OutOfInk)
    } else if b == 4 {
        Some(UserOutcomeKind::OutOfStack)
    } else {
        None
    }
}

/// The fallback failure text of a create whose response carries no
/// decodable message.
pub open spec fn create_fallback() -> Seq<char> {
    "create_response_malformed"@
}

/// The failure text of a create response: the body past the status byte as
/// UTF-8, or the fallback when the body is empty or not valid text.
pub open spec fn create_error_message(res: Seq<u8>) -> Seq<char> {
    if res.len() == 0 {
        create_fallback()
    } else {
        match utf8_decode(res.skip(1)) {
            Some(s) => s,
            None => create_fallback(),
        }
    }
}

/// Decodes a create response. A well-formed success is exactly 21 bytes
/// led by a non-zero flag: the remaining 20 bytes are the new address.
/// Every other shape is a failure whose message is the body past the first
/// byte (if any) as UTF-8, with a fixed fallback when that fails.
pub fn decode_create_response(res: &Vec<u8>) -> (r: Result<Bytes20, HostError>)
    ensures
        (r is Ok) == (res@.len() == 21 && res@[0] != 0),
        r matches Ok(a) ==> a@ == res@.subrange(1, 21),
        r matches Err(e) ==> e.message@ == create_error_message(res@),
{
    if res.len() == 21 && res[0] != 0 {
        let address = Bytes20::read_from(res, 1);
        Ok(address.unwrap())
    } else if res.len() == 0 {
        Err(HostError { message: String::from_str("create_response_malformed") })
    } else {
        let tail = suffix_of(res, 1);
        match string_from_utf8(tail) {
            Some(s) => Err(HostError { message: s }),
            None => Err(HostError { message: String::from_str("create_response_malformed") }),
        }
    }
}

/// The failure text of a log-emission response.
pub open spec fn emit_log_error_message(res: Seq<u8>) -> Seq<char> {
    match utf8_decode(res) {
        Some(s) => s,
        None => "malformed emit-log response"@,
    }
}

/// Decodes a log-emission response: an empty body is success, any other
/// body is a failure carrying the body as text.
pub fn decode_emit_log_response(res: Vec<u8>) -> (r: Result<(), HostError>)
    ensures
        (r is Ok) == (res@.len() == 0),
        r matches Err(e) ==> e.message@ == emit_log_error_message(res@),
{
    if res.len() == 0 {
        Ok(())
    } else {
        match string_from_utf8(res) {
            Some(s) => Err(HostError { message: s }),
            None => Err(HostError { message: String::from_str("malformed emit-log response") }),
        }
    }
}

/// Decodes a flush response: the leading status byte decides, and a
/// rejection carries the whole body as text, degrading to hex.
pub fn flush_status(res: Vec<u8>) -> (r: Result<(), HostError>)
    requires
        res@.len() >= 1,
    ensures
        (r is Ok) == (res@[0] == STATUS_SUCCESS),
        r matches Err(e) ==> e.message@ == utf8_or_hex(res@),
{
    if res[0] == STATUS_SUCCESS {
        Ok(())
    } else {
        Err(HostError { message: utf8_or_hex_string(res) })
    }
}

} // verus!
