//! The wire format: exact byte layouts of every request payload, the
//! host-side parse of each layout, and proofs that parsing an encoded
//! payload recovers the original fields.
//!
//! All multi-byte integers are big-endian; there is no padding and no
//! length prefix except where a layout states one.

use vstd::prelude::*;

use crate::bytes::append_bytes;
use crate::bytes::Bytes20;
use crate::bytes::Bytes32;

verus! {

/// 256 to the `n`.
pub open spec fn pow256(n: nat) -> nat
    decreases n,
{
    if n == 0 {
        1
    } else {
        256 * pow256((n - 1) as nat)
    }
}

/// The `n` lowest bytes of `x`, big-endian: the last byte is the least
/// significant.
pub open spec fn be_bytes(x: nat, n: nat) -> Seq<u8>
    decreases n,
{
    if n == 0 {
        Seq::empty()
    } else {
        be_bytes(x / 256, (n - 1) as nat).push((x % 256) as u8)
    }
}

/// The value of a big-endian byte string.
pub open spec fn be_val(s: Seq<u8>) -> nat
    decreases s.len(),
{
    if s.len() == 0 {
        0
    } else {
        (be_val(s.drop_last()) * 256 + s.last()) as nat
    }
}

pub proof fn lemma_be_bytes_len(x: nat, n: nat)
    ensures
        be_bytes(x, n).len() == n,
    decreases n,
{
    if n > 0 {
        lemma_be_bytes_len(x / 256, (n - 1) as nat);
    }
}

pub proof fn lemma_pow256_8()
    ensures
        pow256(2) == 0x10000,
        pow256(4) == 0x100000000,
        pow256(8) == 0x10000000000000000,
{
    reveal_with_fuel(pow256, 9);
}

/// Decoding inverts encoding for every value the width can carry.
pub proof fn lemma_be_round_trip(x: nat, n: nat)
    requires
        x < pow256(n),
    ensures
        be_val(be_bytes(x, n)) == x,
    decreases n,
{
    if n == 0 {
    } else {
        let m = (n - 1) as nat;
        lemma_be_bytes_len(x / 256, m);
        assert(x / 256 < pow256(m)) by (nonlinear_arith)
            requires
                x < 256 * pow256(m),
        ;
        lemma_be_round_trip(x / 256, m);
        let b = be_bytes(x / 256, m);
        assert(be_bytes(x, n) == b.push((x % 256) as u8));
        assert(b.push((x % 256) as u8).drop_last() =~= b);
        assert((x / 256) * 256 + x % 256 == x) by (nonlinear_arith);
    }
}

/// Encodes the `n` lowest bytes of `x`, big-endian.
pub fn be_bytes_exec(x: u64, n: usize) -> (r: Vec<u8>)
    ensures
        r@ == be_bytes(x as nat, n as nat),
    decreases n,
{
    if n == 0 {
        Vec::new()
    } else {
        let mut r = be_bytes_exec(x / 256, n - 1);
        r.push((x % 256) as u8);
        r
    }
}

/// Reads the big-endian value of `p[start .. start + n]`.
pub fn be_val_exec(p: &Vec<u8>, start: usize, n: usize) -> (r: u64)
    requires
        start + n <= p@.len(),
        n <= 8,
    ensures
        r as nat == be_val(p@.subrange(start as int, start + n)),
{
    proof {
        lemma_pow256_8();
        reveal_with_fuel(pow256, 9);
    }
    let plen: usize = p.len();
    let mut acc: u64 = 0;
    let mut i: usize = 0;
    proof {
        assert(p@.subrange(start as int, start as int) =~= Seq::<u8>::empty());
    }
    while i < n
        invariant
            start + n <= plen == p@.len(),
            n <= 8,
            i <= n,
            acc as nat == be_val(p@.subrange(start as int, start + i)),
            (acc as nat) < pow256(i as nat),
            pow256(8) == 0x10000000000000000,
            forall|k: nat| k < 8 ==> #[trigger] pow256(k) < pow256((k + 1) as nat),
        decreases n - i,
    {
        let ghost prev = p@.subrange(start as int, start + i);
        let ghost next = p@.subrange(start as int, start + i + 1);
        proof {
            assert(next.drop_last() =~= prev);
            assert(pow256((i + 1) as nat) == 256 * pow256(i as nat));
            assert(acc as nat * 256 + 256 <= pow256((i + 1) as nat)) by (nonlinear_arith)
                requires
                    (acc as nat) < pow256(i as nat),
                    pow256((i + 1) as nat) == 256 * pow256(i as nat),
            ;
            assert(pow256((i + 1) as nat) <= pow256(8)) by {
                reveal_with_fuel(pow256, 9);
            }
        }
        acc = acc * 256 + (p[start + i] as u64);
        i += 1;
    }
    proof {
        assert(p@.subrange(start as int, start + n) =~= p@.subrange(start as int, start + i));
    }
    acc
}

// ---------------------------------------------------------------------------
// Request payload layouts, one spec function per operation family.
// ---------------------------------------------------------------------------

/// Call variants: target address, value word, gas, then the raw input.
pub open spec fn call_payload(contract: Seq<u8>, value: Seq<u8>, gas: u64, input: Seq<u8>) -> Seq<
    u8,
> {
    contract + value + be_bytes(gas as nat, 8) + input
}

/// Create variants: gas, endowment word, the salt word only for the salted
/// variant, then the raw init code.
pub open spec fn create_payload(
    gas: u64,
    endowment: Seq<u8>,
    salt: Option<Seq<u8>>,
    code: Seq<u8>,
) -> Seq<u8> {
    be_bytes(gas as nat, 8) + endowment + (match salt {
        Some(s) => s,
        None => Seq::<u8>::empty(),
    }) + code
}

/// Log emission: the topic count, then the raw log data.
pub open spec fn emit_log_payload(topics: u32, data: Seq<u8>) -> Seq<u8> {
    be_bytes(topics as nat, 4) + data
}

/// Account code fetch: the address, then the gas left.
pub open spec fn account_code_payload(address: Seq<u8>, gas_left: u64) -> Seq<u8> {
    address + be_bytes(gas_left as nat, 8)
}

/// Memory growth: the raw 2-byte page count.
pub open spec fn add_pages_payload(pages: u16) -> Seq<u8> {
    be_bytes(pages as nat, 2)
}

/// Tracing: two 8-byte ink counters, three 2-byte length prefixes, then
/// the three blobs. A length wider than 16 bits is truncated, as the
/// prefix cannot carry it.
pub open spec fn capture_hostio_payload(
    name: Seq<u8>,
    args: Seq<u8>,
    outs: Seq<u8>,
    start_ink: u64,
    end_ink: u64,
) -> Seq<u8> {
    be_bytes(start_ink as nat, 8) + be_bytes(end_ink as nat, 8) + be_bytes(name.len() % 0x10000, 2)
        + be_bytes(args.len() % 0x10000, 2) + be_bytes(outs.len() % 0x10000, 2) + name + args + outs
}

// ---------------------------------------------------------------------------
// Executable encoders.
// ---------------------------------------------------------------------------

pub fn encode_call_payload(contract: &Bytes20, value: &Bytes32, gas: u64, input: &[u8]) -> (r: Vec<
    u8,
>)
    ensures
        r@ == call_payload(contract@, value@, gas, input@),
{
    let mut r: Vec<u8> = Vec::new();
    append_bytes(&mut r, contract.0.as_slice());
    append_bytes(&mut r, value.0.as_slice());
    let g = be_bytes_exec(gas, 8);
    append_bytes(&mut r, g.as_slice());
    append_bytes(&mut r, input);
    r
}

pub fn encode_create_payload(
    gas: u64,
    endowment: &Bytes32,
    salt: &Option<Bytes32>,
    code: &Vec<u8>,
) -> (r: Vec<u8>)
    ensures
        r@ == create_payload(
            gas,
            endowment@,
            match salt {
                Some(s) => Some(s@),
                None => None,
            },
            code@,
        ),
{
    let mut r = be_bytes_exec(gas, 8);
    append_bytes(&mut r, endowment.0.as_slice());
    match salt {
        Some(s) => append_bytes(&mut r, s.0.as_slice()),
        None => (),
    }
    append_bytes(&mut r, code.as_slice());
    proof {
        if salt is None {
            assert(r@ =~= create_payload(gas, endowment@, None, code@));
        }
    }
    r
}

pub fn encode_emit_log_payload(topics: u32, data: &Vec<u8>) -> (r: Vec<u8>)
    ensures
        r@ == emit_log_payload(topics, data@),
{
    let mut r = be_bytes_exec(topics as u64, 4);
    append_bytes(&mut r, data.as_slice());
    r
}

pub fn encode_account_code_payload(address: &Bytes20, gas_left: u64) -> (r: Vec<u8>)
    ensures
        r@ == account_code_payload(address@, gas_left),
{
    let mut r: Vec<u8> = Vec::new();
    append_bytes(&mut r, address.0.as_slice());
    let g = be_bytes_exec(gas_left, 8);
    append_bytes(&mut r, g.as_slice());
    r
}

pub fn encode_add_pages_payload(pages: u16) -> (r: Vec<u8>)
    ensures
        r@ == add_pages_payload(pages),
{
    be_bytes_exec(pages as u64, 2)
}

pub fn encode_capture_hostio_payload(
    name: &Vec<u8>,
    args: &Vec<u8>,
    outs: &Vec<u8>,
    start_ink: u64,
    end_ink: u64,
) -> (r: Vec<u8>)
    ensures
        r@ == capture_hostio_payload(name@, args@, outs@, start_ink, end_ink),
{
    let mut r = be_bytes_exec(start_ink, 8);
    let e = be_bytes_exec(end_ink, 8);
    append_bytes(&mut r, e.as_slice());
    let ln = be_bytes_exec((name.len() % 0x10000) as u64, 2);
    append_bytes(&mut r, ln.as_slice());
    let la = be_bytes_exec((args.len() % 0x10000) as u64, 2);
    append_bytes(&mut r, la.as_slice());
    let lo = be_bytes_exec((outs.len() % 0x10000) as u64, 2);
    append_bytes(&mut r, lo.as_slice());
    append_bytes(&mut r, name.as_slice());
    append_bytes(&mut r, args.as_slice());
    append_bytes(&mut r, outs.as_slice());
    r
}

// ---------------------------------------------------------------------------
// Host-side parses: what the process on the other end of the channel
// recovers from each payload.
// ---------------------------------------------------------------------------

/// Storage get: the payload is the bare 32-byte key.
pub open spec fn parse_storage_key(p: Seq<u8>) -> Option<Seq<u8>> {
    if p.len() == 32 {
        Some(p)
    } else {
        None
    }
}

/// Account balance and codehash: the payload is the bare 20-byte address.
pub open spec fn parse_account_query(p: Seq<u8>) -> Option<Seq<u8>> {
    if p.len() == 20 {
        Some(p)
    } else {
        None
    }
}

pub open spec fn parse_call_payload(p: Seq<u8>) -> Option<(Seq<u8>, Seq<u8>, nat, Seq<u8>)> {
    if p.len() >= 60 {
        Some(
            (
                p.subrange(0, 20),
                p.subrange(20, 52),
                be_val(p.subrange(52, 60)),
                p.skip(60),
            ),
        )
    } else {
        None
    }
}

pub open spec fn parse_create_payload(p: Seq<u8>, salted: bool) -> Option<
    (nat, Seq<u8>, Option<Seq<u8>>, Seq<u8>),
> {
    if salted {
        if p.len() >= 72 {
            Some(
                (
                    be_val(p.subrange(0, 8)),
                    p.subrange(8, 40),
                    Some(p.subrange(40, 72)),
                    p.skip(72),
                ),
            )
        } else {
            None
        }
    } else {
        if p.len() >= 40 {
            Some((be_val(p.subrange(0, 8)), p.subrange(8, 40), None, p.skip(40)))
        } else {
            None
        }
    }
}

pub open spec fn parse_emit_log_payload(p: Seq<u8>) -> Option<(nat, Seq<u8>)> {
    if p.len() >= 4 {
        Some((be_val(p.subrange(0, 4)), p.skip(4)))
    } else {
        None
    }
}

pub open spec fn parse_account_code_payload(p: Seq<u8>) -> Option<(Seq<u8>, nat)> {
    if p.len() == 28 {
        Some((p.subrange(0, 20), be_val(p.subrange(20, 28))))
    } else {
        None
    }
}

pub open spec fn parse_add_pages_payload(p: Seq<u8>) -> Option<nat> {
    if p.len() == 2 {
        Some(be_val(p))
    } else {
        None
    }
}

pub open spec fn parse_capture_hostio_payload(p: Seq<u8>) -> Option<
    (nat, nat, Seq<u8>, Seq<u8>, Seq<u8>),
> {
    if p.len() >= 22 {
        let n_name = be_val(p.subrange(16, 18));
        let n_args = be_val(p.subrange(18, 20));
        let n_outs = be_val(p.subrange(20, 22));
        if p.len() == 22 + n_name + n_args + n_outs {
            let a: int = 22 + n_name as int;
            let b: int = a + n_args as int;
            let c: int = b + n_outs as int;
            Some(
                (
                    be_val(p.subrange(0, 8)),
                    be_val(p.subrange(8, 16)),
                    p.subrange(22, a),
                    p.subrange(a, b),
                    p.subrange(b, c),
                ),
            )
        } else {
            None
        }
    } else {
        None
    }
}

// ---------------------------------------------------------------------------
// Round trips: the host-side parse of every encoded payload recovers the
// original fields.
// ---------------------------------------------------------------------------

pub proof fn lemma_storage_key_round_trip(key: Seq<u8>)
    requires
        key.len() == 32,
    ensures
        parse_storage_key(key) == Some(key),
{
}

pub proof fn lemma_account_query_round_trip(address: Seq<u8>)
    requires
        address.len() == 20,
    ensures
        parse_account_query(address) == Some(address),
{
}

pub proof fn lemma_call_round_trip(contract: Seq<u8>, value: Seq<u8>, gas: u64, input: Seq<u8>)
    requires
        contract.len() == 20,
        value.len() == 32,
    ensures
        parse_call_payload(call_payload(contract, value, gas, input)) == Some(
            (contract, value, gas as nat, input),
        ),
{
    let p = call_payload(contract, value, gas, input);
    lemma_be_bytes_len(gas as nat, 8);
    lemma_pow256_8();
    lemma_be_round_trip(gas as nat, 8);
    assert(p.subrange(0, 20) =~= contract);
    assert(p.subrange(20, 52) =~= value);
    assert(p.subrange(52, 60) =~= be_bytes(gas as nat, 8));
    assert(p.skip(60) =~= input);
}

pub proof fn lemma_create_round_trip(
    gas: u64,
    endowment: Seq<u8>,
    salt: Option<Seq<u8>>,
    code: Seq<u8>,
)
    requires
        endowment.len() == 32,
        salt matches Some(s) ==> s.len() == 32,
    ensures
        parse_create_payload(create_payload(gas, endowment, salt, code), salt is Some) == Some(
            (gas as nat, endowment, salt, code),
        ),
{
    let p = create_payload(gas, endowment, salt, code);
    lemma_be_bytes_len(gas as nat, 8);
    lemma_pow256_8();
    lemma_be_round_trip(gas as nat, 8);
    assert(p.subrange(0, 8) =~= be_bytes(gas as nat, 8));
    assert(p.subrange(8, 40) =~= endowment);
    match salt {
        Some(s) => {
            assert(p.subrange(40, 72) =~= s);
            assert(p.skip(72) =~= code);
        },
        None => {
            assert(p.skip(40) =~= code);
        },
    }
}

pub proof fn lemma_emit_log_round_trip(topics: u32, data: Seq<u8>)
    ensures
        parse_emit_log_payload(emit_log_payload(topics, data)) == Some((topics as nat, data)),
{
    let p = emit_log_payload(topics, data);
    lemma_be_bytes_len(topics as nat, 4);
    lemma_pow256_8();
    lemma_be_round_trip(topics as nat, 4);
    assert(p.subrange(0, 4) =~= be_bytes(topics as nat, 4));
    assert(p.skip(4) =~= data);
}

pub proof fn lemma_account_code_round_trip(address: Seq<u8>, gas_left: u64)
    requires
        address.len() == 20,
    ensures
        parse_account_code_payload(account_code_payload(address, gas_left)) == Some(
            (address, gas_left as nat),
        ),
{
    let p = account_code_payload(address, gas_left);
    lemma_be_bytes_len(gas_left as nat, 8);
    lemma_pow256_8();
    lemma_be_round_trip(gas_left as nat, 8);
    assert(p.subrange(0, 20) =~= address);
    assert(p.subrange(20, 28) =~= be_bytes(gas_left as nat, 8));
}

pub proof fn lemma_add_pages_round_trip(pages: u16)
    ensures
        parse_add_pages_payload(add_pages_payload(pages)) == Some(pages as nat),
{
    lemma_be_bytes_len(pages as nat, 2);
    lemma_pow256_8();
    lemma_be_round_trip(pages as nat, 2);
}

pub proof fn lemma_capture_hostio_round_trip(
    name: Seq<u8>,
    args: Seq<u8>,
    outs: Seq<u8>,
    start_ink: u64,
    end_ink: u64,
)
    requires
        name.len() < 0x10000,
        args.len() < 0x10000,
        outs.len() < 0x10000,
    ensures
        parse_capture_hostio_payload(
            capture_hostio_payload(name, args, outs, start_ink, end_ink),
        ) == Some((start_ink as nat, end_ink as nat, name, args, outs)),
{
    let p = capture_hostio_payload(name, args, outs, start_ink, end_ink);
    lemma_pow256_8();
    lemma_be_bytes_len(start_ink as nat, 8);
    lemma_be_bytes_len(end_ink as nat, 8);
    lemma_be_bytes_len(name.len() % 0x10000, 2);
    lemma_be_bytes_len(args.len() % 0x10000, 2);
    lemma_be_bytes_len(outs.len() % 0x10000, 2);
    lemma_be_round_trip(start_ink as nat, 8);
    lemma_be_round_trip(end_ink as nat, 8);
    lemma_be_round_trip(name.len() % 0x10000, 2);
    lemma_be_round_trip(args.len() % 0x10000, 2);
    lemma_be_round_trip(outs.len() % 0x10000, 2);
    assert(p.subrange(0, 8) =~= be_bytes(start_ink as nat, 8));
    assert(p.subrange(8, 16) =~= be_bytes(end_ink as nat, 8));
    assert(p.subrange(16, 18) =~= be_bytes(name.len() % 0x10000, 2));
    assert(p.subrange(18, 20) =~= be_bytes(args.len() % 0x10000, 2));
    assert(p.subrange(20, 22) =~= be_bytes(outs.len() % 0x10000, 2));
    assert(name.len() % 0x10000 == name.len());
    assert(args.len() % 0x10000 == args.len());
    assert(outs.len() % 0x10000 == outs.len());
    let a: int = 22 + name.len() as int;
    let b: int = a + args.len() as int;
    let c: int = b + outs.len() as int;
    assert(p.subrange(22, a) =~= name);
    assert(p.subrange(a, b) =~= args);
    assert(p.subrange(b, c) =~= outs);
}

} // verus!
