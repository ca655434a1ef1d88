//! Fixed-width byte values: the 20-byte account address and the 32-byte
//! storage word. Both are immutable, value-typed, compared byte for byte,
//! and serialized as their raw bytes (no length prefix, since the length
//! is fixed).

use vstd::prelude::*;

verus! {

broadcast use vstd::array::group_array_axioms;

/// A 20-byte account address.
#[derive(Clone, Copy, PartialEq, Eq, Debug)]
pub struct Bytes20(pub [u8; 20]);

/// A 32-byte word: storage keys and values, balances, code hashes.
#[derive(Clone, Copy, PartialEq, Eq, Debug)]
pub struct Bytes32(pub [u8; 32]);

impl View for Bytes20 {
    type V = Seq<u8>;

    open spec fn view(&self) -> Seq<u8> {
        self.0@
    }
}

impl View for Bytes32 {
    type V = Seq<u8>;

    open spec fn view(&self) -> Seq<u8> {
        self.0@
    }
}

/// The all-zero 32-byte word, used as the value field of call variants
/// that carry no endowment.
pub open spec fn zero_word() -> Seq<u8> {
    Seq::new(32, |i: int| 0u8)
}

impl Bytes20 {
    /// Reads 20 bytes out of `v` starting at `start`; `None` when fewer
    /// than 20 bytes are available there.
    pub fn read_from(v: &Vec<u8>, start: usize) -> (r: Option<Bytes20>)
        ensures
            (r is Some) == (start + 20 <= v@.len()),
            r matches Some(b) ==> b@ == v@.subrange(start as int, start + 20),
    {
        let n: usize = v.len();
        if start <= n && n - start >= 20 {
            let mut out: [u8; 20] = [0u8; 20];
            let mut i: usize = 0;
            while i < 20
                invariant
                    start + 20 <= n == v@.len(),
                    i <= 20,
                    out@.len() == 20,
                    forall|j: int| 0 <= j < i ==> out@[j] == v@[start + j],
                decreases 20 - i,
            {
                out[i] = v[start + i];
                i += 1;
            }
            proof {
                assert(out@ =~= v@.subrange(start as int, start + 20));
            }
            Some(Bytes20(out))
        } else {
            None
        }
    }

    /// Byte-wise equality.
    pub fn same(&self, other: &Bytes20) -> (r: bool)
        ensures
            r == (self@ == other@),
    {
        let mut i: usize = 0;
        while i < 20
            invariant
                i <= 20,
                forall|j: int| 0 <= j < i ==> self@[j] == other@[j],
            decreases 20 - i,
        {
            if self.0[i] != other.0[i] {
                return false;
            }
            i += 1;
        }
        proof {
            assert(self@ =~= other@);
        }
        true
    }
}

impl Bytes32 {
    /// The all-zero word.
    pub fn zero() -> (r: Bytes32)
        ensures
            r@ == zero_word(),
    {
        let out = Bytes32([0u8; 32]);
        proof {
            assert(out@ =~= zero_word());
        }
        out
    }

    /// Reads 32 bytes out of `v` starting at `start`; `None` when fewer
    /// than 32 bytes are available there.
    pub fn read_from(v: &Vec<u8>, start: usize) -> (r: Option<Bytes32>)
        ensures
            (r is Some) == (start + 32 <= v@.len()),
            r matches Some(b) ==> b@ == v@.subrange(start as int, start + 32),
    {
        let n: usize = v.len();
        if start <= n && n - start >= 32 {
            let mut out: [u8; 32] = [0u8; 32];
            let mut i: usize = 0;
            while i < 32
                invariant
                    start + 32 <= n == v@.len(),
                    i <= 32,
                    out@.len() == 32,
                    forall|j: int| 0 <= j < i ==> out@[j] == v@[start + j],
                decreases 32 - i,
            {
                out[i] = v[start + i];
                i += 1;
            }
            proof {
                assert(out@ =~= v@.subrange(start as int, start + 32));
            }
            Some(Bytes32(out))
        } else {
            None
        }
    }

    /// Decodes a host response that must be exactly one 32-byte word.
    pub fn from_exact(v: &Vec<u8>) -> (r: Option<Bytes32>)
        ensures
            (r is Some) == (v@.len() == 32),
            r matches Some(b) ==> b@ == v@,
    {
        if v.len() == 32 {
            let r = Self::read_from(v, 0);
            proof {
                assert(v@.subrange(0, 32) =~= v@);
            }
            r
        } else {
            None
        }
    }

    /// Byte-wise equality.
    pub fn same(&self, other: &Bytes32) -> (r: bool)
        ensures
            r == (self@ == other@),
    {
        let mut i: usize = 0;
        while i < 32
            invariant
                i <= 32,
                forall|j: int| 0 <= j < i ==> self@[j] == other@[j],
            decreases 32 - i,
        {
            if self.0[i] != other.0[i] {
                return false;
            }
            i += 1;
        }
        proof {
            assert(self@ =~= other@);
        }
        true
    }
}

/// A copy of `v`.
pub fn clone_bytes(v: &Vec<u8>) -> (r: Vec<u8>)
    ensures
        r@ == v@,
{
    let mut r: Vec<u8> = Vec::new();
    append_bytes(&mut r, v.as_slice());
    r
}

/// A copy of `v[start ..]`.
pub fn suffix_of(v: &Vec<u8>, start: usize) -> (r: Vec<u8>)
    requires
        start <= v@.len(),
    ensures
        r@ == v@.skip(start as int),
{
    let n: usize = v.len();
    let mut r: Vec<u8> = Vec::new();
    let mut i: usize = start;
    while i < n
        invariant
            start <= i <= n == v@.len(),
            r@ == v@.subrange(start as int, i as int),
        decreases n - i,
    {
        r.push(v[i]);
        proof {
            assert(v@.subrange(start as int, i as int).push(v@[i as int]) =~= v@.subrange(
                start as int,
                i + 1,
            ));
        }
        i += 1;
    }
    proof {
        assert(v@.subrange(start as int, n as int) =~= v@.skip(start as int));
    }
    r
}

/// Appends every byte of `src` to `dst`.
pub fn append_bytes(dst: &mut Vec<u8>, src: &[u8])
    ensures
        final(dst)@ == old(dst)@ + src@,
{
    let mut i: usize = 0;
    while i < src.len()
        invariant
            i <= src@.len(),
            dst@ == old(dst)@ + src@.subrange(0, i as int),
        decreases src@.len() - i,
    {
        dst.push(src[i]);
        proof {
            assert(old(dst)@ + src@.subrange(0, i as int) + seq![src@[i as int]] =~= old(dst)@
                + src@.subrange(0, i + 1));
        }
        i += 1;
    }
    proof {
        assert(old(dst)@ + src@.subrange(0, src@.len() as int) =~= old(dst)@ + src@);
    }
}

} // verus!
