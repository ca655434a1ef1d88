//! The returned-data handle: a shared, read-only view over the bytes of a
//! host response. Cloning shares the backing storage, so the orchestrator's
//! side caches and a caller can hold the same buffer without copying.

use std::sync::Arc;
use vstd::prelude::*;

verus! {

/// A shared, immutable byte buffer produced by the request primitive.
pub struct RetData {
    buf: Arc<Vec<u8>>,
}

impl View for RetData {
    type V = Seq<u8>;

    closed spec fn view(&self) -> Seq<u8> {
        self.buf@
    }
}

/// Relies on Arc::clone: the clone is a new handle to the same allocation,
/// so it carries the same bytes.
#[verifier::external_body]
fn arc_clone_bytes(a: &Arc<Vec<u8>>) -> (r: Arc<Vec<u8>>)
    ensures
        r@ == a@,
{
    Arc::clone(a)
}

/// Relies on Arc's Deref impl: borrowing through the handle reaches the
/// owned vector itself.
#[verifier::external_body]
fn arc_borrow_bytes<'a>(a: &'a Arc<Vec<u8>>) -> (r: &'a Vec<u8>)
    ensures
        r@ == a@,
{
    &**a
}

impl RetData {
    /// Wraps response bytes in a shared handle.
    pub fn new(bytes: Vec<u8>) -> (r: RetData)
        ensures
            r@ == bytes@,
    {
        RetData { buf: Arc::new(bytes) }
    }

    /// The number of bytes in the buffer.
    pub fn len(&self) -> (n: usize)
        ensures
            n == self@.len(),
    {
        arc_borrow_bytes(&self.buf).len()
    }

    /// A read-only view of the bytes.
    pub fn bytes(&self) -> (r: &Vec<u8>)
        ensures
            r@ == self@,
    {
        arc_borrow_bytes(&self.buf)
    }
}

impl Clone for RetData {
    /// A clone shares the backing bytes instead of copying them.
    fn clone(&self) -> (r: Self)
        ensures
            r@ == self@,
    {
        RetData { buf: arc_clone_bytes(&self.buf) }
    }
}

} // verus!
