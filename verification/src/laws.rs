//! The dirty-tracking laws of the slot cache, stated over the models that
//! the cache operations' contracts use.

use vstd::prelude::*;

use crate::storage::cleaned;
use crate::storage::lookup;
use crate::storage::slot_dirty;
use crate::storage::Slot;

verus! {

/// A write of `value` under `key` leaves the record that `cache_bytes32`
/// guarantees under `key` dirty, unless the cache's previously confirmed
/// value for `key` is exactly `value`. A write under a key never cached
/// is therefore always dirty.
pub proof fn law_write_dirty(entries: Seq<(Seq<u8>, Slot)>, key: Seq<u8>, value: Seq<u8>)
    ensures
        ({
            let written = Slot {
                known: match lookup(entries, key) {
                    Some(s) => s.known,
                    None => None,
                },
                value: value,
            };
            slot_dirty(written) <==> (match lookup(entries, key) {
                Some(s) => s.known != Some(value),
                None => true,
            })
        }),
{
}

/// A record created by a read miss stores the fetched word as both
/// confirmed and current, so it is clean.
pub proof fn law_fetch_clean(word: Seq<u8>)
    ensures
        !slot_dirty(Slot { known: Some(word), value: word }),
{
}

/// After a flush that does not clear, every record still cached is clean:
/// the records `flush_storage_cache` leaves behind are `cleaned` of the
/// records it found.
pub proof fn law_flush_clean(entries: Seq<(Seq<u8>, Slot)>)
    ensures
        forall|i: int|
            0 <= i < cleaned(entries).len() ==> !slot_dirty((#[trigger] cleaned(entries)[i]).1),
{
}

} // verus!
