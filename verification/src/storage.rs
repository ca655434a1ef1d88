//! The write-back storage slot cache: a mapping from 32-byte key to a slot
//! record holding the last value confirmed synced with the host (`known`)
//! and the current value. A record is dirty exactly when `known` is absent
//! or differs from `value`.

use vstd::prelude::*;

use crate::bytes::Bytes32;
use crate::wire::be_bytes;
use crate::wire::be_val;
use crate::wire::lemma_be_round_trip;
use crate::wire::lemma_pow256_8;

verus! {

broadcast use vstd::array::group_array_axioms;

/// Gas charged for a storage read served from the cache (also the base
/// charge of a miss). A deployment parameter.
pub const STORAGE_READ_GAS: u64 = 100;

/// Gas charged for a storage write into the cache. A deployment parameter.
pub const STORAGE_WRITE_GAS: u64 = 200;

/// The mathematical model of one slot record.
pub ghost struct Slot {
    pub known: Option<Seq<u8>>,
    pub value: Seq<u8>,
}

/// A record is dirty iff its value was never confirmed synced, or differs
/// from the last confirmed one.
pub open spec fn slot_dirty(s: Slot) -> bool {
    s.known != Some(s.value)
}

/// One slot record: the last value confirmed synced with the host (absent
/// when the slot was written but never synced since creation), and the
/// current value.
#[derive(Clone, Copy)]
pub struct StorageWord {
    pub known: Option<Bytes32>,
    pub value: Bytes32,
}

impl View for StorageWord {
    type V = Slot;

    open spec fn view(&self) -> Slot {
        Slot {
            known: match self.known {
                Some(b) => Some(b@),
                None => None,
            },
            value: self.value@,
        }
    }
}

impl StorageWord {
    /// Whether this record is dirty.
    pub fn dirty(&self) -> (r: bool)
        ensures
            r == slot_dirty(self@),
    {
        match &self.known {
            Some(k) => !k.same(&self.value),
            None => true,
        }
    }
}

/// Well-formedness of one cache entry: fixed-width key and values.
pub open spec fn entry_wf(e: (Seq<u8>, Slot)) -> bool {
    &&& e.0.len() == 32
    &&& e.1.value.len() == 32
    &&& (e.1.known matches Some(k) ==> k.len() == 32)
}

/// Well-formedness of the whole cache model: unique keys, fixed widths.
pub open spec fn entries_wf(entries: Seq<(Seq<u8>, Slot)>) -> bool {
    &&& (forall|i: int, j: int|
        0 <= i < j < entries.len() ==> (#[trigger] entries[i]).0 != (#[trigger] entries[j]).0)
    &&& (forall|i: int| 0 <= i < entries.len() ==> entry_wf(#[trigger] entries[i]))
}

/// The record stored under `key`, scanning in cache order.
pub open spec fn lookup(entries: Seq<(Seq<u8>, Slot)>, key: Seq<u8>) -> Option<Slot>
    decreases entries.len(),
{
    if entries.len() == 0 {
        None
    } else if entries.first().0 == key {
        Some(entries.first().1)
    } else {
        lookup(entries.drop_first(), key)
    }
}

pub proof fn lemma_lookup_hit(entries: Seq<(Seq<u8>, Slot)>, key: Seq<u8>, i: int)
    requires
        0 <= i < entries.len(),
        entries[i].0 == key,
        forall|j: int| 0 <= j < i ==> (#[trigger] entries[j]).0 != key,
    ensures
        lookup(entries, key) == Some(entries[i].1),
    decreases i,
{
    if i == 0 {
        assert(entries.first() == entries[0]);
    } else {
        let rest = entries.drop_first();
        assert(forall|j: int| 0 <= j < i - 1 ==> (#[trigger] rest[j]).0 != key);
        lemma_lookup_hit(rest, key, i - 1);
    }
}

pub proof fn lemma_lookup_none(entries: Seq<(Seq<u8>, Slot)>, key: Seq<u8>)
    requires
        forall|j: int| 0 <= j < entries.len() ==> (#[trigger] entries[j]).0 != key,
    ensures
        lookup(entries, key) is None,
    decreases entries.len(),
{
    if entries.len() > 0 {
        let rest = entries.drop_first();
        assert(forall|j: int| 0 <= j < rest.len() ==> (#[trigger] rest[j]).0 != key);
        lemma_lookup_none(rest, key);
    }
}

// ---------------------------------------------------------------------------
// The flush payload: the gas left, then one (key, value) pair for every
// dirty record, in cache order.
// ---------------------------------------------------------------------------

/// The (key, value) pairs of the dirty records, in cache order.
pub open spec fn dirty_pairs(entries: Seq<(Seq<u8>, Slot)>) -> Seq<(Seq<u8>, Seq<u8>)>
    decreases entries.len(),
{
    if entries.len() == 0 {
        Seq::empty()
    } else {
        let rest = dirty_pairs(entries.drop_first());
        if slot_dirty(entries.first().1) {
            seq![(entries.first().0, entries.first().1.value)] + rest
        } else {
            rest
        }
    }
}

/// Key-value pairs laid out back to back.
pub open spec fn pairs_bytes(pairs: Seq<(Seq<u8>, Seq<u8>)>) -> Seq<u8>
    decreases pairs.len(),
{
    if pairs.len() == 0 {
        Seq::empty()
    } else {
        pairs.first().0 + pairs.first().1 + pairs_bytes(pairs.drop_first())
    }
}

/// The flush request: 8 bytes of gas left, then the dirty pairs.
pub open spec fn flush_payload(entries: Seq<(Seq<u8>, Slot)>, gas_left: u64) -> Seq<u8> {
    be_bytes(gas_left as nat, 8) + pairs_bytes(dirty_pairs(entries))
}

/// Every record confirmed synced at its current value.
pub open spec fn cleaned(entries: Seq<(Seq<u8>, Slot)>) -> Seq<(Seq<u8>, Slot)> {
    entries.map_values(
        |e: (Seq<u8>, Slot)| (e.0, Slot { known: Some(e.1.value), value: e.1.value }),
    )
}

pub proof fn lemma_dirty_pairs_push(entries: Seq<(Seq<u8>, Slot)>, e: (Seq<u8>, Slot))
    ensures
        dirty_pairs(entries.push(e)) == dirty_pairs(entries) + (if slot_dirty(e.1) {
            seq![(e.0, e.1.value)]
        } else {
            Seq::<(Seq<u8>, Seq<u8>)>::empty()
        }),
    decreases entries.len(),
{
    let whole = entries.push(e);
    let added: Seq<(Seq<u8>, Seq<u8>)> = if slot_dirty(e.1) {
        seq![(e.0, e.1.value)]
    } else {
        Seq::empty()
    };
    if entries.len() == 0 {
        assert(whole.first() == e);
        assert(whole.drop_first() =~~= Seq::<(Seq<u8>, Slot)>::empty());
        assert(dirty_pairs(whole.drop_first()) =~~= Seq::<(Seq<u8>, Seq<u8>)>::empty());
        assert(dirty_pairs(entries) =~~= Seq::<(Seq<u8>, Seq<u8>)>::empty());
        assert(dirty_pairs(whole) =~~= dirty_pairs(entries) + added);
    } else {
        assert(whole.first() == entries.first());
        assert(whole.drop_first() =~~= entries.drop_first().push(e));
        lemma_dirty_pairs_push(entries.drop_first(), e);
        assert(dirty_pairs(whole) =~~= dirty_pairs(entries) + added);
    }
}

pub proof fn lemma_pairs_bytes_concat(a: Seq<(Seq<u8>, Seq<u8>)>, b: Seq<(Seq<u8>, Seq<u8>)>)
    ensures
        pairs_bytes(a + b) == pairs_bytes(a) + pairs_bytes(b),
    decreases a.len(),
{
    if a.len() == 0 {
        assert(a + b =~= b);
        assert(pairs_bytes(a) + pairs_bytes(b) =~= pairs_bytes(b));
    } else {
        assert((a + b).drop_first() =~= a.drop_first() + b);
        lemma_pairs_bytes_concat(a.drop_first(), b);
        assert(pairs_bytes(a + b) =~= pairs_bytes(a) + pairs_bytes(b));
    }
}

/// A cache with nothing dirty flushes as the bare 8-byte gas prefix.
pub proof fn lemma_clean_flush_payload(entries: Seq<(Seq<u8>, Slot)>, gas_left: u64)
    requires
        forall|i: int| 0 <= i < entries.len() ==> !slot_dirty((#[trigger] entries[i]).1),
    ensures
        flush_payload(entries, gas_left) == be_bytes(gas_left as nat, 8),
    decreases entries.len(),
{
    if entries.len() == 0 {
        assert(flush_payload(entries, gas_left) =~= be_bytes(gas_left as nat, 8));
    } else {
        let rest = entries.drop_first();
        assert(forall|i: int| 0 <= i < rest.len() ==> !slot_dirty((#[trigger] rest[i]).1));
        lemma_clean_flush_payload(rest, gas_left);
        assert(flush_payload(entries, gas_left) =~= be_bytes(gas_left as nat, 8));
    }
}

// ---------------------------------------------------------------------------
// Host-side parse of the flush payload.
// ---------------------------------------------------------------------------

pub open spec fn parse_pairs(p: Seq<u8>) -> Option<Seq<(Seq<u8>, Seq<u8>)>>
    decreases p.len(),
{
    if p.len() == 0 {
        Some(Seq::empty())
    } else if p.len() >= 64 {
        match parse_pairs(p.skip(64)) {
            Some(rest) => Some(seq![(p.subrange(0, 32), p.subrange(32, 64))] + rest),
            None => None,
        }
    } else {
        None
    }
}

pub open spec fn parse_flush_payload(p: Seq<u8>) -> Option<(nat, Seq<(Seq<u8>, Seq<u8>)>)> {
    if p.len() >= 8 {
        match parse_pairs(p.skip(8)) {
            Some(pairs) => Some((be_val(p.subrange(0, 8)), pairs)),
            None => None,
        }
    } else {
        None
    }
}

pub open spec fn pairs_wf(pairs: Seq<(Seq<u8>, Seq<u8>)>) -> bool {
    forall|i: int|
        0 <= i < pairs.len() ==> (#[trigger] pairs[i]).0.len() == 32 && pairs[i].1.len() == 32
}

pub proof fn lemma_parse_pairs_round_trip(pairs: Seq<(Seq<u8>, Seq<u8>)>)
    requires
        pairs_wf(pairs),
    ensures
        parse_pairs(pairs_bytes(pairs)) == Some(pairs),
    decreases pairs.len(),
{
    let p = pairs_bytes(pairs);
    if pairs.len() == 0 {
    } else {
        let rest = pairs.drop_first();
        assert(pairs_wf(rest));
        lemma_parse_pairs_round_trip(rest);
        assert(p.subrange(0, 32) =~= pairs.first().0);
        assert(p.subrange(32, 64) =~= pairs.first().1);
        assert(p.skip(64) =~= pairs_bytes(rest));
        assert(seq![(p.subrange(0, 32), p.subrange(32, 64))] + rest =~= pairs);
    }
}

/// The dirty pairs of a well-formed cache are well-formed.
pub proof fn lemma_dirty_pairs_wf(entries: Seq<(Seq<u8>, Slot)>)
    requires
        forall|i: int| 0 <= i < entries.len() ==> entry_wf(#[trigger] entries[i]),
    ensures
        pairs_wf(dirty_pairs(entries)),
    decreases entries.len(),
{
    if entries.len() > 0 {
        let rest = entries.drop_first();
        assert(forall|i: int| 0 <= i < rest.len() ==> entry_wf(#[trigger] rest[i]));
        lemma_dirty_pairs_wf(rest);
        assert(entry_wf(entries[0]));
    }
}

/// Round trip of the flush request: the host recovers the gas figure and
/// exactly the dirty pairs, in cache order.
pub proof fn lemma_flush_round_trip(entries: Seq<(Seq<u8>, Slot)>, gas_left: u64)
    requires
        entries_wf(entries),
    ensures
        parse_flush_payload(flush_payload(entries, gas_left)) == Some(
            (gas_left as nat, dirty_pairs(entries)),
        ),
{
    let p = flush_payload(entries, gas_left);
    crate::wire::lemma_be_bytes_len(gas_left as nat, 8);
    lemma_pow256_8();
    lemma_be_round_trip(gas_left as nat, 8);
    assert(p.subrange(0, 8) =~= be_bytes(gas_left as nat, 8));
    assert(p.skip(8) =~= pairs_bytes(dirty_pairs(entries)));
    lemma_dirty_pairs_wf(entries);
    lemma_parse_pairs_round_trip(dirty_pairs(entries));
}

// ---------------------------------------------------------------------------
// The executable cache.
// ---------------------------------------------------------------------------

/// The storage slot cache. Entries are kept in insertion order; the order
/// carries no meaning for lookups but fixes the layout of a flush.
pub struct StorageCache {
    slots: Vec<(Bytes32, StorageWord)>,
}

impl View for StorageCache {
    type V = Seq<(Seq<u8>, Slot)>;

    closed spec fn view(&self) -> Seq<(Seq<u8>, Slot)> {
        self.slots@.map_values(|e: (Bytes32, StorageWord)| (e.0@, e.1@))
    }
}

impl StorageCache {
    pub open spec fn wf(&self) -> bool {
        entries_wf(self@)
    }

    /// The empty cache.
    pub fn new() -> (r: StorageCache)
        ensures
            r@ == Seq::<(Seq<u8>, Slot)>::empty(),
            r.wf(),
    {
        let r = StorageCache { slots: Vec::new() };
        proof {
            assert(r@ =~= Seq::<(Seq<u8>, Slot)>::empty());
        }
        r
    }

    pub fn len(&self) -> (n: usize)
        ensures
            n == self@.len(),
    {
        self.slots.len()
    }

    /// The index of `key`'s entry, if the key is cached.
    fn find(&self, key: &Bytes32) -> (r: Option<usize>)
        ensures
            r matches Some(i) ==> i < self@.len() && self@[i as int].0 == key@ && lookup(
                self@,
                key@,
            ) == Some(self@[i as int].1),
            r is None ==> lookup(self@, key@) is None && (forall|j: int|
                0 <= j < self@.len() ==> (#[trigger] self@[j]).0 != key@),
    {
        let n = self.slots.len();
        let mut i: usize = 0;
        while i < n
            invariant
                n == self@.len(),
                i <= n,
                forall|j: int| 0 <= j < i ==> (#[trigger] self@[j]).0 != key@,
            decreases n - i,
        {
            if self.slots[i].0.same(key) {
                proof {
                    lemma_lookup_hit(self@, key@, i as int);
                }
                return Some(i);
            }
            i += 1;
        }
        proof {
            lemma_lookup_none(self@, key@);
        }
        None
    }

    /// The cached value under `key`, if any.
    pub fn get_cached(&self, key: &Bytes32) -> (r: Option<Bytes32>)
        ensures
            r matches Some(v) ==> lookup(self@, key@) matches Some(s) && s.value == v@,
            r is None ==> lookup(self@, key@) is None,
    {
        match self.find(key) {
            Some(i) => Some(self.slots[i].1.value),
            None => None,
        }
    }

    /// Records a freshly fetched value as both confirmed and current.
    /// The caller has just missed, so the key is absent.
    pub fn insert_known(&mut self, key: Bytes32, value: Bytes32)
        requires
            lookup(old(self)@, key@) is None,
            old(self).wf(),
        ensures
            final(self)@ == old(self)@.push(
                (key@, Slot { known: Some(value@), value: value@ }),
            ),
            final(self).wf(),
            lookup(final(self)@, key@) == Some(Slot { known: Some(value@), value: value@ }),
    {
        proof {
            if exists|j: int| 0 <= j < self@.len() && (#[trigger] self@[j]).0 == key@ {
                let j = choose|j: int| 0 <= j < self@.len() && (#[trigger] self@[j]).0 == key@;
                lemma_lookup_hit(self@, key@, j);
            }
        }
        let w = StorageWord { known: Some(value), value };
        self.slots.push((key, w));
        proof {
            assert(self@ =~= old(self)@.push((key@, Slot { known: Some(value@), value: value@ })));
            assert(forall|j: int|
                0 <= j < old(self)@.len() ==> (#[trigger] self@[j]).0 == old(self)@[j].0);
            lemma_lookup_hit(self@, key@, self@.len() - 1);
        }
    }

    /// Sets `value` on the matching record, creating one with no confirmed
    /// value when the key is absent. Dirty tracking is implicit: the record
    /// is dirty afterwards unless its confirmed value already equals the
    /// written one.
    pub fn set_word(&mut self, key: Bytes32, value: Bytes32)
        requires
            old(self).wf(),
        ensures
            final(self).wf(),
            lookup(old(self)@, key@) is None ==> final(self)@ == old(self)@.push(
                (key@, Slot { known: None, value: value@ }),
            ),
            lookup(old(self)@, key@) matches Some(s) ==> exists|i: int|
                0 <= i < old(self)@.len() && (#[trigger] old(self)@[i]).0 == key@ && old(
                    self,
                )@[i].1 == s && final(self)@ == old(self)@.update(
                    i,
                    (key@, Slot { known: s.known, value: value@ }),
                ),
            lookup(final(self)@, key@) == Some(
                Slot {
                    known: match lookup(old(self)@, key@) {
                        Some(s) => s.known,
                        None => None,
                    },
                    value: value@,
                },
            ),
    {
        match self.find(&key) {
            Some(i) => {
                let w = self.slots[i].1;
                self.slots.set(i, (key, StorageWord { known: w.known, value }));
                proof {
                    assert(self@ =~~= old(self)@.update(
                        i as int,
                        (key@, Slot { known: w@.known, value: value@ }),
                    ));
                    assert(entry_wf(old(self)@[i as int]));
                    assert(entry_wf(self@[i as int]));
                    assert(forall|j: int|
                        0 <= j < self@.len() && j != i ==> (#[trigger] self@[j]).0 == old(
                            self,
                        )@[j].0);
                    lemma_lookup_hit(self@, key@, i as int);
                }
            },
            None => {
                let w = StorageWord { known: None, value };
                self.slots.push((key, w));
                proof {
                    assert(self@ =~~= old(self)@.push((key@, Slot { known: None, value: value@ })));
                    assert(entry_wf(self@[self@.len() - 1]));
                    assert(forall|j: int|
                        0 <= j < old(self)@.len() ==> (#[trigger] self@[j]).0 == old(self)@[j].0);
                    lemma_lookup_hit(self@, key@, self@.len() - 1);
                }
            },
        }
    }

    /// Builds the flush request from the current records, marking every
    /// dirty record confirmed as it goes — before any host involvement —
    /// and emptying the cache afterwards when `clear` is set.
    pub fn drain_dirty(&mut self, clear: bool, gas_left: u64) -> (payload: Vec<u8>)
        requires
            old(self).wf(),
        ensures
            payload@ == flush_payload(old(self)@, gas_left),
            final(self)@ == if clear {
                Seq::<(Seq<u8>, Slot)>::empty()
            } else {
                cleaned(old(self)@)
            },
            final(self).wf(),
    {
        let ghost orig = self@;
        let mut payload = crate::wire::be_bytes_exec(gas_left, 8);
        let n = self.slots.len();
        let mut i: usize = 0;
        proof {
            assert(orig.subrange(0, 0) =~= Seq::<(Seq<u8>, Slot)>::empty());
        }
        while i < n
            invariant
                n == self@.len() == orig.len(),
                i <= n,
                payload@ == be_bytes(gas_left as nat, 8) + pairs_bytes(
                    dirty_pairs(orig.subrange(0, i as int)),
                ),
                forall|j: int| i <= j < n ==> self@[j] == orig[j],
                forall|j: int|
                    0 <= j < i ==> self@[j] == (
                        orig[j].0,
                        Slot { known: Some(orig[j].1.value), value: orig[j].1.value },
                    ),
                entries_wf(orig),
            decreases n - i,
        {
            let ghost pre = orig.subrange(0, i as int);
            let e = self.slots[i];
            proof {
                assert(self@[i as int] == (e.0@, e.1@));
                assert(pre.push(orig[i as int]) =~= orig.subrange(0, i + 1));
                lemma_dirty_pairs_push(pre, orig[i as int]);
                lemma_pairs_bytes_concat(
                    dirty_pairs(pre),
                    if slot_dirty(orig[i as int].1) {
                        seq![(orig[i as int].0, orig[i as int].1.value)]
                    } else {
                        Seq::<(Seq<u8>, Seq<u8>)>::empty()
                    },
                );
            }
            let ghost snap = self@;
            if e.1.dirty() {
                crate::bytes::append_bytes(&mut payload, e.0.0.as_slice());
                crate::bytes::append_bytes(&mut payload, e.1.value.0.as_slice());
                self.slots.set(i, (e.0, StorageWord { known: Some(e.1.value), value: e.1.value }));
                proof {
                    assert(self@ =~~= snap.update(
                        i as int,
                        (e.0@, Slot { known: Some(e.1.value@), value: e.1.value@ }),
                    ));
                    let single = seq![(orig[i as int].0, orig[i as int].1.value)];
                    assert(single.first() == (orig[i as int].0, orig[i as int].1.value));
                    assert(single.drop_first() =~~= Seq::<(Seq<u8>, Seq<u8>)>::empty());
                    assert(pairs_bytes(single.drop_first()) =~~= Seq::<u8>::empty());
                    assert(pairs_bytes(single) =~~= orig[i as int].0 + orig[i as int].1.value);
                    assert(payload@ =~~= be_bytes(gas_left as nat, 8) + pairs_bytes(
                        dirty_pairs(orig.subrange(0, i + 1)),
                    ));
                }
            } else {
                proof {
                    assert(e.1@.known == Some(e.1@.value));
                    assert(self@[i as int] == (
                        orig[i as int].0,
                        Slot { known: Some(orig[i as int].1.value), value: orig[i as int].1.value },
                    ));
                    assert(payload@ =~~= be_bytes(gas_left as nat, 8) + pairs_bytes(
                        dirty_pairs(orig.subrange(0, i + 1)),
                    ));
                }
            }
            i += 1;
        }
        proof {
            assert(orig.subrange(0, n as int) =~= orig);
        }
        if clear {
            self.slots.clear();
            proof {
                assert(self@ =~= Seq::<(Seq<u8>, Slot)>::empty());
            }
        } else {
            proof {
                assert(self@ =~= cleaned(orig));
            }
        }
        payload
    }
}

} // verus!
