//! Slot storage with stable handles.
//!
//! A `SlotArena` is a `slotmap::SlotMap` with its default key. A key is carried
//! as the 64-bit handle that the crate's `KeyData::as_ffi` gives: the slot's
//! index in the low 32 bits and its version, which is odd, in the high ones.

use crate::scheduler::Record;
use vstd::prelude::*;

verus! {

/// Slot storage for scheduler records.
#[verifier::external_body]
#[derive(Debug)]
pub struct SlotArena {
    inner: slotmap::SlotMap<slotmap::DefaultKey, Record>,
}

/// What the arena holds under each live handle.
pub uninterp spec fn contents(arena: &SlotArena) -> Map<u64, Record>;

/// Whether a number has the shape of a handle.
pub open spec fn is_handle(handle: u64) -> bool {
    (handle / 0x1_0000_0000) % 2 == 1
}

/// The slot that a handle names.
pub open spec fn slot_index(handle: u64) -> u64 {
    handle % 0x1_0000_0000
}

/// Whether `walk` lists exactly these handles, by increasing slot index.
pub open spec fn is_walk(handles: Set<u64>, walk: Seq<u64>) -> bool {
    &&& forall|k: u64| handles.contains(k) <==> walk.contains(k)
    &&& forall|i: int, j: int|
        0 <= i < j < walk.len() ==> slot_index(#[trigger] walk[i]) < slot_index(#[trigger] walk[j])
}

/// The handles in the order in which the arena hands them out.
pub open spec fn walk_of(handles: Set<u64>) -> Seq<u64> {
    choose|walk: Seq<u64>| is_walk(handles, walk)
}

impl SlotArena {
    /// Calls `slotmap::SlotMap::new`: an empty map.
    #[verifier::external_body]
    pub(crate) fn new() -> (arena: SlotArena)
        ensures
            contents(&arena).dom() == Set::<u64>::empty(),
    {
        SlotArena { inner: slotmap::SlotMap::new() }
    }

    /// Calls `slotmap::SlotMap::insert`: the item is kept under a handle that
    /// was not in use. The crate panics when it has no slot left, which is when
    /// it holds `2^32 - 2` items.
    #[verifier::external_body]
    pub(crate) fn insert(&mut self, record: Record) -> (handle: u64)
        requires
            contents(old(self)).len() < 0xFFFF_FFFE,
        ensures
            !contents(old(self)).contains_key(handle),
            contents(final(self)) == contents(old(self)).insert(handle, record),
            is_handle(handle),
    {
        slotmap::Key::data(&self.inner.insert(record)).as_ffi()
    }

    /// Calls `slotmap::SlotMap::get`: the item under the handle, if there is one.
    #[verifier::external_body]
    pub(crate) fn get(&self, handle: u64) -> (record: Option<&Record>)
        requires
            is_handle(handle),
        ensures
            record == if contents(self).contains_key(handle) {
                Some(&contents(self)[handle])
            } else {
                None
            },
    {
        self.inner.get(slotmap::KeyData::from_ffi(handle).into())
    }

    /// Calls `slotmap::SlotMap::get_mut`: the item under the handle, if there is
    /// one. What it is changed to, the map holds afterwards.
    #[verifier::external_body]
    pub(crate) fn get_mut(&mut self, handle: u64) -> (record: Option<&mut Record>)
        requires
            is_handle(handle),
        ensures
            match record {
                Some(r) => {
                    &&& contents(old(self)).contains_key(handle)
                    &&& *r == contents(old(self))[handle]
                    &&& contents(final(self)) == contents(old(self)).insert(handle, *final(r))
                },
                None => {
                    &&& !contents(old(self)).contains_key(handle)
                    &&& contents(final(self)) == contents(old(self))
                },
            },
    {
        self.inner.get_mut(slotmap::KeyData::from_ffi(handle).into())
    }

    /// Calls `slotmap::SlotMap::remove`: the item under the handle leaves the
    /// map, if there is one, and nothing else changes.
    #[verifier::external_body]
    pub(crate) fn remove(&mut self, handle: u64) -> (record: Option<Record>)
        requires
            is_handle(handle),
        ensures
            record == if contents(old(self)).contains_key(handle) {
                Some(contents(old(self))[handle])
            } else {
                None
            },
            contents(final(self)) == contents(old(self)).remove(handle),
    {
        self.inner.remove(slotmap::KeyData::from_ffi(handle).into())
    }

    /// Calls `slotmap::SlotMap::keys` and collects: each live handle once, by
    /// increasing slot index.
    #[verifier::external_body]
    pub(crate) fn handles(&self) -> (walk: Vec<u64>)
        ensures
            is_walk(contents(self).dom(), walk@),
            forall|i: int| 0 <= i < walk@.len() ==> is_handle(#[trigger] walk@[i]),
    {
        self.inner.keys().map(|key| slotmap::Key::data(&key).as_ffi()).collect()
    }
}

/// A set of handles has one walk at most.
proof fn lemma_walks_agree(handles: Set<u64>, a: Seq<u64>, b: Seq<u64>)
    requires
        is_walk(handles, a),
        is_walk(handles, b),
    ensures
        a == b,
    decreases a.len(),
{
    if a.len() == 0 {
        if b.len() > 0 {
            assert(b.contains(b[0]));
            assert(a.contains(b[0]));
        }
        assert(a =~= b);
    } else {
        assert(a.contains(a[0]));
        let i = choose|i: int| 0 <= i < b.len() && b[i] == a[0];
        assert(b.contains(b[0]));
        let j = choose|j: int| 0 <= j < a.len() && a[j] == b[0];
        if i > 0 {
            assert(slot_index(b[0]) < slot_index(b[i]));
            if j > 0 {
                assert(slot_index(a[0]) < slot_index(a[j]));
            }
            assert(false);
        }
        let rest = handles.remove(a[0]);
        lemma_tail_walks(handles, a);
        lemma_tail_walks(handles, b);
        lemma_walks_agree(rest, a.drop_first(), b.drop_first());
        assert(a =~= seq![a[0]] + a.drop_first());
        assert(b =~= seq![b[0]] + b.drop_first());
    }
}

proof fn lemma_tail_walks(handles: Set<u64>, a: Seq<u64>)
    requires
        is_walk(handles, a),
        a.len() > 0,
    ensures
        is_walk(handles.remove(a[0]), a.drop_first()),
{
    let tail = a.drop_first();
    assert forall|k: u64| handles.remove(a[0]).contains(k) <==> tail.contains(k) by {
        if handles.remove(a[0]).contains(k) {
            let i = choose|i: int| 0 <= i < a.len() && a[i] == k;
            assert(tail[i - 1] == k);
        }
        if tail.contains(k) {
            let i = choose|i: int| 0 <= i < tail.len() && tail[i] == k;
            assert(a[i + 1] == k);
            assert(a.contains(k));
            assert(slot_index(a[0]) < slot_index(a[i + 1]));
        }
    }
    assert forall|i: int, j: int| 0 <= i < j < tail.len() implies slot_index(#[trigger] tail[i])
        < slot_index(#[trigger] tail[j]) by {
        assert(slot_index(a[i + 1]) < slot_index(a[j + 1]));
    }
}

/// Any walk of a set of handles is the walk of that set, and it is as long as
/// the set is large.
pub proof fn lemma_walk(handles: Set<u64>, walk: Seq<u64>)
    requires
        is_walk(handles, walk),
    ensures
        walk == walk_of(handles),
        walk.no_duplicates(),
        handles.finite(),
        handles.len() == walk.len(),
{
    lemma_walks_agree(handles, walk, walk_of(handles));
    assert forall|i: int, j: int| 0 <= i < walk.len() && 0 <= j < walk.len() && i != j implies walk[i]
        != walk[j] by {
        if i < j {
            assert(slot_index(walk[i]) < slot_index(walk[j]));
        } else {
            assert(slot_index(walk[j]) < slot_index(walk[i]));
        }
    }
    assert(walk.to_set() =~= handles);
    walk.unique_seq_to_set();
    vstd::seq_lib::seq_to_set_is_finite(walk);
}

} // verus!
