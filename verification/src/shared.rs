use vstd::prelude::*;
use vstd::pervasive::unreached;

use crate::store::MAX_REFCOUNT;
use crate::store::Store;
use crate::store::StoreView;
use crate::store::ThreadRef;
use crate::store::lemma_attach_wf;
use crate::store::lemma_share_wf;
use crate::store::strong_release;
use crate::store::sum_value;
use crate::strong::Trc;

verus! {

/// The transfer handle: the one legal vehicle for moving ownership across a
/// thread boundary.  It holds no thread-local counter at all, only the slot
/// of the control block, and it owns one unit of the atomic count.
pub struct SharedTrc {
    pub data: usize,
}

impl SharedTrc {
    /// The handle points at a live block whose value is present, and the
    /// atomic count covers every thread family on the block plus this
    /// handle's own unit.
    pub open spec fn valid<T>(self, s: StoreView<T>) -> bool {
        &&& s.block_live(self.data as int)
        &&& s.data_of(self.data as int) is Some
        &&& s.atomic_of(self.data as int) >= s.families_on(self.data as int) + 1
    }

    /// Construct a transfer handle from an owning pointer: one atomic
    /// increment, nothing else.  The owning pointer stays untouched.
    pub fn from_trc<T>(trc: &Trc, store: &mut Store<T>) -> (r: SharedTrc)
        requires
            old(store)@.wf(),
            trc.valid(old(store)@),
            old(store)@.atomic_of(trc.shared as int) < MAX_REFCOUNT,
        ensures
            final(store)@ == old(store)@.share_step(trc.shared as int),
            final(store)@.wf(),
            r.data == trc.shared,
            final(store)@.locals == old(store)@.locals,
            final(store)@.atomic_of(trc.shared as int)
                == old(store)@.atomic_of(trc.shared as int) + 1,
            r.valid(final(store)@),
            trc.valid(final(store)@),
    {
        proof {
            lemma_share_wf(old(store)@, trc.shared as int);
        }
        match &mut store.blocks[trc.shared] {
            Some(cb) => {
                sum_value(&mut cb.atomicref, 1);
            },
            None => unreached(),
        }
        assert(store@ =~= old(store)@.share_step(trc.shared as int));
        SharedTrc { data: trc.shared }
    }

    /// Convert a transfer handle back into an owning pointer on the
    /// receiving thread: a fresh thread-local counter at 1 is bound to the
    /// block, and the handle's unit of the atomic count becomes the new
    /// family's unit, so no count moves.
    pub fn to_trc<T>(this: SharedTrc, store: &mut Store<T>) -> (r: Trc)
        requires
            old(store)@.wf(),
            this.valid(old(store)@),
        ensures
            final(store)@ == old(store)@.attach_local_step(this.data as int),
            final(store)@.wf(),
            r.shared == this.data,
            r.threadref == old(store)@.locals.len(),
            final(store)@.blocks == old(store)@.blocks,
            r.valid(final(store)@),
    {
        proof {
            assert(old(store)@.block_live(this.data as int));
            lemma_attach_wf(old(store)@, this.data as int);
        }
        let l = store.locals.len();
        store.locals.push(Some(ThreadRef { block: this.data, count: 1 }));
        assert(store@ =~= old(store)@.attach_local_step(this.data as int));
        Trc { shared: this.data, threadref: l }
    }

    /// Clone a transfer handle: one atomic increment.
    pub fn clone_in<T>(&self, store: &mut Store<T>) -> (r: SharedTrc)
        requires
            old(store)@.wf(),
            self.valid(old(store)@),
            old(store)@.atomic_of(self.data as int) < MAX_REFCOUNT,
        ensures
            final(store)@ == old(store)@.share_step(self.data as int),
            final(store)@.wf(),
            r.data == self.data,
            final(store)@.locals == old(store)@.locals,
            final(store)@.atomic_of(self.data as int)
                == old(store)@.atomic_of(self.data as int) + 1,
            r.valid(final(store)@),
            self.valid(final(store)@),
    {
        proof {
            lemma_share_wf(old(store)@, self.data as int);
        }
        match &mut store.blocks[self.data] {
            Some(cb) => {
                sum_value(&mut cb.atomicref, 1);
            },
            None => unreached(),
        }
        assert(store@ =~= old(store)@.share_step(self.data as int));
        SharedTrc { data: self.data }
    }

    /// Drop a transfer handle: one atomic decrement.  The unit that brings
    /// the count to zero destroys the value and releases the implicit weak
    /// unit, which may free the block.
    pub fn drop_in<T>(self, store: &mut Store<T>)
        requires
            old(store)@.wf(),
            self.valid(old(store)@),
        ensures
            final(store)@ == old(store)@.strong_dec_step(self.data as int),
            final(store)@.wf(),
    {
        strong_release(store, self.data);
    }

    /// The atomic count of the block: how many thread families and transfer
    /// handles hold the value.  Informational only: a concurrent
    /// implementation reads it relaxed, so nothing may be synchronized on
    /// it.
    pub fn atomic_count<T>(this: &SharedTrc, store: &Store<T>) -> (r: u64)
        requires
            store@.wf(),
            store@.block_live(this.data as int),
        ensures
            r == store@.atomic_of(this.data as int),
    {
        match &store.blocks[this.data] {
            Some(cb) => cb.atomicref,
            None => unreached(),
        }
    }

    /// The weak count of the block, the implicit unit of the strong side
    /// included.
    pub fn weak_count<T>(this: &SharedTrc, store: &Store<T>) -> (r: u64)
        requires
            store@.wf(),
            store@.block_live(this.data as int),
        ensures
            r == store@.weak_of(this.data as int),
    {
        match &store.blocks[this.data] {
            Some(cb) => cb.weakcount,
            None => unreached(),
        }
    }

    /// Identity comparison on the control block, value-independent.
    pub fn ptr_eq(this: &SharedTrc, other: &SharedTrc) -> (r: bool)
        ensures
            r == (this.data == other.data),
    {
        this.data == other.data
    }

    /// The slot of the control block, standing in for the address of the
    /// value.
    pub fn as_ptr(this: &SharedTrc) -> (r: usize)
        ensures
            r == this.data,
    {
        this.data
    }

    /// Give up the handle without releasing its unit of the atomic count,
    /// and hand out the bare slot.  The caller owes the heap one unit until
    /// `from_raw` rebuilds the handle from the same slot.
    pub fn into_raw(this: SharedTrc) -> (r: usize)
        ensures
            r == this.data,
    {
        this.data
    }

    /// Rebuild a transfer handle from a slot that `into_raw` handed out.
    /// The unit of the atomic count that `into_raw` left behind backs the
    /// new handle; pairing the two calls is the caller's obligation, as
    /// with any raw escape hatch.
    pub fn from_raw(slot: usize) -> (r: SharedTrc)
        ensures
            r.data == slot,
    {
        SharedTrc { data: slot }
    }

    /// Add one unit to the atomic count of the block behind a slot that
    /// `into_raw` handed out, without building a handle.
    pub fn increment_local_count<T>(store: &mut Store<T>, slot: usize)
        requires
            old(store)@.wf(),
            old(store)@.block_live(slot as int),
            old(store)@.atomic_of(slot as int) >= 1,
            old(store)@.atomic_of(slot as int) < MAX_REFCOUNT,
        ensures
            final(store)@ == old(store)@.share_step(slot as int),
            final(store)@.wf(),
            final(store)@.atomic_of(slot as int) == old(store)@.atomic_of(slot as int) + 1,
            final(store)@.locals == old(store)@.locals,
    {
        proof {
            lemma_share_wf(old(store)@, slot as int);
        }
        match &mut store.blocks[slot] {
            Some(cb) => {
                sum_value(&mut cb.atomicref, 1);
            },
            None => unreached(),
        }
        assert(store@ =~= old(store)@.share_step(slot as int));
    }

    /// Drop one unit of the atomic count of the block behind a slot that
    /// `into_raw` handed out.  The unit must be one that a transfer handle
    /// or `into_raw` left behind, never a thread family's: the caller
    /// guarantees that the count stays above the number of families.
    pub fn decrement_local_count<T>(store: &mut Store<T>, slot: usize)
        requires
            old(store)@.wf(),
            old(store)@.block_live(slot as int),
            old(store)@.atomic_of(slot as int) >= 1,
            old(store)@.families_on(slot as int) < old(store)@.atomic_of(slot as int),
        ensures
            final(store)@ == old(store)@.strong_dec_step(slot as int),
            final(store)@.wf(),
    {
        strong_release(store, slot);
    }
}

} // verus!
