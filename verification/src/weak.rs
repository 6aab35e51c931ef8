use vstd::prelude::*;
use vstd::pervasive::unreached;

use crate::store::MAX_REFCOUNT;
use crate::store::SharedTrcInternal;
use crate::store::Store;
use crate::store::StoreView;
use crate::store::ThreadRef;
use crate::store::lemma_alloc_expired_wf;
use crate::store::lemma_attach_wf;
use crate::store::lemma_share_wf;
use crate::store::lemma_weak_inc_wf;
use crate::store::sum_value;
use crate::store::weak_release;
use crate::strong::Trc;

verus! {

/// The weak observer: a non-owning reference that keeps only the control
/// block alive, never the value.  It owns one unit of the weak count and
/// must be upgraded to an owning pointer before the value can be read.
pub struct Weak {
    pub data: usize,
}

impl Weak {
    /// The handle points at a live block and owns one weak unit beyond the
    /// implicit unit that a live strong side holds.
    pub open spec fn valid<T>(self, s: StoreView<T>) -> bool {
        &&& s.block_live(self.data as int)
        &&& s.weak_of(self.data as int) >= 1
        &&& (s.atomic_of(self.data as int) > 0 ==> s.weak_of(self.data as int) >= 2)
    }

    /// A weak observer of a fresh block that never held a value: its atomic
    /// count is permanently zero, so every upgrade returns `None`.
    pub fn new<T>(store: &mut Store<T>) -> (r: Weak)
        requires
            old(store)@.wf(),
        ensures
            final(store)@ == old(store)@.alloc_expired_step(),
            final(store)@.wf(),
            r.data == old(store)@.blocks.len(),
            final(store)@.atomic_of(r.data as int) == 0,
            final(store)@.weak_of(r.data as int) == 1,
            final(store)@.data_of(r.data as int) is None,
            final(store)@.locals == old(store)@.locals,
            r.valid(final(store)@),
    {
        proof {
            lemma_alloc_expired_wf(old(store)@);
        }
        let b = store.blocks.len();
        store.blocks.push(Some(SharedTrcInternal { atomicref: 0, weakcount: 1, data: None }));
        assert(store@ =~= old(store)@.alloc_expired_step());
        Weak { data: b }
    }

    /// Try to upgrade the observer into an owning pointer.  The atomic
    /// count is read and bumped in one step: if it is zero the value is
    /// gone for good and the upgrade fails; otherwise the count goes up by
    /// one and a fresh thread-local counter at 1 is bound to the block.
    pub fn upgrade<T>(&self, store: &mut Store<T>) -> (r: Option<Trc>)
        requires
            old(store)@.wf(),
            self.valid(old(store)@),
            old(store)@.atomic_of(self.data as int) < MAX_REFCOUNT,
        ensures
            final(store)@.wf(),
            old(store)@.atomic_of(self.data as int) == 0 ==> {
                &&& r is None
                &&& final(store)@ == old(store)@
            },
            old(store)@.atomic_of(self.data as int) > 0 ==> {
                &&& r is Some
                &&& final(store)@ == old(store)@.share_step(self.data as int).attach_local_step(
                    self.data as int,
                )
                &&& r.unwrap().shared == self.data
                &&& r.unwrap().threadref == old(store)@.locals.len()
                &&& r.unwrap().valid(final(store)@)
                &&& final(store)@.atomic_of(self.data as int)
                    == old(store)@.atomic_of(self.data as int) + 1
                &&& final(store)@.data_of(self.data as int)
                    == old(store)@.data_of(self.data as int)
            },
            self.valid(final(store)@),
    {
        let b = self.data;
        let alive: bool = match &mut store.blocks[b] {
            Some(cb) => {
                if cb.atomicref > 0 {
                    sum_value(&mut cb.atomicref, 1);
                    true
                } else {
                    false
                }
            },
            None => unreached(),
        };
        if alive {
            proof {
                lemma_share_wf(old(store)@, b as int);
                assert(store@ =~= old(store)@.share_step(b as int));
                lemma_attach_wf(store@, b as int);
            }
            let l = store.locals.len();
            store.locals.push(Some(ThreadRef { block: b, count: 1 }));
            assert(store@ =~= old(store)@.share_step(b as int).attach_local_step(b as int));
            Some(Trc { shared: b, threadref: l })
        } else {
            assert(store@ =~= old(store)@);
            None
        }
    }

    /// Clone a weak observer: one more unit of the weak count.
    pub fn clone_in<T>(&self, store: &mut Store<T>) -> (r: Weak)
        requires
            old(store)@.wf(),
            self.valid(old(store)@),
            old(store)@.weak_of(self.data as int) < MAX_REFCOUNT,
        ensures
            final(store)@ == old(store)@.weak_inc_step(self.data as int),
            final(store)@.wf(),
            r.data == self.data,
            final(store)@.weak_of(self.data as int) == old(store)@.weak_of(self.data as int) + 1,
            final(store)@.locals == old(store)@.locals,
            r.valid(final(store)@),
            self.valid(final(store)@),
    {
        proof {
            lemma_weak_inc_wf(old(store)@, self.data as int);
        }
        match &mut store.blocks[self.data] {
            Some(cb) => {
                sum_value(&mut cb.weakcount, 1);
            },
            None => unreached(),
        }
        assert(store@ =~= old(store)@.weak_inc_step(self.data as int));
        Weak { data: self.data }
    }

    /// Drop a weak observer: one unit of the weak count goes away, and the
    /// unit that brings the count to zero frees the block itself.  The
    /// value is guaranteed to be gone by then, because the strong side only
    /// releases its implicit unit after destroying the value.
    pub fn drop_in<T>(self, store: &mut Store<T>)
        requires
            old(store)@.wf(),
            self.valid(old(store)@),
        ensures
            final(store)@ == old(store)@.weak_dec_step(self.data as int),
            final(store)@.wf(),
    {
        weak_release(store, self.data);
    }

    /// The atomic count of the block this observer watches.
    pub fn atomic_count<T>(this: &Weak, store: &Store<T>) -> (r: u64)
        requires
            store@.wf(),
            store@.block_live(this.data as int),
        ensures
            r == store@.atomic_of(this.data as int),
    {
        match &store.blocks[this.data] {
            Some(cb) => cb.atomicref,
            None => unreached(),
        }
    }

    /// The weak count of the block this observer watches.
    pub fn weak_count<T>(this: &Weak, store: &Store<T>) -> (r: u64)
        requires
            store@.wf(),
            store@.block_live(this.data as int),
        ensures
            r == store@.weak_of(this.data as int),
    {
        match &store.blocks[this.data] {
            Some(cb) => cb.weakcount,
            None => unreached(),
        }
    }

    /// The slot of the control block this observer watches.
    pub fn as_ptr(this: &Weak) -> (r: usize)
        ensures
            r == this.data,
    {
        this.data
    }

    /// Give up the observer without releasing its weak unit, and hand out
    /// the bare slot.  The caller owes the heap one weak unit until
    /// `from_raw` rebuilds the observer from the same slot.
    pub fn into_raw(this: Weak) -> (r: usize)
        ensures
            r == this.data,
    {
        this.data
    }

    /// Rebuild a weak observer from a slot that `into_raw` handed out.
    /// Pairing the two calls is the caller's obligation, as with any raw
    /// escape hatch.
    pub fn from_raw(slot: usize) -> (r: Weak)
        ensures
            r.data == slot,
    {
        Weak { data: slot }
    }
}

} // verus!
