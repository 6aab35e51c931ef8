use vstd::prelude::*;
use vstd::pervasive::cloned;
use vstd::pervasive::unreached;

use crate::store::MAX_REFCOUNT;
use crate::store::Store;
use crate::store::StoreView;
use crate::store::ThreadRef;
use crate::store::alloc_owned;
use crate::store::lemma_clone_local_wf;
use crate::store::lemma_set_data_wf;
use crate::store::lemma_weak_inc_wf;
use crate::store::release_local;
use crate::store::sum_value;
use crate::weak::Weak;

verus! {

/// The owning, thread-confined pointer: it holds the slot of its control
/// block and the slot of the thread-local counter of its family.  Cloning
/// only bumps the thread-local count; the atomic count moves only when
/// ownership crosses a thread boundary.
pub struct Trc {
    pub shared: usize,
    pub threadref: usize,
}

impl Trc {
    /// The handle points at a live thread-local counter bound to a live
    /// block whose value is still present.
    pub open spec fn valid<T>(self, s: StoreView<T>) -> bool {
        &&& s.local_live(self.threadref as int)
        &&& s.block_of_local(self.threadref as int) == self.shared as int
        &&& s.block_live(self.shared as int)
        &&& s.data_of(self.shared as int) is Some
    }

    /// Allocate a fresh control block holding `value`, with the atomic and
    /// weak counts at 1, and a fresh thread-local counter at 1.
    pub fn new<T>(store: &mut Store<T>, value: T) -> (r: Trc)
        requires
            old(store)@.wf(),
        ensures
            final(store)@ == old(store)@.alloc_owned_step(Some(value)),
            final(store)@.wf(),
            r.shared == old(store)@.blocks.len(),
            r.threadref == old(store)@.locals.len(),
            r.valid(final(store)@),
            final(store)@.atomic_of(r.shared as int) == 1,
            final(store)@.weak_of(r.shared as int) == 1,
            final(store)@.local_of(r.threadref as int) == 1,
            final(store)@.data_of(r.shared as int) == Some(value),
    {
        let ids = alloc_owned(store, Some(value));
        Trc { shared: ids.0, threadref: ids.1 }
    }

    /// Clone an owning pointer: only the thread-local count moves, by one,
    /// and nothing else in the heap changes.
    pub fn clone_in<T>(&self, store: &mut Store<T>) -> (r: Trc)
        requires
            old(store)@.wf(),
            self.valid(old(store)@),
            old(store)@.local_of(self.threadref as int) < MAX_REFCOUNT,
        ensures
            final(store)@ == old(store)@.clone_local_step(self.threadref as int),
            final(store)@.wf(),
            r.shared == self.shared,
            r.threadref == self.threadref,
            final(store)@.blocks == old(store)@.blocks,
            final(store)@.local_of(self.threadref as int)
                == old(store)@.local_of(self.threadref as int) + 1,
            r.valid(final(store)@),
            self.valid(final(store)@),
    {
        proof {
            lemma_clone_local_wf(old(store)@, self.threadref as int);
        }
        let tr: ThreadRef = store.locals[self.threadref].unwrap();
        store.locals[self.threadref] = Some(ThreadRef { block: tr.block, count: tr.count + 1 });
        assert(store@ =~= old(store)@.clone_local_step(self.threadref as int));
        Trc { shared: self.shared, threadref: self.threadref }
    }

    /// Drop an owning pointer.  The thread-local count goes down by one; the
    /// last member of the family frees its counter and releases the
    /// family's unit of the atomic count, which in turn may destroy the
    /// value and free the block.
    pub fn drop_in<T>(self, store: &mut Store<T>)
        requires
            old(store)@.wf(),
            self.valid(old(store)@),
        ensures
            final(store)@ == old(store)@.release_local_step(self.threadref as int),
            final(store)@.wf(),
    {
        release_local(store, self.threadref);
    }

    /// Read the value.  O(1), no synchronization, always possible while the
    /// handle is alive.
    pub fn deref<'a, T>(&self, store: &'a Store<T>) -> (r: &'a T)
        requires
            store@.wf(),
            self.valid(store@),
        ensures
            store@.data_of(self.shared as int) == Some(*r),
    {
        match &store.blocks[self.shared] {
            Some(cb) => match &cb.data {
                Some(d) => d,
                None => unreached(),
            },
            None => unreached(),
        }
    }

    /// The thread-local count of this handle's family.
    pub fn local_count<T>(&self, store: &Store<T>) -> (r: u64)
        requires
            store@.wf(),
            self.valid(store@),
        ensures
            r == store@.local_of(self.threadref as int),
    {
        store.locals[self.threadref].unwrap().count
    }

    /// The atomic count of this handle's block: how many thread families
    /// and transfer handles hold the value.
    pub fn atomic_count<T>(&self, store: &Store<T>) -> (r: u64)
        requires
            store@.wf(),
            self.valid(store@),
        ensures
            r == store@.atomic_of(self.shared as int),
    {
        match &store.blocks[self.shared] {
            Some(cb) => cb.atomicref,
            None => unreached(),
        }
    }

    /// The weak count of this handle's block, the implicit unit of the
    /// strong side included.
    pub fn weak_count<T>(&self, store: &Store<T>) -> (r: u64)
        requires
            store@.wf(),
            self.valid(store@),
        ensures
            r == store@.weak_of(self.shared as int),
    {
        match &store.blocks[self.shared] {
            Some(cb) => cb.weakcount,
            None => unreached(),
        }
    }

    /// Identity comparison: do the two handles share one control block?
    /// This never looks at the values.
    pub fn ptr_eq(this: &Trc, other: &Trc) -> (r: bool)
        ensures
            r == (this.shared == other.shared),
    {
        this.shared == other.shared
    }

    /// The slot of the control block, standing in for the address of the
    /// value.
    pub fn as_ptr(this: &Trc) -> (r: usize)
        ensures
            r == this.shared,
    {
        this.shared
    }

    /// Downgrade an owning pointer to a weak observer: one more unit of the
    /// weak count, nothing else.
    pub fn downgrade<T>(trc: &Trc, store: &mut Store<T>) -> (r: Weak)
        requires
            old(store)@.wf(),
            trc.valid(old(store)@),
            old(store)@.weak_of(trc.shared as int) < MAX_REFCOUNT,
        ensures
            final(store)@ == old(store)@.weak_inc_step(trc.shared as int),
            final(store)@.wf(),
            r.data == trc.shared,
            final(store)@.weak_of(trc.shared as int)
                == old(store)@.weak_of(trc.shared as int) + 1,
            final(store)@.locals == old(store)@.locals,
            r.valid(final(store)@),
            trc.valid(final(store)@),
    {
        proof {
            lemma_weak_inc_wf(old(store)@, trc.shared as int);
        }
        match &mut store.blocks[trc.shared] {
            Some(cb) => {
                sum_value(&mut cb.weakcount, 1);
            },
            None => unreached(),
        }
        assert(store@ =~= old(store)@.weak_inc_step(trc.shared as int));
        Weak { data: trc.shared }
    }

    /// Get a mutable slot for the value exactly when this handle is the
    /// only access path: thread-local count 1, atomic count 1, weak count 1.
    /// The weak count is claimed with a sentinel for the length of the
    /// check, the step a concurrent implementation performs as a
    /// compare-and-swap, so no weak observer could attach while the counts
    /// are inspected; the claim is then released.
    pub fn get_mut<'a, T>(this: &Trc, store: &'a mut Store<T>) -> (r: Option<&'a mut T>)
        requires
            old(store)@.wf(),
            this.valid(old(store)@),
        ensures
            (r is Some) == {
                &&& old(store)@.local_of(this.threadref as int) == 1
                &&& old(store)@.atomic_of(this.shared as int) == 1
                &&& old(store)@.weak_of(this.shared as int) == 1
            },
            r matches Some(d) ==> {
                &&& Some(*d) == old(store)@.data_of(this.shared as int)
                &&& final(store)@ == old(store)@.with_data(this.shared as int, Some(*final(d)))
            },
            r is None ==> final(store)@ == old(store)@,
            final(store)@.wf(),
    {
        let b = this.shared;
        // Claim the weak count if it is exactly 1, in the manner of a
        // compare-and-swap.
        let locked: bool = match &mut store.blocks[b] {
            Some(cb) => {
                if cb.weakcount == 1 {
                    cb.weakcount = u64::MAX;
                    true
                } else {
                    false
                }
            },
            None => unreached(),
        };
        if locked {
            let unique: bool = match &store.blocks[b] {
                Some(cb) => cb.atomicref == 1,
                None => unreached(),
            };
            // Release the claim.
            match &mut store.blocks[b] {
                Some(cb) => {
                    cb.weakcount = 1;
                },
                None => unreached(),
            }
            assert(store@ =~= old(store)@);
            if unique && store.locals[this.threadref].unwrap().count == 1 {
                let slot: &mut T = match &mut store.blocks[b] {
                    Some(cb) => match &mut cb.data {
                        Some(d) => d,
                        None => unreached(),
                    },
                    None => unreached(),
                };
                proof {
                    lemma_set_data_wf(old(store)@, b as int, Some(*final(slot)));
                }
                Some(slot)
            } else {
                None
            }
        } else {
            None
        }
    }

    /// Take the value out if this is the only owning pointer anywhere:
    /// atomic count 1 and thread-local count 1, outstanding weak observers
    /// notwithstanding.  On failure the pointer comes back untouched and
    /// nothing in the heap has moved.
    pub fn try_unwrap<T>(this: Trc, store: &mut Store<T>) -> (r: Result<T, Trc>)
        requires
            old(store)@.wf(),
            this.valid(old(store)@),
        ensures
            final(store)@.wf(),
            ({
                let unique = old(store)@.atomic_of(this.shared as int) == 1
                    && old(store)@.local_of(this.threadref as int) == 1;
                if unique {
                    &&& r matches Ok(v) && Some(v) == old(store)@.data_of(this.shared as int)
                    &&& final(store)@ == old(store)@.release_local_step(this.threadref as int)
                } else {
                    &&& r matches Err(t) && t == this
                    &&& final(store)@ == old(store)@
                }
            }),
    {
        let atomic_one: bool = match &store.blocks[this.shared] {
            Some(cb) => cb.atomicref == 1,
            None => unreached(),
        };
        let local_one: bool = store.locals[this.threadref].unwrap().count == 1;
        if atomic_one && local_one {
            let taken = release_local(store, this.threadref);
            match taken {
                Some(v) => Ok(v),
                None => unreached(),
            }
        } else {
            Err(this)
        }
    }

    /// Consume the pointer and take the value out if this call releases the
    /// last ownership anywhere; otherwise the pointer is simply dropped and
    /// `None` comes back.  Unlike `try_unwrap`, the release always happens;
    /// across all pointers of a value, exactly the call that brings the
    /// atomic count to zero receives the value, so of several racing
    /// claimants one and only one wins.
    pub fn into_inner<T>(this: Trc, store: &mut Store<T>) -> (r: Option<T>)
        requires
            old(store)@.wf(),
            this.valid(old(store)@),
        ensures
            final(store)@ == old(store)@.release_local_step(this.threadref as int),
            final(store)@.wf(),
            r == old(store)@.released_value(this.threadref as int),
            (r is Some) == (old(store)@.local_of(this.threadref as int) == 1
                && old(store)@.atomic_of(this.shared as int) == 1),
            r is Some ==> r == old(store)@.data_of(this.shared as int),
    {
        release_local(store, this.threadref)
    }

    /// Take the value out when uniquely owned, else hand back a clone of
    /// it.  Either way the pointer is consumed.
    pub fn unwrap_or_clone<T: Clone>(this: Trc, store: &mut Store<T>) -> (r: T)
        requires
            old(store)@.wf(),
            this.valid(old(store)@),
        ensures
            final(store)@ == old(store)@.release_local_step(this.threadref as int),
            final(store)@.wf(),
            ({
                let unique = old(store)@.atomic_of(this.shared as int) == 1
                    && old(store)@.local_of(this.threadref as int) == 1;
                if unique {
                    Some(r) == old(store)@.data_of(this.shared as int)
                } else {
                    cloned::<T>(old(store)@.data_of(this.shared as int).unwrap(), r)
                }
            }),
    {
        match Trc::try_unwrap(this, store) {
            Ok(v) => v,
            Err(t) => {
                let r = Trc::deref(&t, store).clone();
                Trc::drop_in(t, store);
                r
            },
        }
    }
}

} // verus!
