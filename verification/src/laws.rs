use vstd::prelude::*;

use crate::store::MAX_REFCOUNT;
use crate::store::SharedTrcInternal;
use crate::store::StoreView;
use crate::store::ThreadRef;

verus! {

/// The heap after cloning an owning pointer of family `l` a total of `n`
/// times.
pub open spec fn clone_local_n<T>(v: StoreView<T>, l: int, n: nat) -> StoreView<T>
    decreases n,
{
    if n == 0 {
        v
    } else {
        clone_local_n(v, l, (n - 1) as nat).clone_local_step(l)
    }
}

/// The heap after dropping an owning pointer of family `l` a total of `n`
/// times.
pub open spec fn release_local_n<T>(v: StoreView<T>, l: int, n: nat) -> StoreView<T>
    decreases n,
{
    if n == 0 {
        v
    } else {
        release_local_n(v.release_local_step(l), l, (n - 1) as nat)
    }
}

/// Cloning moves nothing but the one thread-local count: after `n` clones
/// the family's count is up by `n`, every other counter entry and every
/// control block is exactly as before.
pub proof fn lemma_clone_n_facts<T>(v: StoreView<T>, l: int, n: nat)
    requires
        v.local_live(l),
        v.local_of(l) + n <= u64::MAX,
    ensures
        ({
            let c = clone_local_n(v, l, n);
            &&& c.blocks == v.blocks
            &&& c.locals.len() == v.locals.len()
            &&& c.local_live(l)
            &&& c.local_at(l).block == v.local_at(l).block
            &&& c.local_of(l) == v.local_of(l) + n
            &&& forall|k: int| 0 <= k < v.locals.len() && k != l ==> c.locals[k] == v.locals[k]
        }),
    decreases n,
{
    if n > 0 {
        lemma_clone_n_facts(v, l, (n - 1) as nat);
    }
}

/// Clone/drop balance: performing `clone` and then `drop` `n` times over
/// returns the thread-local count, and with it the whole heap, to exactly
/// its prior state.  Nothing is destroyed and nothing is freed on the way,
/// because every drop but the last of a family only moves the one count.
pub proof fn lemma_clone_drop_balance<T>(v: StoreView<T>, l: int, n: nat)
    requires
        v.wf(),
        v.local_live(l),
        v.local_of(l) + n <= MAX_REFCOUNT,
    ensures
        release_local_n(clone_local_n(v, l, n), l, n) =~= v,
    decreases n,
{
    if n > 0 {
        let w = clone_local_n(v, l, (n - 1) as nat);
        lemma_clone_n_facts(v, l, (n - 1) as nat);
        lemma_clone_n_facts(v, l, n);
        assert(clone_local_n(v, l, n) == w.clone_local_step(l));
        assert(w.clone_local_step(l).release_local_step(l) =~= w) by {
            assert(w.local_of(l) >= 1);
            assert(w.clone_local_step(l).local_of(l) == w.local_of(l) + 1);
            assert(w.locals.update(l, Some(ThreadRef {
                block: w.local_at(l).block,
                count: (w.local_of(l) + 1) as u64,
            })).update(l, Some(ThreadRef {
                block: w.local_at(l).block,
                count: w.local_of(l),
            })) =~= w.locals);
        }
        lemma_clone_drop_balance(v, l, (n - 1) as nat);
        assert(release_local_n(clone_local_n(v, l, n), l, n)
            == release_local_n(w.clone_local_step(l).release_local_step(l), l, (n - 1) as nat));
        assert(release_local_n(w, l, (n - 1) as nat) =~= v);
    }
}

/// A control block outlives every drop that is not the very last: as long
/// as the family keeps another member, or another thread family or
/// transfer handle holds the value, or a weak observer watches the block,
/// dropping one owning pointer leaves the block allocated.
pub proof fn lemma_block_survives_release<T>(v: StoreView<T>, l: int)
    requires
        v.wf(),
        v.local_live(l),
        v.local_of(l) > 1 || v.atomic_of(v.block_of_local(l)) > 1 || v.weak_of(
            v.block_of_local(l),
        ) > 1,
    ensures
        v.release_local_step(l).block_live(v.block_of_local(l)),
{
}

/// Only the very last interest frees the block: when the dropped pointer
/// is the last of its family, its family holds the last atomic unit, and
/// no weak observer is left beside the implicit unit, the drop destroys
/// the value and deallocates the block in the same stroke.
pub proof fn lemma_last_release_frees<T>(v: StoreView<T>, l: int)
    requires
        v.wf(),
        v.local_live(l),
        v.local_of(l) == 1,
        v.atomic_of(v.block_of_local(l)) == 1,
        v.weak_of(v.block_of_local(l)) == 1,
    ensures
        !v.release_local_step(l).block_live(v.block_of_local(l)),
{
}

/// A transfer handle's drop leaves the block allocated while any other
/// strong unit or any weak observer remains.
pub proof fn lemma_block_survives_strong_release<T>(v: StoreView<T>, b: int)
    requires
        v.wf(),
        v.block_live(b),
        v.atomic_of(b) >= 1,
        v.atomic_of(b) > 1 || v.weak_of(b) > 1,
    ensures
        v.strong_dec_step(b).block_live(b),
{
}

/// A weak observer's drop leaves the block allocated while any other weak
/// unit remains, the implicit unit of a live strong side included.
pub proof fn lemma_block_survives_weak_release<T>(v: StoreView<T>, b: int)
    requires
        v.wf(),
        v.block_live(b),
        v.weak_of(b) > 1,
    ensures
        v.weak_dec_step(b).block_live(b),
{
}

/// Cross-thread round trip: turning an owning pointer into a transfer
/// handle, converting the handle back into an owning pointer elsewhere,
/// and dropping that pointer leaves the value untouched and returns the
/// atomic count to its pre-transfer value; meanwhile the converted pointer
/// read exactly the original value.  The heap differs only by the spent
/// slot of the round trip's thread-local counter.
pub proof fn lemma_transfer_round_trip<T>(v: StoreView<T>, b: int)
    requires
        v.wf(),
        v.block_live(b),
        b <= usize::MAX,
        v.atomic_of(b) >= 1,
        v.atomic_of(b) < MAX_REFCOUNT,
    ensures
        ({
            let sent = v.share_step(b);
            let arrived = sent.attach_local_step(b);
            let l2 = v.locals.len() as int;
            let back = arrived.release_local_step(l2);
            &&& arrived.data_of(b) == v.data_of(b)
            &&& arrived.atomic_of(b) == v.atomic_of(b) + 1
            &&& back.atomic_of(b) == v.atomic_of(b)
            &&& back.data_of(b) == v.data_of(b)
            &&& back.blocks =~= v.blocks
            &&& back.locals =~= v.locals.push(None)
        }),
{
    let sent = v.share_step(b);
    let arrived = sent.attach_local_step(b);
    let l2 = v.locals.len() as int;
    let back = arrived.release_local_step(l2);
    let cb = v.block_at(b);
    assert(arrived.local_live(l2));
    assert(arrived.local_of(l2) == 1);
    assert(arrived.atomic_of(b) == v.atomic_of(b) + 1 > 1);
    assert(back.blocks =~= v.blocks) by {
        assert(v.blocks[b] == Some(cb));
        assert(arrived.block_at(b).atomicref == cb.atomicref + 1);
        assert(back.blocks[b] == Some(SharedTrcInternal {
            atomicref: cb.atomicref,
            weakcount: cb.weakcount,
            data: cb.data,
        }));
    }
    assert(back.locals =~= v.locals.push(None));
}

/// Weak upgrade after the last drop fails: when the last owning pointer of
/// the last family goes while a weak observer watches the block, the value
/// is destroyed, the block stays allocated for the observer, and the
/// atomic count is pinned at zero, which is exactly the state in which
/// `upgrade` answers `None`.
pub proof fn lemma_upgrade_after_last_drop<T>(v: StoreView<T>, l: int)
    requires
        v.wf(),
        v.local_live(l),
        v.local_of(l) == 1,
        v.atomic_of(v.block_of_local(l)) == 1,
        v.weak_of(v.block_of_local(l)) >= 2,
    ensures
        ({
            let b = v.block_of_local(l);
            let w = v.release_local_step(l);
            &&& w.block_live(b)
            &&& w.atomic_of(b) == 0
            &&& w.data_of(b) is None
            &&& w.weak_of(b) == v.weak_of(b) - 1
        }),
{
}

/// Exclusive mutation gating: in the uniquely-owned state the `get_mut`
/// gate is open; one more clone closes it, because the thread-local count
/// leaves 1; dropping that clone restores the prior heap exactly, so the
/// gate is open again.
pub proof fn lemma_get_mut_gating<T>(v: StoreView<T>, l: int)
    requires
        v.wf(),
        v.local_live(l),
        v.local_of(l) == 1,
        v.atomic_of(v.block_of_local(l)) == 1,
        v.weak_of(v.block_of_local(l)) == 1,
    ensures
        ({
            let c = v.clone_local_step(l);
            &&& c.local_of(l) == 2
            &&& c.release_local_step(l) =~= v
        }),
{
    lemma_clone_drop_balance(v, l, 1);
}

/// Single-winner race: two owning pointers in different thread families
/// share a value whose atomic count is 2, and each is consumed by
/// `into_inner`.  Whichever order the two releases take, the first call
/// comes away empty and the second call, the one that brings the atomic
/// count to zero, receives the value: exactly one winner, never both and
/// never neither.
pub proof fn lemma_into_inner_single_winner<T>(v: StoreView<T>, l1: int, l2: int)
    requires
        v.wf(),
        v.local_live(l1),
        v.local_live(l2),
        l1 != l2,
        v.block_of_local(l1) == v.block_of_local(l2),
        v.local_of(l1) == 1,
        v.local_of(l2) == 1,
        v.atomic_of(v.block_of_local(l1)) == 2,
        v.data_of(v.block_of_local(l1)) is Some,
    ensures
        ({
            let b = v.block_of_local(l1);
            let first = v.released_value(l1);
            let after = v.release_local_step(l1);
            let second = after.released_value(l2);
            &&& first is None
            &&& after.local_live(l2)
            &&& after.atomic_of(b) == 1
            &&& after.data_of(b) == v.data_of(b)
            &&& second == v.data_of(b)
            &&& second is Some
        }),
{
}

/// Identity against value equality: two allocations made one after the
/// other land in distinct control blocks whatever their values, even equal
/// ones, so `ptr_eq` between them reports false while each pointer still
/// reads back exactly the value it was given.
pub proof fn lemma_independent_allocations_distinct<T>(v: StoreView<T>, x: T, y: T)
    ensures
        ({
            let first = v.alloc_owned_step(Some(x));
            let second = first.alloc_owned_step(Some(y));
            let b1 = v.blocks.len() as int;
            let b2 = first.blocks.len() as int;
            &&& b1 != b2
            &&& second.data_of(b1) == Some(x)
            &&& second.data_of(b2) == Some(y)
        }),
{
}

} // verus!
