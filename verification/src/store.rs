use vstd::prelude::*;

verus! {

/// Largest value any of the three reference counts may reach.  Past this
/// bound the protocol treats an increment as fatal, because a wrapped-around
/// count would free memory that is still in use; here every operation that
/// bumps a count requires that the bound is not hit, so the verified code
/// never panics.
pub const MAX_REFCOUNT: u64 = 0x7fff_ffff_ffff_ffff;

/// One control block: the single shared allocation behind a family of
/// pointers.  `atomicref` counts the thread families and transfer handles
/// that keep the value alive, `weakcount` counts the weak observers plus one
/// implicit unit held collectively by the strong side while the value lives,
/// and `data` is the payload, `None` once the value has been destroyed or
/// before an uninitialized block has been written.
pub struct SharedTrcInternal<T> {
    pub atomicref: u64,
    pub weakcount: u64,
    pub data: Option<T>,
}

/// One thread-local counter: how many owning pointers of a single
/// thread-family point at `block`.  It sits apart from the control block in
/// a slot of its own, owned by one thread alone, which is what makes the
/// common-case clone free of synchronization.
#[derive(Clone, Copy, PartialEq, Eq, Structural)]
pub struct ThreadRef {
    pub block: usize,
    pub count: u64,
}

/// The heap of the model.  Control blocks and thread-local counters live in
/// two arenas; a freed entry becomes `None` and its slot is never reused, so
/// a slot index plays the role of a machine address.
pub struct Store<T> {
    pub blocks: Vec<Option<SharedTrcInternal<T>>>,
    pub locals: Vec<Option<ThreadRef>>,
}

/// The mathematical image of a `Store`, which every contract speaks of.
#[verifier::ext_equal]
pub struct StoreView<T> {
    pub blocks: Seq<Option<SharedTrcInternal<T>>>,
    pub locals: Seq<Option<ThreadRef>>,
}

impl<T> View for Store<T> {
    type V = StoreView<T>;

    open spec fn view(&self) -> StoreView<T> {
        StoreView { blocks: self.blocks@, locals: self.locals@ }
    }
}

/// 1 when the counter entry `e` belongs to a family on block `b`, else 0.
pub open spec fn fam_contrib(e: Option<ThreadRef>, b: int) -> nat {
    match e {
        Some(tr) => if tr.block == b {
            1nat
        } else {
            0nat
        },
        None => 0nat,
    }
}

/// How many live thread-local counters are bound to block `b`.
pub open spec fn count_families(locals: Seq<Option<ThreadRef>>, b: int) -> nat
    decreases locals.len(),
{
    if locals.len() == 0 {
        0nat
    } else {
        count_families(locals.drop_last(), b) + fam_contrib(locals.last(), b)
    }
}

pub proof fn lemma_count_push(locals: Seq<Option<ThreadRef>>, e: Option<ThreadRef>, b: int)
    ensures
        count_families(locals.push(e), b) == count_families(locals, b) + fam_contrib(e, b),
{
    assert(locals.push(e).drop_last() =~= locals);
    assert(locals.push(e).last() == e);
}

pub proof fn lemma_count_update(locals: Seq<Option<ThreadRef>>, l: int, e: Option<ThreadRef>, b: int)
    requires
        0 <= l < locals.len(),
    ensures
        count_families(locals.update(l, e), b) + fam_contrib(locals[l], b)
            == count_families(locals, b) + fam_contrib(e, b),
    decreases locals.len(),
{
    let u = locals.update(l, e);
    if l == locals.len() - 1 {
        assert(u.drop_last() =~= locals.drop_last());
        assert(u.last() == e);
    } else {
        assert(u.drop_last() =~= locals.drop_last().update(l, e));
        assert(u.last() == locals.last());
        lemma_count_update(locals.drop_last(), l, e, b);
    }
}

pub proof fn lemma_count_at_least_one(locals: Seq<Option<ThreadRef>>, l: int, b: int)
    requires
        0 <= l < locals.len(),
        fam_contrib(locals[l], b) == 1,
    ensures
        count_families(locals, b) >= 1,
    decreases locals.len(),
{
    if l == locals.len() - 1 {
        assert(locals.last() == locals[l]);
    } else {
        assert(locals.drop_last()[l] == locals[l]);
        lemma_count_at_least_one(locals.drop_last(), l, b);
    }
}

pub proof fn lemma_count_zero(locals: Seq<Option<ThreadRef>>, b: int)
    requires
        forall|l: int| 0 <= l < locals.len() ==> #[trigger] fam_contrib(locals[l], b) == 0,
    ensures
        count_families(locals, b) == 0,
    decreases locals.len(),
{
    if locals.len() > 0 {
        assert(locals.last() == locals[locals.len() - 1]);
        assert(forall|l: int| 0 <= l < locals.drop_last().len()
            ==> #[trigger] fam_contrib(locals.drop_last()[l], b) == fam_contrib(locals[l], b));
        lemma_count_zero(locals.drop_last(), b);
    }
}

impl<T> StoreView<T> {
    /// The control block in slot `b` has been allocated and not yet freed.
    pub open spec fn block_live(self, b: int) -> bool {
        0 <= b < self.blocks.len() && self.blocks[b] is Some
    }

    pub open spec fn block_at(self, b: int) -> SharedTrcInternal<T> {
        self.blocks[b].unwrap()
    }

    pub open spec fn atomic_of(self, b: int) -> u64 {
        self.block_at(b).atomicref
    }

    pub open spec fn weak_of(self, b: int) -> u64 {
        self.block_at(b).weakcount
    }

    pub open spec fn data_of(self, b: int) -> Option<T> {
        self.block_at(b).data
    }

    /// The thread-local counter in slot `l` has been allocated and not yet
    /// freed.
    pub open spec fn local_live(self, l: int) -> bool {
        0 <= l < self.locals.len() && self.locals[l] is Some
    }

    pub open spec fn local_at(self, l: int) -> ThreadRef {
        self.locals[l].unwrap()
    }

    pub open spec fn local_of(self, l: int) -> u64 {
        self.local_at(l).count
    }

    pub open spec fn block_of_local(self, l: int) -> int {
        self.local_at(l).block as int
    }

    /// How many live thread families are bound to block `b`.
    pub open spec fn families_on(self, b: int) -> nat {
        count_families(self.locals, b)
    }

    /// Well-formedness of the heap.
    ///
    /// - A block is freed the moment its weak count reaches zero, so a live
    ///   block always holds at least one weak unit; while the strong side
    ///   is alive that unit is the implicit one the strong side owns.
    /// - A weak observer only ever attaches to a block whose value is alive,
    ///   so whenever the strong side is alive and some weak observer exists
    ///   besides the implicit unit, the value is present.
    /// - Each live thread family owns one unit of its block's atomic count,
    ///   so the atomic count bounds the number of families from above.
    /// - A live thread-local counter counts at least one owning pointer and
    ///   points at a live block whose strong side its family keeps alive.
    pub open spec fn wf(self) -> bool {
        &&& (forall|b: int| #[trigger] self.block_live(b) ==> {
            &&& self.weak_of(b) >= 1
            &&& (self.atomic_of(b) > 0 && self.weak_of(b) >= 2 ==> self.data_of(b) is Some)
            &&& self.families_on(b) <= self.atomic_of(b)
        })
        &&& (forall|l: int| #[trigger] self.local_live(l) ==> {
            &&& self.local_of(l) >= 1
            &&& self.block_live(self.block_of_local(l))
            &&& self.atomic_of(self.block_of_local(l)) >= 1
        })
    }

    pub open spec fn with_block(self, b: int, blk: Option<SharedTrcInternal<T>>) -> StoreView<T> {
        StoreView { blocks: self.blocks.update(b, blk), locals: self.locals }
    }

    pub open spec fn with_local(self, l: int, tr: Option<ThreadRef>) -> StoreView<T> {
        StoreView { blocks: self.blocks, locals: self.locals.update(l, tr) }
    }

    /// Replace the payload of block `b`, leaving both counts alone.
    pub open spec fn with_data(self, b: int, data: Option<T>) -> StoreView<T> {
        let cb = self.block_at(b);
        self.with_block(
            b,
            Some(SharedTrcInternal { atomicref: cb.atomicref, weakcount: cb.weakcount, data }),
        )
    }

    /// A fresh owning allocation: one new control block with both counts 1,
    /// and one new thread-local counter at 1 bound to it.
    pub open spec fn alloc_owned_step(self, data: Option<T>) -> StoreView<T> {
        StoreView {
            blocks: self.blocks.push(
                Some(SharedTrcInternal { atomicref: 1, weakcount: 1, data }),
            ),
            locals: self.locals.push(
                Some(ThreadRef { block: self.blocks.len() as usize, count: 1 }),
            ),
        }
    }

    /// A fresh block that is already expired: no strong side, one weak unit,
    /// no value.
    pub open spec fn alloc_expired_step(self) -> StoreView<T> {
        StoreView {
            blocks: self.blocks.push(
                Some(SharedTrcInternal { atomicref: 0, weakcount: 1, data: None }),
            ),
            locals: self.locals,
        }
    }

    /// One more owning pointer in the family of counter `l`.
    pub open spec fn clone_local_step(self, l: int) -> StoreView<T> {
        let tr = self.local_at(l);
        self.with_local(l, Some(ThreadRef { block: tr.block, count: (tr.count + 1) as u64 }))
    }

    /// One more unit of the atomic count of block `b`.
    pub open spec fn share_step(self, b: int) -> StoreView<T> {
        let cb = self.block_at(b);
        self.with_block(
            b,
            Some(SharedTrcInternal {
                atomicref: (cb.atomicref + 1) as u64,
                weakcount: cb.weakcount,
                data: cb.data,
            }),
        )
    }

    /// One more unit of the weak count of block `b`.
    pub open spec fn weak_inc_step(self, b: int) -> StoreView<T> {
        let cb = self.block_at(b);
        self.with_block(
            b,
            Some(SharedTrcInternal {
                atomicref: cb.atomicref,
                weakcount: (cb.weakcount + 1) as u64,
                data: cb.data,
            }),
        )
    }

    /// A fresh thread-local counter at 1 bound to block `b`.
    pub open spec fn attach_local_step(self, b: int) -> StoreView<T> {
        StoreView {
            blocks: self.blocks,
            locals: self.locals.push(Some(ThreadRef { block: b as usize, count: 1 })),
        }
    }

    /// Drop one weak unit of block `b`; the unit that brings the count to
    /// zero frees the block itself.
    pub open spec fn weak_dec_step(self, b: int) -> StoreView<T> {
        let cb = self.block_at(b);
        if cb.weakcount > 1 {
            self.with_block(
                b,
                Some(SharedTrcInternal {
                    atomicref: cb.atomicref,
                    weakcount: (cb.weakcount - 1) as u64,
                    data: cb.data,
                }),
            )
        } else {
            self.with_block(b, None)
        }
    }

    /// Drop one unit of the atomic count of block `b`; the unit that brings
    /// the count to zero destroys the value and releases the implicit weak
    /// unit through the ordinary weak path.
    pub open spec fn strong_dec_step(self, b: int) -> StoreView<T> {
        let cb = self.block_at(b);
        if cb.atomicref > 1 {
            self.with_block(
                b,
                Some(SharedTrcInternal {
                    atomicref: (cb.atomicref - 1) as u64,
                    weakcount: cb.weakcount,
                    data: cb.data,
                }),
            )
        } else {
            self.with_block(
                b,
                Some(SharedTrcInternal { atomicref: 0, weakcount: cb.weakcount, data: None }),
            ).weak_dec_step(b)
        }
    }

    /// What a strong release of block `b` hands back: the value leaves with
    /// the unit that brings the atomic count to zero, and only with it.
    pub open spec fn strong_released_value(self, b: int) -> Option<T> {
        if self.atomic_of(b) == 1 {
            self.data_of(b)
        } else {
            None
        }
    }

    /// Drop one owning pointer of the family of counter `l`; the last one
    /// frees the counter and releases the family's unit of the atomic count.
    pub open spec fn release_local_step(self, l: int) -> StoreView<T> {
        let tr = self.local_at(l);
        if tr.count > 1 {
            self.with_local(l, Some(ThreadRef { block: tr.block, count: (tr.count - 1) as u64 }))
        } else {
            self.with_local(l, None).strong_dec_step(tr.block as int)
        }
    }

    /// What releasing one owning pointer of family `l` hands back.
    pub open spec fn released_value(self, l: int) -> Option<T> {
        if self.local_of(l) == 1 {
            self.strong_released_value(self.block_of_local(l))
        } else {
            None
        }
    }

    /// Complete a cyclic construction on block `b`: the value is written in
    /// place, the strong side comes alive with one atomic unit and its
    /// implicit weak unit, and a fresh thread-local counter at 1 is bound
    /// to the block.
    pub open spec fn finish_cyclic_step(self, b: int, value: T) -> StoreView<T> {
        self.with_block(
            b,
            Some(SharedTrcInternal {
                atomicref: 1,
                weakcount: (self.weak_of(b) + 1) as u64,
                data: Some(value),
            }),
        ).attach_local_step(b)
    }
}

pub proof fn lemma_weak_dec_wf<T>(v: StoreView<T>, b: int)
    requires
        v.wf(),
        v.block_live(b),
        v.weak_of(b) >= 1,
        v.atomic_of(b) > 0 ==> v.weak_of(b) >= 2,
    ensures
        v.weak_dec_step(b).wf(),
{
    let w = v.weak_dec_step(b);
    assert forall|b2: int| #[trigger] w.block_live(b2) implies {
        &&& w.weak_of(b2) >= 1
        &&& (w.atomic_of(b2) > 0 && w.weak_of(b2) >= 2 ==> w.data_of(b2) is Some)
        &&& w.families_on(b2) <= w.atomic_of(b2)
    } by {
        assert(v.block_live(b2));
    }
    assert forall|l: int| #[trigger] w.local_live(l) implies {
        &&& w.local_of(l) >= 1
        &&& w.block_live(w.block_of_local(l))
        &&& w.atomic_of(w.block_of_local(l)) >= 1
    } by {
        assert(v.local_live(l));
        assert(v.block_live(v.block_of_local(l)));
    }
}

pub proof fn lemma_strong_dec_wf<T>(v: StoreView<T>, b: int)
    requires
        v.wf(),
        v.block_live(b),
        v.atomic_of(b) >= 1,
        v.families_on(b) < v.atomic_of(b),
    ensures
        v.strong_dec_step(b).wf(),
{
    if v.atomic_of(b) > 1 {
        let w = v.strong_dec_step(b);
        assert forall|b2: int| #[trigger] w.block_live(b2) implies {
            &&& w.weak_of(b2) >= 1
            &&& (w.atomic_of(b2) > 0 && w.weak_of(b2) >= 2 ==> w.data_of(b2) is Some)
            &&& w.families_on(b2) <= w.atomic_of(b2)
        } by {
            assert(v.block_live(b2));
        }
        assert forall|l: int| #[trigger] w.local_live(l) implies {
            &&& w.local_of(l) >= 1
            &&& w.block_live(w.block_of_local(l))
            &&& w.atomic_of(w.block_of_local(l)) >= 1
        } by {
            assert(v.local_live(l));
            assert(v.block_live(v.block_of_local(l)));
        }
    } else {
        // The last strong unit leaves: no family is bound to `b` any more,
        // so destroying the value and the implicit weak unit is safe.
        let m = v.with_block(
            b,
            Some(SharedTrcInternal { atomicref: 0, weakcount: v.weak_of(b), data: None }),
        );
        assert(v.families_on(b) == 0);
        assert forall|b2: int| #[trigger] m.block_live(b2) implies {
            &&& m.weak_of(b2) >= 1
            &&& (m.atomic_of(b2) > 0 && m.weak_of(b2) >= 2 ==> m.data_of(b2) is Some)
            &&& m.families_on(b2) <= m.atomic_of(b2)
        } by {
            assert(v.block_live(b2));
        }
        assert forall|l: int| #[trigger] m.local_live(l) implies {
            &&& m.local_of(l) >= 1
            &&& m.block_live(m.block_of_local(l))
            &&& m.atomic_of(m.block_of_local(l)) >= 1
        } by {
            assert(v.local_live(l));
            assert(v.block_live(v.block_of_local(l)));
            if v.block_of_local(l) == b {
                lemma_count_at_least_one(v.locals, l, b);
            }
        }
        assert(m.wf());
        lemma_weak_dec_wf(m, b);
        assert(v.strong_dec_step(b) == m.weak_dec_step(b));
    }
}

pub proof fn lemma_release_local_wf<T>(v: StoreView<T>, l: int)
    requires
        v.wf(),
        v.local_live(l),
    ensures
        v.release_local_step(l).wf(),
{
    let tr = v.local_at(l);
    let b = tr.block as int;
    assert(v.block_live(b));
    if tr.count > 1 {
        let w = v.release_local_step(l);
        assert forall|b2: int| #[trigger] w.block_live(b2) implies {
            &&& w.weak_of(b2) >= 1
            &&& (w.atomic_of(b2) > 0 && w.weak_of(b2) >= 2 ==> w.data_of(b2) is Some)
            &&& w.families_on(b2) <= w.atomic_of(b2)
        } by {
            assert(v.block_live(b2));
            lemma_count_update(
                v.locals,
                l,
                Some(ThreadRef { block: tr.block, count: (tr.count - 1) as u64 }),
                b2,
            );
        }
        assert forall|k: int| #[trigger] w.local_live(k) implies {
            &&& w.local_of(k) >= 1
            &&& w.block_live(w.block_of_local(k))
            &&& w.atomic_of(w.block_of_local(k)) >= 1
        } by {
            assert(v.local_live(k));
        }
    } else {
        let m = v.with_local(l, None);
        assert forall|b2: int| #[trigger] m.block_live(b2) implies {
            &&& m.weak_of(b2) >= 1
            &&& (m.atomic_of(b2) > 0 && m.weak_of(b2) >= 2 ==> m.data_of(b2) is Some)
            &&& m.families_on(b2) <= m.atomic_of(b2)
        } by {
            assert(v.block_live(b2));
            lemma_count_update(v.locals, l, None, b2);
        }
        assert forall|k: int| #[trigger] m.local_live(k) implies {
            &&& m.local_of(k) >= 1
            &&& m.block_live(m.block_of_local(k))
            &&& m.atomic_of(m.block_of_local(k)) >= 1
        } by {
            assert(v.local_live(k));
        }
        assert(m.wf());
        lemma_count_update(v.locals, l, None, b);
        assert(m.families_on(b) + 1 == v.families_on(b));
        assert(v.families_on(b) <= v.atomic_of(b));
        lemma_strong_dec_wf(m, b);
    }
}

pub proof fn lemma_clone_local_wf<T>(v: StoreView<T>, l: int)
    requires
        v.wf(),
        v.local_live(l),
        v.local_of(l) < u64::MAX,
    ensures
        v.clone_local_step(l).wf(),
{
    let tr = v.local_at(l);
    let w = v.clone_local_step(l);
    assert forall|b2: int| #[trigger] w.block_live(b2) implies {
        &&& w.weak_of(b2) >= 1
        &&& (w.atomic_of(b2) > 0 && w.weak_of(b2) >= 2 ==> w.data_of(b2) is Some)
        &&& w.families_on(b2) <= w.atomic_of(b2)
    } by {
        assert(v.block_live(b2));
        lemma_count_update(
            v.locals,
            l,
            Some(ThreadRef { block: tr.block, count: (tr.count + 1) as u64 }),
            b2,
        );
    }
    assert forall|k: int| #[trigger] w.local_live(k) implies {
        &&& w.local_of(k) >= 1
        &&& w.block_live(w.block_of_local(k))
        &&& w.atomic_of(w.block_of_local(k)) >= 1
    } by {
        assert(v.local_live(k));
    }
}

pub proof fn lemma_share_wf<T>(v: StoreView<T>, b: int)
    requires
        v.wf(),
        v.block_live(b),
        v.atomic_of(b) >= 1,
        v.atomic_of(b) < u64::MAX,
    ensures
        v.share_step(b).wf(),
{
    let w = v.share_step(b);
    assert forall|b2: int| #[trigger] w.block_live(b2) implies {
        &&& w.weak_of(b2) >= 1
        &&& (w.atomic_of(b2) > 0 && w.weak_of(b2) >= 2 ==> w.data_of(b2) is Some)
        &&& w.families_on(b2) <= w.atomic_of(b2)
    } by {
        assert(v.block_live(b2));
    }
    assert forall|l: int| #[trigger] w.local_live(l) implies {
        &&& w.local_of(l) >= 1
        &&& w.block_live(w.block_of_local(l))
        &&& w.atomic_of(w.block_of_local(l)) >= 1
    } by {
        assert(v.local_live(l));
        assert(v.block_live(v.block_of_local(l)));
    }
}

pub proof fn lemma_weak_inc_wf<T>(v: StoreView<T>, b: int)
    requires
        v.wf(),
        v.block_live(b),
        v.weak_of(b) < u64::MAX,
        v.atomic_of(b) > 0 ==> v.data_of(b) is Some,
    ensures
        v.weak_inc_step(b).wf(),
{
    let w = v.weak_inc_step(b);
    assert forall|b2: int| #[trigger] w.block_live(b2) implies {
        &&& w.weak_of(b2) >= 1
        &&& (w.atomic_of(b2) > 0 && w.weak_of(b2) >= 2 ==> w.data_of(b2) is Some)
        &&& w.families_on(b2) <= w.atomic_of(b2)
    } by {
        assert(v.block_live(b2));
    }
    assert forall|l: int| #[trigger] w.local_live(l) implies {
        &&& w.local_of(l) >= 1
        &&& w.block_live(w.block_of_local(l))
        &&& w.atomic_of(w.block_of_local(l)) >= 1
    } by {
        assert(v.local_live(l));
        assert(v.block_live(v.block_of_local(l)));
    }
}

pub proof fn lemma_attach_wf<T>(v: StoreView<T>, b: int)
    requires
        v.wf(),
        v.block_live(b),
        0 <= b <= usize::MAX,
        v.atomic_of(b) >= v.families_on(b) + 1,
        v.atomic_of(b) > 0 ==> v.data_of(b) is Some,
    ensures
        v.attach_local_step(b).wf(),
{
    let w = v.attach_local_step(b);
    assert forall|b2: int| #[trigger] w.block_live(b2) implies {
        &&& w.weak_of(b2) >= 1
        &&& (w.atomic_of(b2) > 0 && w.weak_of(b2) >= 2 ==> w.data_of(b2) is Some)
        &&& w.families_on(b2) <= w.atomic_of(b2)
    } by {
        assert(v.block_live(b2));
        lemma_count_push(v.locals, Some(ThreadRef { block: b as usize, count: 1 }), b2);
    }
    assert forall|l: int| #[trigger] w.local_live(l) implies {
        &&& w.local_of(l) >= 1
        &&& w.block_live(w.block_of_local(l))
        &&& w.atomic_of(w.block_of_local(l)) >= 1
    } by {
        if l < v.locals.len() {
            assert(v.local_live(l));
            assert(v.block_live(v.block_of_local(l)));
        }
    }
}

pub proof fn lemma_alloc_expired_wf<T>(v: StoreView<T>)
    requires
        v.wf(),
    ensures
        v.alloc_expired_step().wf(),
{
    let w = v.alloc_expired_step();
    let nb = v.blocks.len() as int;
    assert forall|b2: int| #[trigger] w.block_live(b2) implies {
        &&& w.weak_of(b2) >= 1
        &&& (w.atomic_of(b2) > 0 && w.weak_of(b2) >= 2 ==> w.data_of(b2) is Some)
        &&& w.families_on(b2) <= w.atomic_of(b2)
    } by {
        if b2 == nb {
            assert forall|k: int| 0 <= k < v.locals.len()
                implies #[trigger] fam_contrib(v.locals[k], b2) == 0 by {
                if v.locals[k] is Some {
                    assert(v.local_live(k));
                }
            }
            lemma_count_zero(v.locals, b2);
        } else {
            assert(v.block_live(b2));
        }
    }
    assert forall|l: int| #[trigger] w.local_live(l) implies {
        &&& w.local_of(l) >= 1
        &&& w.block_live(w.block_of_local(l))
        &&& w.atomic_of(w.block_of_local(l)) >= 1
    } by {
        assert(v.local_live(l));
        assert(v.block_live(v.block_of_local(l)));
    }
}

pub proof fn lemma_set_data_wf<T>(v: StoreView<T>, b: int, data: Option<T>)
    requires
        v.wf(),
        v.block_live(b),
        data is Some,
    ensures
        v.with_data(b, data).wf(),
{
    let w = v.with_data(b, data);
    assert forall|b2: int| #[trigger] w.block_live(b2) implies {
        &&& w.weak_of(b2) >= 1
        &&& (w.atomic_of(b2) > 0 && w.weak_of(b2) >= 2 ==> w.data_of(b2) is Some)
        &&& w.families_on(b2) <= w.atomic_of(b2)
    } by {
        assert(v.block_live(b2));
    }
    assert forall|l: int| #[trigger] w.local_live(l) implies {
        &&& w.local_of(l) >= 1
        &&& w.block_live(w.block_of_local(l))
        &&& w.atomic_of(w.block_of_local(l)) >= 1
    } by {
        assert(v.local_live(l));
        assert(v.block_live(v.block_of_local(l)));
    }
}

pub proof fn lemma_alloc_owned_wf<T>(v: StoreView<T>, data: Option<T>)
    requires
        v.wf(),
        v.blocks.len() <= usize::MAX,
    ensures
        v.alloc_owned_step(data).wf(),
{
    let w = v.alloc_owned_step(data);
    let nb = v.blocks.len() as int;
    let ntr = ThreadRef { block: v.blocks.len() as usize, count: 1 };
    assert forall|b2: int| #[trigger] w.block_live(b2) implies {
        &&& w.weak_of(b2) >= 1
        &&& (w.atomic_of(b2) > 0 && w.weak_of(b2) >= 2 ==> w.data_of(b2) is Some)
        &&& w.families_on(b2) <= w.atomic_of(b2)
    } by {
        lemma_count_push(v.locals, Some(ntr), b2);
        if b2 == nb {
            assert forall|k: int| 0 <= k < v.locals.len()
                implies #[trigger] fam_contrib(v.locals[k], b2) == 0 by {
                if v.locals[k] is Some {
                    assert(v.local_live(k));
                }
            }
            lemma_count_zero(v.locals, b2);
        } else {
            assert(v.block_live(b2));
        }
    }
    assert forall|k: int| #[trigger] w.local_live(k) implies {
        &&& w.local_of(k) >= 1
        &&& w.block_live(w.block_of_local(k))
        &&& w.atomic_of(w.block_of_local(k)) >= 1
    } by {
        if k < v.locals.len() {
            assert(v.local_live(k));
            assert(v.block_live(v.block_of_local(k)));
        }
    }
}

pub proof fn lemma_finish_cyclic_wf<T>(v: StoreView<T>, b: int, value: T)
    requires
        v.wf(),
        v.block_live(b),
        v.atomic_of(b) == 0,
        v.weak_of(b) < u64::MAX,
        0 <= b <= usize::MAX,
    ensures
        v.finish_cyclic_step(b, value).wf(),
{
    let m = v.with_block(
        b,
        Some(SharedTrcInternal {
            atomicref: 1,
            weakcount: (v.weak_of(b) + 1) as u64,
            data: Some(value),
        }),
    );
    assert(v.families_on(b) == 0);
    assert forall|b2: int| #[trigger] m.block_live(b2) implies {
        &&& m.weak_of(b2) >= 1
        &&& (m.atomic_of(b2) > 0 && m.weak_of(b2) >= 2 ==> m.data_of(b2) is Some)
        &&& m.families_on(b2) <= m.atomic_of(b2)
    } by {
        assert(v.block_live(b2));
    }
    assert forall|l: int| #[trigger] m.local_live(l) implies {
        &&& m.local_of(l) >= 1
        &&& m.block_live(m.block_of_local(l))
        &&& m.atomic_of(m.block_of_local(l)) >= 1
    } by {
        assert(v.local_live(l));
        assert(v.block_live(v.block_of_local(l)));
        if v.block_of_local(l) == b {
            lemma_count_at_least_one(v.locals, l, b);
        }
    }
    assert(m.wf());
    lemma_attach_wf(m, b);
}

/// Allocate a fresh control block with both counts at 1 holding `data`, and
/// a fresh thread-local counter at 1 bound to it; the two new slot indices
/// come back as `(block, local)`.
pub(crate) fn alloc_owned<T>(store: &mut Store<T>, data: Option<T>) -> (ids: (usize, usize))
    requires
        old(store)@.wf(),
    ensures
        final(store)@ == old(store)@.alloc_owned_step(data),
        final(store)@.wf(),
        ids.0 == old(store)@.blocks.len(),
        ids.1 == old(store)@.locals.len(),
{
    let b = store.blocks.len();
    proof {
        lemma_alloc_owned_wf(old(store)@, data);
    }
    store.blocks.push(Some(SharedTrcInternal { atomicref: 1, weakcount: 1, data }));
    let l = store.locals.len();
    store.locals.push(Some(ThreadRef { block: b, count: 1 }));
    assert(store@ =~= old(store)@.alloc_owned_step(data));
    (b, l)
}

impl<T> Store<T> {
    /// An empty heap: no control blocks, no thread-local counters.
    pub fn new() -> (r: Store<T>)
        ensures
            r@.blocks == Seq::<Option<SharedTrcInternal<T>>>::empty(),
            r@.locals == Seq::<Option<ThreadRef>>::empty(),
            r@.wf(),
    {
        Store { blocks: Vec::new(), locals: Vec::new() }
    }
}

/// Counter bump in the style of a fetch-and-add: adds `offset` and returns
/// the previous value.
pub fn sum_value(value: &mut u64, offset: u64) -> (prev: u64)
    requires
        *old(value) + offset <= u64::MAX,
    ensures
        prev == *old(value),
        *final(value) == *old(value) + offset,
{
    let prev: u64 = *value;
    *value = prev + offset;
    prev
}

/// Counter drop in the style of a fetch-and-sub: subtracts `offset` and
/// returns the previous value.
pub fn sub_value(value: &mut u64, offset: u64) -> (prev: u64)
    requires
        offset <= *old(value),
    ensures
        prev == *old(value),
        *final(value) == *old(value) - offset,
{
    let prev: u64 = *value;
    *value = prev - offset;
    prev
}

/// Release one weak unit of block `b`.  While the strong side is alive its
/// implicit unit must stay behind, so the caller guarantees a second unit in
/// that case; the block itself is freed exactly when the count reaches zero.
pub(crate) fn weak_release<T>(store: &mut Store<T>, b: usize) -> (freed: bool)
    requires
        old(store)@.wf(),
        old(store)@.block_live(b as int),
        old(store)@.weak_of(b as int) >= 1,
        old(store)@.atomic_of(b as int) > 0 ==> old(store)@.weak_of(b as int) >= 2,
    ensures
        final(store)@ == old(store)@.weak_dec_step(b as int),
        final(store)@.wf(),
        freed == (old(store)@.weak_of(b as int) == 1),
{
    proof {
        lemma_weak_dec_wf(old(store)@, b as int);
    }
    let free_block: bool = match &mut store.blocks[b] {
        Some(cb) => {
            if cb.weakcount > 1 {
                sub_value(&mut cb.weakcount, 1);
                false
            } else {
                true
            }
        },
        None => unreached(),
    };
    if free_block {
        store.blocks[b] = None;
    }
    assert(store@ =~= old(store)@.weak_dec_step(b as int));
    free_block
}

/// Release one unit of the atomic count of block `b`.  The unit that brings
/// the count to zero destroys the value in place, hands it back, and lets go
/// of the implicit weak unit through `weak_release`.
pub(crate) fn strong_release<T>(store: &mut Store<T>, b: usize) -> (taken: Option<T>)
    requires
        old(store)@.wf(),
        old(store)@.block_live(b as int),
        old(store)@.atomic_of(b as int) >= 1,
        old(store)@.families_on(b as int) < old(store)@.atomic_of(b as int),
    ensures
        final(store)@ == old(store)@.strong_dec_step(b as int),
        final(store)@.wf(),
        taken == old(store)@.strong_released_value(b as int),
{
    proof {
        lemma_strong_dec_wf(old(store)@, b as int);
    }
    let (taken, last): (Option<T>, bool) = match &mut store.blocks[b] {
        Some(cb) => {
            if cb.atomicref > 1 {
                sub_value(&mut cb.atomicref, 1);
                (None, false)
            } else {
                cb.atomicref = 0;
                let taken: Option<T> = cb.data.take();
                (taken, true)
            }
        },
        None => unreached(),
    };
    if last {
        proof {
            let m = old(store)@.with_block(
                b as int,
                Some(SharedTrcInternal {
                    atomicref: 0,
                    weakcount: old(store)@.weak_of(b as int),
                    data: None,
                }),
            );
            assert(store@ =~= m);
            assert forall|b2: int| #[trigger] m.block_live(b2) implies {
                &&& m.weak_of(b2) >= 1
                &&& (m.atomic_of(b2) > 0 && m.weak_of(b2) >= 2 ==> m.data_of(b2) is Some)
                &&& m.families_on(b2) <= m.atomic_of(b2)
            } by {
                assert(old(store)@.block_live(b2));
            }
            assert forall|l: int| #[trigger] m.local_live(l) implies {
                &&& m.local_of(l) >= 1
                &&& m.block_live(m.block_of_local(l))
                &&& m.atomic_of(m.block_of_local(l)) >= 1
            } by {
                assert(old(store)@.local_live(l));
                assert(old(store)@.block_live(old(store)@.block_of_local(l)));
                if old(store)@.block_of_local(l) == b as int {
                    lemma_count_at_least_one(old(store)@.locals, l, b as int);
                }
            }
            assert(m.wf());
        }
        weak_release(store, b);
        assert(final(store)@ =~= old(store)@.strong_dec_step(b as int));
    } else {
        assert(final(store)@ =~= old(store)@.strong_dec_step(b as int));
    }
    taken
}

/// Release one owning pointer of the family of counter `l`: the last member
/// of the family frees the counter and releases the family's unit of the
/// atomic count.
pub(crate) fn release_local<T>(store: &mut Store<T>, l: usize) -> (taken: Option<T>)
    requires
        old(store)@.wf(),
        old(store)@.local_live(l as int),
    ensures
        final(store)@ == old(store)@.release_local_step(l as int),
        final(store)@.wf(),
        taken == old(store)@.released_value(l as int),
{
    proof {
        lemma_release_local_wf(old(store)@, l as int);
    }
    let tr: ThreadRef = store.locals[l].unwrap();
    if tr.count > 1 {
        store.locals[l] = Some(ThreadRef { block: tr.block, count: tr.count - 1 });
        assert(store@ =~= old(store)@.release_local_step(l as int));
        None
    } else {
        store.locals[l] = None;
        proof {
            let m = old(store)@.with_local(l as int, None);
            assert(store@ =~= m);
            assert forall|b2: int| #[trigger] m.block_live(b2) implies {
                &&& m.weak_of(b2) >= 1
                &&& (m.atomic_of(b2) > 0 && m.weak_of(b2) >= 2 ==> m.data_of(b2) is Some)
                &&& m.families_on(b2) <= m.atomic_of(b2)
            } by {
                assert(old(store)@.block_live(b2));
                lemma_count_update(old(store)@.locals, l as int, None, b2);
            }
            assert forall|k: int| #[trigger] m.local_live(k) implies {
                &&& m.local_of(k) >= 1
                &&& m.block_live(m.block_of_local(k))
                &&& m.atomic_of(m.block_of_local(k)) >= 1
            } by {
                assert(old(store)@.local_live(k));
            }
            assert(m.wf());
            assert(old(store)@.block_live(tr.block as int));
            lemma_count_update(old(store)@.locals, l as int, None, tr.block as int);
            assert(m.families_on(tr.block as int) + 1 == old(store)@.families_on(tr.block as int));
        }
        let taken = strong_release(store, tr.block);
        assert(final(store)@ =~= old(store)@.release_local_step(l as int));
        taken
    }
}

} // verus!
