use vstd::prelude::*;
use vstd::pervasive::unreached;

use crate::store::MAX_REFCOUNT;
use crate::store::Store;
use crate::store::StoreView;
use crate::store::ThreadRef;
use crate::store::alloc_owned;
use crate::store::lemma_finish_cyclic_wf;
use crate::store::lemma_set_data_wf;
use crate::store::release_local;
use crate::store::sum_value;
use crate::strong::Trc;
use crate::weak::Weak;

verus! {

/// An owning pointer whose block has been allocated but whose value has not
/// been written yet.  `write` fills the slot and `assume_init` turns the
/// handle into an ordinary owning pointer; reading before the value is
/// written is not left undefined but ruled out by precondition.
pub struct UninitTrc {
    pub shared: usize,
    pub threadref: usize,
}

impl UninitTrc {
    /// The handle's family is live and bound to a live block; the value may
    /// or may not have been written yet.
    pub open spec fn attached<T>(self, s: StoreView<T>) -> bool {
        &&& s.local_live(self.threadref as int)
        &&& s.block_of_local(self.threadref as int) == self.shared as int
        &&& s.block_live(self.shared as int)
    }

    /// Write the value into the block, replacing whatever was there.
    pub fn write<T>(&self, store: &mut Store<T>, value: T)
        requires
            old(store)@.wf(),
            self.attached(old(store)@),
        ensures
            final(store)@ == old(store)@.with_data(self.shared as int, Some(value)),
            final(store)@.wf(),
            self.attached(final(store)@),
            final(store)@.data_of(self.shared as int) == Some(value),
    {
        proof {
            lemma_set_data_wf(old(store)@, self.shared as int, Some(value));
        }
        match &mut store.blocks[self.shared] {
            Some(cb) => {
                cb.data = Some(value);
            },
            None => unreached(),
        }
        assert(store@ =~= old(store)@.with_data(self.shared as int, Some(value)));
    }

    /// Treat the block as initialized.  What raw memory must leave as the
    /// caller's unchecked obligation is a precondition here, so the
    /// conversion is total on the inputs it admits.
    pub fn assume_init<T>(self, store: &Store<T>) -> (r: Trc)
        requires
            self.attached(store@),
            store@.data_of(self.shared as int) is Some,
        ensures
            r.shared == self.shared,
            r.threadref == self.threadref,
            r.valid(store@),
    {
        Trc { shared: self.shared, threadref: self.threadref }
    }

    /// Drop the handle without ever writing a value: the family's counter
    /// and atomic unit are released exactly as for an ordinary owning
    /// pointer, with nothing to destroy.
    pub fn drop_in<T>(self, store: &mut Store<T>)
        requires
            old(store)@.wf(),
            self.attached(old(store)@),
        ensures
            final(store)@ == old(store)@.release_local_step(self.threadref as int),
            final(store)@.wf(),
    {
        release_local(store, self.threadref);
    }
}

impl Trc {
    /// Allocate a block with both counts at 1 whose value is not written
    /// yet.
    pub fn new_uninit<T>(store: &mut Store<T>) -> (r: UninitTrc)
        requires
            old(store)@.wf(),
        ensures
            final(store)@ == old(store)@.alloc_owned_step(None),
            final(store)@.wf(),
            r.shared == old(store)@.blocks.len(),
            r.threadref == old(store)@.locals.len(),
            r.attached(final(store)@),
            final(store)@.atomic_of(r.shared as int) == 1,
            final(store)@.weak_of(r.shared as int) == 1,
            final(store)@.local_of(r.threadref as int) == 1,
            final(store)@.data_of(r.shared as int) is None,
    {
        let ids = alloc_owned(store, None);
        UninitTrc { shared: ids.0, threadref: ids.1 }
    }
}

/// The elements a partially written sequence holds, once every slot has
/// been written.
pub open spec fn unwrap_all<T>(s: Seq<Option<T>>) -> Seq<T> {
    Seq::new(s.len(), |j: int| s[j].unwrap())
}

/// An owning pointer to a sequence of `len` reserved but unwritten
/// elements.  The handle carries the build buffer; `write` fills one slot,
/// and once every slot is written `assume_init` moves the finished sequence
/// into the block and hands back an ordinary owning pointer.
pub struct UninitSliceTrc<T> {
    pub shared: usize,
    pub threadref: usize,
    pub buf: Vec<Option<T>>,
}

impl<T> UninitSliceTrc<T> {
    /// The handle's family is live and bound to a live block.
    pub open spec fn attached(self, s: StoreView<Vec<T>>) -> bool {
        &&& s.local_live(self.threadref as int)
        &&& s.block_of_local(self.threadref as int) == self.shared as int
        &&& s.block_live(self.shared as int)
    }

    /// How many elements the sequence was allocated for.
    pub fn len(&self) -> (r: usize)
        ensures
            r == self.buf@.len(),
    {
        self.buf.len()
    }

    /// Write one element of the sequence.
    pub fn write(&mut self, i: usize, value: T)
        requires
            i < old(self).buf@.len(),
        ensures
            final(self).shared == old(self).shared,
            final(self).threadref == old(self).threadref,
            final(self).buf@ == old(self).buf@.update(i as int, Some(value)),
    {
        let slot = &mut self.buf[i];
        *slot = Some(value);
    }

    /// Treat every element as written and move the finished sequence into
    /// the block.  The resulting owning pointer reads back exactly the
    /// elements that were written, whatever the length.
    pub fn assume_init(self, store: &mut Store<Vec<T>>) -> (r: Trc)
        requires
            old(store)@.wf(),
            self.attached(old(store)@),
            forall|j: int| 0 <= j < self.buf@.len() ==> (#[trigger] self.buf@[j]) is Some,
        ensures
            r.shared == self.shared,
            r.threadref == self.threadref,
            final(store)@.data_of(r.shared as int) matches Some(out) && out@ == unwrap_all(
                self.buf@,
            ),
            final(store)@ == old(store)@.with_data(
                r.shared as int,
                final(store)@.data_of(r.shared as int),
            ),
            final(store)@.wf(),
            r.valid(final(store)@),
    {
        let UninitSliceTrc { shared, threadref, buf } = self;
        let ghost obuf = buf@;
        let mut buf = buf;
        let mut out: Vec<T> = Vec::new();
        let n = buf.len();
        let mut i: usize = 0;
        while i < n
            invariant
                n == obuf.len(),
                buf@.len() == obuf.len(),
                0 <= i <= n,
                out@.len() == i,
                forall|j: int| i <= j < obuf.len() ==> buf@[j] == obuf[j],
                forall|j: int| 0 <= j < obuf.len() ==> (#[trigger] obuf[j]) is Some,
                forall|j: int| 0 <= j < i ==> out@[j] == (#[trigger] obuf[j]).unwrap(),
            decreases n - i,
        {
            assert(buf@[i as int] == obuf[i as int]);
            assert(obuf[i as int] is Some);
            let slot = &mut buf[i];
            let v: Option<T> = slot.take();
            out.push(v.unwrap());
            i = i + 1;
        }
        assert(out@ =~= unwrap_all(obuf));
        proof {
            lemma_set_data_wf(old(store)@, shared as int, Some(out));
        }
        match &mut store.blocks[shared] {
            Some(cb) => {
                cb.data = Some(out);
            },
            None => unreached(),
        }
        assert(store@ =~= old(store)@.with_data(shared as int, store@.data_of(shared as int)));
        Trc { shared, threadref }
    }

    /// Drop the handle without finishing the sequence: the written elements
    /// go away with the buffer and the family is released as usual.
    pub fn drop_in(self, store: &mut Store<Vec<T>>)
        requires
            old(store)@.wf(),
            self.attached(old(store)@),
        ensures
            final(store)@ == old(store)@.release_local_step(self.threadref as int),
            final(store)@.wf(),
    {
        release_local(store, self.threadref);
    }
}

impl Trc {
    /// Allocate a sequence of `len` reserved, unwritten elements under the
    /// usual header, with both counts at 1.
    pub fn new_uninit_slice<T>(store: &mut Store<Vec<T>>, len: usize) -> (r: UninitSliceTrc<T>)
        requires
            old(store)@.wf(),
        ensures
            final(store)@ == old(store)@.alloc_owned_step(None),
            final(store)@.wf(),
            r.shared == old(store)@.blocks.len(),
            r.threadref == old(store)@.locals.len(),
            r.attached(final(store)@),
            r.buf@.len() == len,
            forall|j: int| 0 <= j < len ==> (#[trigger] r.buf@[j]) is None,
            final(store)@.atomic_of(r.shared as int) == 1,
            final(store)@.weak_of(r.shared as int) == 1,
            final(store)@.local_of(r.threadref as int) == 1,
            final(store)@.data_of(r.shared as int) is None,
    {
        let ids = alloc_owned(store, None);
        let mut buf: Vec<Option<T>> = Vec::new();
        let mut i: usize = 0;
        while i < len
            invariant
                0 <= i <= len,
                buf@.len() == i,
                forall|j: int| 0 <= j < i ==> (#[trigger] buf@[j]) is None,
            decreases len - i,
        {
            buf.push(None);
            i = i + 1;
        }
        UninitSliceTrc { shared: ids.0, threadref: ids.1, buf }
    }

    /// Build an owned sequence from the given elements: the block is
    /// allocated unwritten under the usual header and then populated
    /// element by element.
    pub fn from_slice<T>(store: &mut Store<Vec<T>>, elems: Vec<T>) -> (r: Trc)
        requires
            old(store)@.wf(),
        ensures
            r.shared == old(store)@.blocks.len(),
            r.threadref == old(store)@.locals.len(),
            final(store)@.data_of(r.shared as int) matches Some(out) && out@ == elems@,
            final(store)@ == old(store)@.alloc_owned_step(
                final(store)@.data_of(r.shared as int),
            ),
            final(store)@.wf(),
            r.valid(final(store)@),
            final(store)@.atomic_of(r.shared as int) == 1,
            final(store)@.weak_of(r.shared as int) == 1,
            final(store)@.local_of(r.threadref as int) == 1,
    {
        let ghost src = elems@;
        let mut elems = elems;
        let n = elems.len();
        let mut b = Trc::new_uninit_slice(store, n);
        let ghost mid = store@;
        while elems.len() > 0
            invariant
                store@ == mid,
                mid.wf(),
                b.attached(mid),
                b.shared == old(store)@.blocks.len(),
                b.threadref == old(store)@.locals.len(),
                n == src.len(),
                b.buf@.len() == n,
                elems@.len() <= n,
                elems@ == src.take(elems@.len() as int),
                forall|j: int| elems@.len() <= j < n ==> #[trigger] b.buf@[j] == Some(src[j]),
            decreases elems@.len(),
        {
            let v: T = match elems.pop() {
                Some(v) => v,
                None => unreached(),
            };
            let at = elems.len();
            assert(v == src[at as int]);
            b.write(at, v);
        }
        assert(forall|j: int| 0 <= j < n ==> (#[trigger] b.buf@[j]) is Some);
        let ghost fbuf = b.buf@;
        let r = b.assume_init(store);
        proof {
            assert(unwrap_all(fbuf) =~= src);
            assert(final(store)@ =~= old(store)@.alloc_owned_step(
                final(store)@.data_of(r.shared as int),
            ));
        }
        r
    }
}

/// Token for a cyclic construction in progress: the block exists with its
/// atomic count at zero and no value, so a weak observer of it can already
/// be stored inside the value that is being built, while every upgrade
/// still fails.
pub struct CyclicBuilder {
    pub shared: usize,
}

impl Trc {
    /// Begin a cyclic construction: allocate a block with atomic count 0,
    /// no value, and one weak unit, owned by the weak observer handed back
    /// beside the builder token.
    pub fn new_cyclic_begin<T>(store: &mut Store<T>) -> (r: (CyclicBuilder, Weak))
        requires
            old(store)@.wf(),
        ensures
            final(store)@ == old(store)@.alloc_expired_step(),
            final(store)@.wf(),
            r.0.shared == old(store)@.blocks.len(),
            r.1.data == r.0.shared,
            r.1.valid(final(store)@),
            final(store)@.atomic_of(r.0.shared as int) == 0,
            final(store)@.weak_of(r.0.shared as int) == 1,
            final(store)@.data_of(r.0.shared as int) is None,
            final(store)@.locals == old(store)@.locals,
    {
        let w = Weak::new(store);
        (CyclicBuilder { shared: w.data }, w)
    }

    /// Finish a cyclic construction: write the value, bring the strong side
    /// alive with one atomic unit and its implicit weak unit, and bind a
    /// fresh thread-local counter at 1.  The weak observers taken during
    /// construction can upgrade from this moment on.
    pub fn new_cyclic_finish<T>(builder: CyclicBuilder, store: &mut Store<T>, value: T) -> (r: Trc)
        requires
            old(store)@.wf(),
            old(store)@.block_live(builder.shared as int),
            old(store)@.atomic_of(builder.shared as int) == 0,
            old(store)@.weak_of(builder.shared as int) >= 1,
            old(store)@.weak_of(builder.shared as int) < MAX_REFCOUNT,
        ensures
            final(store)@ == old(store)@.finish_cyclic_step(builder.shared as int, value),
            final(store)@.wf(),
            r.shared == builder.shared,
            r.threadref == old(store)@.locals.len(),
            r.valid(final(store)@),
            final(store)@.atomic_of(r.shared as int) == 1,
            final(store)@.weak_of(r.shared as int)
                == old(store)@.weak_of(r.shared as int) + 1,
            final(store)@.data_of(r.shared as int) == Some(value),
    {
        proof {
            lemma_finish_cyclic_wf(old(store)@, builder.shared as int, value);
        }
        match &mut store.blocks[builder.shared] {
            Some(cb) => {
                cb.atomicref = 1;
                sum_value(&mut cb.weakcount, 1);
                cb.data = Some(value);
            },
            None => unreached(),
        }
        let l = store.locals.len();
        store.locals.push(Some(ThreadRef { block: builder.shared, count: 1 }));
        assert(store@ =~= old(store)@.finish_cyclic_step(builder.shared as int, value));
        Trc { shared: builder.shared, threadref: l }
    }
}

} // verus!
