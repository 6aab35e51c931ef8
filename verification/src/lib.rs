//! A model of a biased reference-counted smart pointer, verified with Verus.
//!
//! The design keeps two counts per shared allocation: a cheap thread-local
//! count for clones within one thread, and an atomic count that only changes
//! when ownership crosses a thread boundary.  Three handle types cooperate on
//! one control block: the owning pointer `Trc`, the transfer handle
//! `SharedTrc` that moves ownership between threads, and the non-owning
//! `Weak` observer.
//!
//! Machine addresses and atomic instructions are beyond what the verifier
//! can look into, so the heap is made explicit: a `Store` holds every
//! control block and every thread-local counter, handles hold slot indices,
//! and each operation of the protocol is a verified function on the store
//! whose contract states exactly how the counts move and when the value and
//! the block are freed.

/// The explicit heap: control blocks, thread-local counters, the
/// well-formedness invariant, and the release machinery all handles share.
pub mod store;

/// The owning pointer `Trc`.
pub mod strong;

/// The transfer handle `SharedTrc`.
pub mod shared;

/// The weak observer `Weak`.
pub mod weak;

/// Deferred initialization: scalar and sequence blocks allocated before
/// their values, and the two-phase cyclic construction.
pub mod uninit;

/// The laws of the protocol, proved once and for all over the heap model:
/// clone/drop balance, the cross-thread round trip, failure of upgrades
/// after the last drop, the exclusive-mutation gate, the single-winner
/// claim, and identity against value equality.
pub mod laws;

pub use store::MAX_REFCOUNT;
pub use store::SharedTrcInternal;
pub use store::Store;
pub use store::StoreView;
pub use store::ThreadRef;
pub use store::sub_value;
pub use store::sum_value;
pub use strong::Trc;
pub use shared::SharedTrc;
pub use weak::Weak;
pub use uninit::CyclicBuilder;
pub use uninit::UninitSliceTrc;
pub use uninit::UninitTrc;
