//! Verified core of a bridge between a host program and a native,
//! thread-pool-based parallel-execution runtime.
//!
//! The crate has two halves:
//!
//! * a process-wide runtime lifecycle state machine (`lifecycle`), which
//!   decides which bootstrap / shutdown transitions are legal, and
//! * the algorithm bridge (`copying`, `querying`, `sorting`, `merging`):
//!   the data-parallel sequence operations the runtime offers, stated and
//!   proved over mathematical sequences.
//!
//! A sequence view — a non-owning pointer-plus-length descriptor over a
//! host-owned buffer of fixed-width integers — is here simply a borrowed
//! slice or vector: the borrow checker supplies the validity and
//! exclusive-access invariants the bridge needs, and the view's
//! mathematical content is its `Seq<i32>` abstraction, which every
//! contract speaks of. Host-supplied predicates and comparators cross the
//! bridge under the purity discipline of `callbacks`.

pub mod callbacks;
pub mod copying;
pub mod errors;
pub mod lifecycle;
pub mod merging;
pub mod querying;
pub mod seq_facts;
pub mod sorting;

pub use copying::copy_if;
pub use copying::copy_if_divisiblileityby3;
pub use copying::copy_n;
pub use copying::copy_vector;
pub use copying::fill;
pub use errors::HpxError;
pub use lifecycle::Lifecycle;
pub use lifecycle::RuntimeState;
pub use merging::merge;
pub use querying::count;
pub use querying::count_if;
pub use querying::ends_with;
pub use querying::equal;
pub use querying::find;
pub use querying::find_index;
pub use sorting::partial_sort;
pub use sorting::partial_sort_by;
pub use sorting::sort;
pub use sorting::sort_by;
