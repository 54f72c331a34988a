//! Handing owned heap values back to the allocator, one handle at a time or
//! a whole group at once.
//!
//! [`BoxRaw`] is the release capability. It is implemented for an owning
//! handle (`Box<X>`), for tuples of one to twelve releasable values, and for
//! the named wrapper [`BoxRaws`]. Each releasable value lists, in
//! `release_order`, where its handles sit. `clean` returns a [`ReleaseLog`]
//! of the positions of the handles in the order they went back, and its
//! contract says that this is `release_order`. Only the release of a single
//! handle can extend such a record. The lemmas of [`laws`] prove that this
//! order is declaration order and that no handle is given back twice.
pub mod boxraws;
pub mod laws;
pub mod order;
pub mod raw;
pub mod tuples;

pub use boxraws::BoxRaws;
pub use raw::{BoxRaw, ReleaseLog};
