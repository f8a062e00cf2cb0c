//! A keyed collection store: an ordered sequence of `(key, value)` counter
//! entries with append, in-place increment by key, removal by key, and
//! point-in-time snapshots.
//!
//! Keys are issued by a monotonically increasing generator owned by the
//! store, so a key is never reused, even after its entry is removed. This
//! gives every entry a stable identity across arbitrary interleavings of
//! mutations, which is what lets an observer (such as a rendering layer)
//! patch only the entries that actually changed.

pub mod laws;
pub mod store;
