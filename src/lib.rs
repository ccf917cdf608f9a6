//! Tag records, and the links that apply them to entries, over an append-only graph store.
//!
//! Two trust domains share one store. Private tags are records of their own, created once per
//! value. Public tags are paths under one shared root, published idempotently. Applying a tag to
//! an entry writes a pair of links, tag to entry then entry to tag; removing it tombstones both.
//! The two writes of a pair are separate: a failure between them leaves half a pair, and a batch
//! that fails part way keeps the pairs already written.
pub mod dedup;
pub mod indices;
pub mod laws;
pub mod private;
pub mod public;
pub mod store;
pub mod types;
