//! The verified core of a signed object store.
//!
//! Objects are addressed by a name-based identity of their key, kept on a
//! medium that records when each was last accessed, and dropped once they
//! have been idle for longer than the store's time to live. A write is
//! admitted only where its bytes are a message signed by a signer of the
//! keyring.
//!
//! The contracts speak of the medium as a table from object names to objects.
//! `medium::Shelf` is such a table in memory, and `store::Store` works on it
//! with the instant handed in. A medium on disk takes the same decisions from
//! `Store::plan_open`, `Store::plan_sweep` and `store::tally`, and does the
//! reading and writing itself.

pub mod front;
pub mod gate;
pub mod identity;
pub mod laws;
pub mod medium;
pub mod reaper;
pub mod store;
