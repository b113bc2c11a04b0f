//! Farm records kept in stable memory: crops, tasks and expenses.
//!
//! A [`farm::Farm`] owns one allocator of identifiers ([`ids`]) and one typed
//! store ([`store`]) for each kind of record. A record ([`record`]) is kept as
//! bytes ([`codec`]) of at most 1024 bytes. The operations on the farm are in
//! [`crops`], [`tasks`], [`expenses`], [`reports`] and [`rotation`]; what
//! holds of them taken together is in [`laws`]. The stable-memory structures
//! underneath are in [`stable`].

pub mod codec;
pub mod crop;
pub mod crops;
pub mod error;
pub mod expense;
pub mod expenses;
pub mod farm;
pub mod ids;
pub mod laws;
pub mod record;
pub mod reports;
pub mod rotation;
pub mod stable;
pub mod store;
pub mod task;
pub mod tasks;
pub mod text;
