//! A confidential-notes service core: pairing-based identity-based encryption
//! and signature checks over BLS12-381, single-use access grants on notes, and
//! a durable queue of deferred jobs.
pub mod bytes;
pub mod curve;
pub mod ibe;
pub mod idmap;
pub mod keys;
pub mod one_time;
pub mod oracle;
pub mod signature;
pub mod stable;
pub mod task;
pub mod timestamp;
pub mod users;
