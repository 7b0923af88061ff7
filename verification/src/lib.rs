//! Verified core of a Linktree-like profile registry keyed by account
//! addresses: ENS name hashing, the per-account profile and quick-link
//! stores, and the rules of each operation on them.

pub mod address;
pub mod contract;
pub mod ens;
pub mod keccak;
pub mod laws;
pub mod profile;
pub mod store;

pub use address::Address;
pub use contract::{EnsQuery, Event, Linketh, LinkethError, Linktree, MAX_QUICK_LINKS};
pub use ens::{ens_namehash, namehash};
pub use profile::{Profile, QuickLink};
