//! A minimal account/credential service with address-usage tracking.
//!
//! Users register and authenticate with a username/password pair; the
//! password is stored as a salted SHA-512 crypt digest.  Independently,
//! every recorded delivery address is counted, and the least-used
//! addresses of a user can be queried in ascending order of use.

pub mod hashing;
pub mod laws;
pub mod store;
pub mod strutil;
