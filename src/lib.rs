//! A two-tier allowlist guard: an in-memory Bloom filter that answers
//! "definitely absent" at once, in front of an authoritative store that
//! settles every "possibly present".
pub mod error;
pub mod filter;
pub mod guard;
pub mod laws;
pub mod models;
pub mod seed;
