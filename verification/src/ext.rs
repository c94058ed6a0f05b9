//! Declarations and contracts of what the library uses from other crates.
//! Nothing here is proved: each contract says what the crate's own source
//! shows.

pub mod array_vec;
pub mod fx_hash;
pub mod shared;
pub mod sum;
pub mod unescape;
