//! A vanity-address search library: parallel-race search for keypairs whose
//! derived public address ends with a requested suffix, with batched
//! persistence of the discovered records and a local backup line format.

pub mod backup;
pub mod batcher;
pub mod errors;
pub mod predicate;
pub mod record;
pub mod search;
pub mod session;
pub mod trial;
