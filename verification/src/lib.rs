//! A service registry with a signed, hash-chained audit log.
//!
//! Parties register a named search service; the service's owner then commits
//! batches of signed activity records, each commit bound to the previous one
//! through the root hash that the caller claims to extend. Every operation is
//! stated over a mathematical view of the two keyed tables and proved against
//! it.
//!
//! Beside the registry stands a staking fixture: the state that staking
//! checks read, its builder, and the plans that drive a chain to a block or a
//! session, all as plain values that are passed in.

pub mod types;
pub mod bytes;
pub mod tags;
pub mod scheme;
pub mod validator;
pub mod ledger;
pub mod registry;
pub mod laws;
pub mod mock;
pub mod genesis;
pub mod session;
pub mod calls;
