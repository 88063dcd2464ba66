//! Message lane bridge core: the paired on-ledger lane state machines and
//! the off-ledger relay decisions that keep two independently finalizing
//! chains converging on one ordered message stream.
//!
//! - [`types`] holds the data model: lanes, messages, nonces, headers.
//! - [`policies`] defines the four pluggable capability policies:
//!   message verification, fee and reward payment, and the two
//!   header-chain trust checks.
//! - [`outbound`] and [`inbound`] are the source-side and target-side
//!   halves of a lane, with exactly-once reward and dispatch accounting.
//! - [`scale`] encodes and decodes the byte forms the lanes and the relay
//!   exchange with a chain.
//! - [`relay`] chooses what to relay next and runs the per-direction flow
//!   state machine with its reconnect and retry policy.
//! - [`mock`] is the concrete test bridge pair implementing the policies.
//! - [`session`] is the shift session manager of the test chains.

pub mod inbound;
pub mod mock;
pub mod outbound;
pub mod policies;
pub mod relay;
pub mod scale;
pub mod session;
pub mod types;

