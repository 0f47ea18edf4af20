//! The core of a payment-channel network node.
//!
//! - `channel`: the per-channel state machine: funding, TLCs offered and
//!   received, commitments and shutdown, under the invariant that balances
//!   and TLCs in flight add up to the channel's capacity.
//! - `graph`: the network graph, updated last-writer-wins by timestamp, and
//!   route search whose every route is checked against fees and capacities.
//! - `payment`: payment sessions, from request to a terminal status.
//! - `store`: the prefix-partitioned key-value store, written in batches,
//!   with typed accessors and secondary indices; `keys` holds its key layout.
//! - `network`: the channels a node serves, reached by id, and the reaping
//!   of closed ones into the store.
//! - `rpc`: the parameters and results of the client-facing commands.
//! - `hashing`: the hash functions that payment hashes and channel ids use.

use vstd::prelude::*;

pub mod channel;
pub mod errors;
pub mod graph;
pub mod hashing;
pub mod invoice;
pub mod keys;
pub mod network;
pub mod payment;
pub mod rpc;
pub mod store;
pub mod types;

verus! {

} // verus!
