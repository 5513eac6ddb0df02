//! The pending state of a chain whose blocks are streamed in flashblocks.
//!
//! A flashblock is a part of a block that is not complete yet. [`subscription`] decides how a
//! stream of flashblocks is subscribed to, [`state`] what each flashblock and each canonical block
//! makes of what is pending, and [`pending_state`] how a pending state is built, block by block
//! and transaction by transaction. [`pending_blocks`] is the pending state itself, and
//! [`snapshot`] what an RPC reads from it. [`laws`] holds what is true of every pending state
//! that was built.
//!
//! The crate decides and computes. Sockets, clocks, databases and the execution of transactions
//! belong to whoever runs it: they are told what to do next, and say what came of it.

pub mod block;
pub mod error;
pub mod flashblock;
pub mod grouping;
pub mod history;
pub mod laws;
pub mod map;
pub mod metrics;
pub mod overrides;
pub mod payload;
pub mod pending_blocks;
pub mod pending_state;
pub mod primitives;
pub mod receipt;
pub mod snapshot;
pub mod state;
pub mod subscription;
pub mod transaction;
