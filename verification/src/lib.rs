//! Core of a block-lattice cryptocurrency node: primitives, block types and
//! their binary codec, the ledger state machine (validation, mutation,
//! rollback), the wire message codec, the channel/network manager and the
//! per-connection response server state machine.

pub mod amount;
pub mod auth;
pub mod blocks;
pub mod builders;
pub mod channel;
pub mod epoch;
pub mod hashes;
pub mod kvmap;
pub mod ledger;
pub mod rollback;
pub mod server;
pub mod stats;
pub mod ledger_types;
pub mod limiter;
pub mod messages;
pub mod network;
pub mod validator;
pub mod stream;
pub mod work;
