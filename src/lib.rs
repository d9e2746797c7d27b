//! Supervision core for a blockchain node daemon and the chain indexer that
//! depends on it: bounded output queues, sync detection, RPC credential and
//! reply handling, shutdown timing, launch decisions, binary updates, and
//! the block height as displayed.

pub mod config;
pub mod display;
pub mod process;
pub mod queue;
pub mod rpc;
pub mod supervisor;
pub mod sync;
pub mod text;
pub mod updater;
