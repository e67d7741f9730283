//! What callers may rely on, operation by operation: how the results of calls relate to what went before
//! and to the results of other calls.

pub mod activity;
pub mod client;
pub mod closing;
pub mod collections;
pub mod connection;
pub mod daemon;
pub mod frames;
pub mod guard;
pub mod ledger;
pub mod places;
pub mod protocol;
pub mod pty;
pub mod runtime;
pub mod session;
pub mod start;
pub mod state;
pub mod text;
pub mod tmux;
pub mod viewer;
