//! Session kernel of a persistent terminal daemon.

pub mod codec;
pub mod collections;
pub mod laws;
pub mod paths;
pub mod pty;
pub mod runtime;
pub mod session;
pub mod session_ownership;
pub mod text;
