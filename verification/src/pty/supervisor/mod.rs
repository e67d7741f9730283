//! The session supervisor: the process that owns a pseudo-terminal and outlives its daemons.

pub mod cleanup_auth;
pub mod client;
pub mod close_client;
pub mod connection;
pub mod daemon_terminal;
pub mod frame_codec;
pub mod launch;
pub mod output_pump;
pub mod output_queue;
pub mod protocol;
pub mod resume;
pub mod runtime_dir;
pub mod screen;
pub mod secure_dir;
pub mod socket_binding;
pub mod startup;
pub mod startup_grant;
pub mod state;
pub mod terminal_attach;
pub mod terminal_journal;
