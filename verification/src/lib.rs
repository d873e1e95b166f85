//! Verified core of an MTK device flashing toolkit.
pub mod text;
pub mod num;
pub mod format;
pub mod vars;
pub mod errors;
pub mod gsi;
pub mod detect;
pub mod sparse;
pub mod wipe;
pub mod executor;
pub mod cli;
pub mod mkfs;
pub mod scatter;
pub mod gsi_flow;
pub mod handshake;
pub mod format_run;
