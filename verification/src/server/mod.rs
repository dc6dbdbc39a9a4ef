//! The deployment server: its state, the checks on what hosts send, and the
//! decisions behind the five routes.

pub mod handlers;
pub mod parse;
pub mod state;

pub use state::{AppState, HostEntry, HostStatus};
