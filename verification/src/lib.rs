//! A verified model of the Valence session kernel: sessions, capabilities,
//! ordering rules, schedulers, diffs and the function registry.

pub mod pubkey;

pub mod text;
pub mod scheduler;
pub mod error;
pub mod runtime;
pub mod capabilities;
pub mod sessions;
pub mod diff;
pub mod processor;
pub mod state;
pub mod config;
pub mod events;
pub mod functions;
