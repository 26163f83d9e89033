//! Interactive manager for a registry of named remote-connection endpoints.
//!
//! The crate holds the session state machine of a terminal host manager: the
//! free-text connection-spec parser, the bastion-chain resolver with cycle
//! detection, fuzzy ranking of hosts, the multi-field form editor with its
//! embedded bastion picker, bounded undo history, and the mode dispatcher
//! that turns key input into registry mutations and launch directives.

pub mod app;
pub mod bastion;
pub mod errors;
pub mod form;
pub mod fuzzy;
pub mod keys;
pub mod model;
pub mod parser;
pub mod ssh;
pub mod text;
