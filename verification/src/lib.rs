//! Verified state logic of a Cardano node's governance and UTxO modules.

pub mod types;
pub mod accounts;
pub mod cred_map;
pub mod messages;
pub mod drep_state;
pub mod ordered_keys;
pub mod synchronization;
pub mod governance;
pub mod drep_module;
pub mod state_history;
pub mod distribution_history;
pub mod text;
pub mod rest;
pub mod laws;
