//! The rules of codex-patcher: which upstream source a launcher should run,
//! how a patch stack is ordered and fingerprinted, when a launch may use the
//! network, how launchers are taken over and given back, and how an
//! interrupted operation is resumed.

#![allow(unused_imports)]

pub mod text;
pub mod text_laws;
pub mod outside;
pub mod types;
pub mod config;
pub mod paths;
pub mod windows_paths;
pub mod layout_laws;
pub mod patchset;
pub mod patchset_laws;
pub mod stack_laws;
pub mod byte_order;
pub mod shim;
pub mod state;
pub mod state_laws;
pub mod probe;
pub mod upstream;
pub mod upstream_cache;
pub mod cache_laws;
pub mod upstream_laws;
pub mod resolution_laws;
pub mod source_laws;
pub mod arguments;
pub mod tui;
pub mod screen_laws;
pub mod build;
pub mod update;
pub mod update_laws;
pub mod dispatch;
pub mod launch_laws;
pub mod surface;
pub mod cas;
pub mod journal;
pub mod transactions;
pub mod updater;
pub mod replacement;
pub mod replacement_laws;
pub mod repair;
pub mod repair_session;
pub mod repair_laws;
pub mod export_laws;
pub mod repair_run;
pub mod transaction_laws;
pub mod swap_laws;
pub mod launcher_laws;
pub mod discovery;
pub mod discovery_seeds;
pub mod candidates;
pub mod discovery_laws;
pub mod seed_laws;
pub mod place_laws;
pub mod elevation;
pub mod elevation_laws;
pub mod selection;
pub mod selection_laws;
pub mod setup;
pub mod setup_laws;
pub mod flow_laws;
pub mod report;
pub mod store;
pub mod locking;
pub mod quickstart;
pub mod security;
