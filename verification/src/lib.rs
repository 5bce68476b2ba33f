//! Core logic of the PezMax desktop client: navigation state, menu model,
//! release selection, credential obfuscation, cache layout and the odometer
//! counter, each with machine-checked contracts.

pub mod nav;
pub mod text;
pub mod update;
pub mod distro;
pub mod crypto;
pub mod cache;
pub mod menu;
pub mod layout;
pub mod toggle;
pub mod tree;
pub mod menu_state;
pub mod menu_nodes;
pub mod counter;
pub mod models;
pub mod api;
pub mod toast;
pub mod community;
pub mod contribute;
pub mod forms;
pub mod browse;
pub mod session;
pub mod autostart;
pub mod app_state;
pub mod search;
pub mod loaders;
