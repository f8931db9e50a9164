//! A terminal macro tool: configuration, key bindings, macro scheduling and
//! the interactive state, each function with its contract.

pub mod config;
pub mod edit;
pub mod edit_laws;
pub mod engine;
pub mod engine_laws;
pub mod fields;
pub mod flow;
pub mod flow_laws;
pub mod keymap;
pub mod lang;
pub mod laws;
pub mod message_laws;
pub mod random;
pub mod router;
pub mod router_laws;
pub mod screen;
pub mod screen_laws;
pub mod session;
pub mod state;
pub mod text;
pub mod text_laws;
pub mod watcher;
