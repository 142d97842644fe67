//! A verified session core for a branching-dialogue scripting engine.
//!
//! The library drives an external dialogue interpreter one step at a time
//! through a host-owned loop: it classifies the events each pump yields,
//! routes commands to registered handlers, notifies an event sink, and
//! enforces the run/pause/select/resume protocol. Beside the session
//! controller stand the two adapters the interpreter calls back into: a
//! name-validated variable store with change notification, and a localized
//! text provider with a fallback chain.

pub mod values;
pub mod store;
pub mod table;
pub mod localization;
pub mod text_provider;
pub mod events;
pub mod runner;
pub mod loader;
pub mod script_functions;
pub mod diagnostics;

