//! A fine-grained reactive runtime with hooks keyed by call order, and the
//! pieces of a small desktop UI framework built on it.
//!
//! - [`reactive`]: signals, effects, memos, batching and scopes, in an
//!   explicit runtime.
//! - [`hooks`]: state that a render function keeps across passes.
//! - [`events`]: callbacks by handler id.
//! - [`element`], [`prop_schema`], [`suggestions`], [`markup`]: the element
//!   tree, component properties and the diagnostics about them.
//! - [`shortcut`]: keyboard shortcuts written as text.
//! - [`devtools`], [`devtools_overlay`]: the developer tools panel.
//! - [`render`], [`hot_reload`], [`tray`], [`clipboard`]: render requests and
//!   the data of the desktop integrations.
pub mod clipboard;
pub mod devtools;
pub mod devtools_overlay;
pub mod element;
pub mod events;
pub mod hooks;
pub mod hot_reload;
pub mod markup;
pub mod prop_schema;
pub mod reactive;
pub mod render;
pub mod shortcut;
pub mod suggestions;
pub mod text;
pub mod tray;
