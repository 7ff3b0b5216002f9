//! Attribution of desktop notifications to the application windows that
//! produced them, together with the event coordination around it: a
//! process-identity cache keyed by bus sender identity, a parser for
//! per-process records that yields the parent process id, a two-phase
//! window matcher (pid chain first, then application-identifier
//! fallback), and a coordinator that merges notification, window-update
//! and workspace-change events into one consumer feed with deferred
//! activation of the workspace stream.

pub mod ancestry;
pub mod cache;
pub mod events;
pub mod icons;
pub mod layout;
pub mod matching;
pub mod notifications;
pub mod screen;
pub mod settings;
pub mod text;
pub mod windows;
