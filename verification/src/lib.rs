//! Core of a resource-observation registry for a constrained-device control
//! service: a device state store with tombstone-aware removal, a per-path
//! observer registry with attach/detach lifecycle, the four resource handlers
//! that compose them, and the heartbeat protocol that keeps a subscription
//! alive. Transport binding and process bootstrap live outside this crate.

pub mod codec;
pub mod handlers;
pub mod keymap;
pub mod lifecycle;
pub mod light;
pub mod registry;
pub mod store;
