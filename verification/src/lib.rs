//! A small library behind a system-tray version picker: it encodes catalog
//! entries into menu identifiers, decodes click events back into version
//! labels, keeps the persisted "current version" scalar, and computes the
//! menu state (selected / enabled marks, display text, tooltip) that the
//! host toolkit should show after every event.

pub mod controller;
pub mod ids;
pub mod menu;
pub mod store;
