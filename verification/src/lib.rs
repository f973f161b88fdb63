//! Verified core of a dual-pane, dual-backend save-data manager: cursor and
//! scroll bookkeeping, per-panel navigation stacks fed by a single-occupancy
//! pending slot, a context-sensitive action menu, the backup/restore archive
//! pipeline with exclusion rules, and the device-code authorization state
//! machine. Rendering, input polling and the wire-level cloud transport live
//! outside this crate; they exchange plain values with the functions here.

pub mod input;
pub mod list_state;
pub mod strutil;
pub mod pathutil;
pub mod panel;
pub mod draw;
pub mod menu;
pub mod overlay;
pub mod errors;
pub mod archive;
pub mod codec;
pub mod session;
pub mod coordinator;
pub mod savelist;
pub mod dialog;
pub mod gamemenu;
