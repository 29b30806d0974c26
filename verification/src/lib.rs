//! Core library of a terminal resource dashboard and file manager.
//!
//! The library holds the verified logic: turning raw kernel tick counters
//! into bounded usage percentages, keeping rolling histories, classifying
//! directory entries, and driving the navigation / selection / file-operation
//! state machine. Terminal rendering, input handling and all I/O live in the
//! surrounding application, which feeds this library plain values.

pub mod errors;
pub mod filemanage;
pub mod fileview;
pub mod history;
pub mod info;
pub mod mooncell;
pub mod numfmt;
pub mod parse;
pub mod telemetry;

pub use errors::TopError;
