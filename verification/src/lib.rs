//! Running Flutter apps from an editor: the controls that choose a device and an entry point,
//! the command that runs the app, the search for its Dart VM service, and the panel that shows
//! its log.
//!
//! Nothing here touches a socket, a process, a file or a window. Each operation takes what came
//! in as plain values and returns what to do next as plain values; its contract says exactly
//! which. The program around the library does it and hands back what came of it.

pub mod actions;
pub mod call_laws;
pub mod clock;
pub mod commands;
pub mod connection;
pub mod controls;
pub mod digits;
pub mod dock;
pub mod json;
pub mod log_entry;
pub mod log_view;
pub mod order;
pub mod panel_call_laws;
pub mod panel_history;
pub mod panel_laws;
pub mod panel_model;
pub mod paths;
pub mod targets;
pub mod text;
pub mod text_call_laws;
pub mod uri;
pub mod vm_service;
