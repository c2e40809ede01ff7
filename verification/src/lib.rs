//! Core logic of a full-screen, multi-monitor launcher overlay: layered
//! configuration resolution, settings parsing and merging, keybind dispatch,
//! button-grid layout, and per-monitor window planning.
//!
//! Everything that reads files, runs loader scripts or talks to the widget
//! toolkit lives outside this crate; the functions here take plain values and
//! return plain values, with contracts stating exactly what they decide.

pub mod content_loader;
pub mod css_provider;
pub mod doc;
pub mod options;
pub mod orchestrator;
pub mod parse;
pub mod resolver;
pub mod ser;
pub mod settings;
pub mod text;
