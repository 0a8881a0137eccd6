//! Device discovery, hot-plug tracking and key-event normalisation for a
//! daemon that forwards key presses of selected input devices to a
//! notification sink.
//!
//! The library holds the decisions: which configured name a device gets,
//! which raw events become key events, and how the set of live event
//! streams grows and shrinks. Reading devices and sending requests is left
//! to the program around it.

pub mod pattern;
pub mod config;
pub mod matcher;
pub mod hass;
pub mod registry;
