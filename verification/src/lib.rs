//! Core of an audio sample browser: waveform extraction, the playback
//! session state machine, the directory index and the search coordinator.
//!
//! Nothing here touches a device, a file or a clock. A front end performs
//! that work and hands plain values in; the rules live here.

pub mod callback;
pub mod common;
pub mod controller;
pub mod dir_cache;
pub mod file_selector;
pub mod menu;
pub mod player;
pub mod search;
pub mod waveform;
