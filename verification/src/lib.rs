//! Decision logic of a binaural-beat player: the IPC protocol, configuration
//! validation, preset resolution and the playback state machine.
pub mod text;
pub mod noise;
pub mod ipc;
pub mod document;
pub mod tree;
pub mod config;
pub mod playback;
pub mod audio;
pub mod tui;
pub mod daemon;
