//! What the client promises its user: for each thing that can be done with
//! it, what comes of it, said of the bytes that are typed, the rows that are
//! shown and the messages that arrive.

pub mod builds;
pub mod container_tile;
pub mod containers;
pub mod daemon;
pub mod diagnosis;
pub mod emulation;
pub mod errands;
pub mod formats;
pub mod host_tile;
pub mod hosts;
pub mod keyboard;
pub mod lists;
pub mod messages;
pub mod overlays;
pub mod picking;
pub mod pointer;
pub mod probe_tile;
pub mod probes;
pub mod pty_tile;
pub mod runtime;
pub mod screen;
pub mod sessions;
pub mod startup;
pub mod status_view;
pub mod texts;
pub mod tiling;
pub mod time;
pub mod transcripts;
pub mod typing;
pub mod views;
pub mod whole_screen;
