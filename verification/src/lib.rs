//! Verified core of a terminal "god view": a tiled screen that shows a pty,
//! the Docker engine, listening ports, processes and an SSH fleet at once.
//!
//! The library holds everything that decides or computes. It never touches
//! a socket, a terminal or a clock: those hand it plain values and carry out
//! the plain values it returns.

pub mod app;
pub mod config;
pub mod docker;
pub mod doctor;
pub mod event;
pub mod fleet;
pub mod geometry;
pub mod input;
pub mod keys;
pub mod laws;
pub mod list;
pub mod logs;
pub mod model;
pub mod mouse;
pub mod picker;
pub mod ports;
pub mod promises;
pub mod proto;
pub mod pty;
pub mod scene;
pub mod session;
pub mod status;
pub mod tasks;
pub mod text;
pub mod tile;

pub use config::{resolve_socket_path, TuiConfig};
