//! The project's own build tasks: what they check, what they say, and what
//! they write.

pub mod build_agents;
pub mod build_release;
pub mod demo;
pub mod demo_phase_6;
pub mod preflight;
