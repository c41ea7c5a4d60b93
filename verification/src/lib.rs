//! Signal paths of a sound-card tone generator and oscilloscope: command
//! records, the tone's phase clock, channel routing, the capture queue,
//! trigger detection and per-channel display windows.
//!
//! Samples and gains are single-precision numbers. Every function here works
//! on their bit patterns with integer arithmetic only, so that each can be
//! stated and proved exactly.

pub mod analyzer;
pub mod capture;
pub mod command;
pub mod datum;
pub mod generator;
pub mod ring;
pub mod route;
pub mod router;
pub mod scalar;
pub mod scope;
pub mod trigger;
pub mod window;
