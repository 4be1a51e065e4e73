//! Handshake codec and lifecycle coordination for a two-process
//! screen-streaming pipeline.
//!
//! A capture-side producer and an encode/publish-side receiver are joined by
//! a byte pipe. This crate holds the parts of that arrangement that decide
//! something: the frame-geometry handshake that opens the pipe, the state
//! machine that carries a running graph from idle to terminated, and the
//! rules by which either end asks the other to stop.

pub mod driver;
pub mod handshake;
pub mod lifecycle;
pub mod shutdown;
pub mod wire;
