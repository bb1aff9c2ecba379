//! Data layer for a real-time-safe audio disk-streaming engine.
//!
//! A non-real-time worker reads ahead from a file and keeps a lookahead
//! window of decoded sample blocks and a set of warm seek-point caches
//! filled, while a real-time consumer rotates ready blocks out of the
//! window and reads them through short-lived read-only views, without
//! ever allocating or blocking on its hot path.

pub mod block;
pub mod heap;
pub mod read_view;
pub mod window;
