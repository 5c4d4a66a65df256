//! The core of a UNIX process supervisor, as verified state machines: the
//! command center that owns the services and runs the global lifecycle, the
//! service that keeps a pool of worker slots, the supervisor of one worker,
//! and the length-prefixed JSON protocol between supervisor and worker.
//!
//! Each state machine takes events as plain values and returns the actions
//! that its runtime must perform; nothing here does I/O.

pub mod cmd;
pub mod codec;
pub mod event;
pub mod process;
pub mod protocol;
pub mod service;
