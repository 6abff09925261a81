//! Core of a small TCP game server: a fixed, versioned, length-prefixed
//! binary message codec, and a worker pool that bounds concurrency and
//! dispatches each submitted job to exactly one worker.

pub mod dispatch;
pub mod id;
pub mod message;
pub mod pool;
pub mod time;
