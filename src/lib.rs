//! A small greeting server's verified core.
//!
//! `pool` holds the scheduling state of a fixed-size worker pool: how many
//! workers run and the first-in first-out queue of jobs waiting for them.
//! `http` turns the bytes of a request into the bytes of its JSON greeting.
//! Sockets, threads and the Python binding live outside this crate and drive
//! both.

pub mod http;
pub mod pool;
