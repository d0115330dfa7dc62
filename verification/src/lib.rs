//! A token-bucket rate limiter: the bucket arithmetic, the storage backends
//! that keep one bucket per client key, the wrappers that batch and cache in
//! front of a backend, and the facade that turns a backend's answer into an
//! admission decision.
//!
//! Time enters every computation as a number of milliseconds since the Unix
//! epoch. Each operation that reads the clock has a twin with the suffix
//! `_at` that takes the instant as an argument; the contracts of the twins
//! are exact, and the clock-reading functions promise what holds at every
//! instant.

pub mod error;
pub mod time;
pub mod bucket;
pub mod backend;
pub mod memory;
pub mod limiter;
pub mod batching;
pub mod caching;
pub mod distributed;
pub mod service;
pub mod laws;
