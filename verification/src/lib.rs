//! The backend core of a desktop application: a registry of cancellable
//! background jobs and a bounded, sequence-numbered buffer of log entries.
//!
//! Every type here is a plain value with one owner. A program that shares a
//! registry or a buffer between threads puts it behind a lock of its own and
//! calls in while it holds the lock; each call is one step of a state
//! machine, described by a function on the mathematical state of the type.
//!
//! Nothing here reads a clock either. Whatever needs the time takes it as an
//! argument, so that every call gives the same result for the same
//! arguments.

pub mod error;
pub mod jobs;
pub mod level;
pub mod logger;
pub mod sink;
pub mod text;
pub mod time_util;
