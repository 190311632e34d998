//! Core logic of a small desktop companion process: a persistent window
//! configuration record with its on-disk JSON form, an in-memory state
//! registry, a polled window-closure monitor, title filtering for the
//! native window enumeration, and audio output endpoint selection.
//!
//! Everything here is plain computation on plain values; the operating
//! system edges (file access, window enumeration, COM audio calls, the
//! windowing host) live in the surrounding application, which hands this
//! library snapshots and carries its decisions out.

pub mod audio;
pub mod config;
pub mod dec;
pub mod escape;
pub mod json;
pub mod monitor;
pub mod state;
pub mod text;
pub mod titles;
