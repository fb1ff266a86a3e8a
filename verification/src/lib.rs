//! Benchmarks for password-hashing presets: a registry of named presets, timed
//! trial runs with running statistics, row-confined progress rendering and the
//! assembly of the combined report.

pub mod benchmark;
pub mod cpuinfo;
pub mod error;
pub mod hashers;
pub mod render;
pub mod runner;
pub mod session;
pub mod text;
pub mod worklist;
