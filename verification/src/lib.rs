//! Core engine of an interactive tracer for native binaries: a binary
//! introspection layer (symbols, relocations, debug-line info, call-site
//! discovery), a trace stack that models the user's drill-down path and the
//! call sites selected for measurement, and the pure parts of the tracer
//! (script rendering and parsing of the child tracer's aggregate dumps).

pub mod analyze;
pub mod bytes;
pub mod controller;
pub mod error;
pub mod objfile;
pub mod program;
pub mod trace_stack;
pub mod tracer;
pub mod views;
