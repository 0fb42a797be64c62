//! A small language front-end and execution engine for a minimal instruction
//! set operating on a bounded, byte-addressable tape.
//!
//! Source text is parsed into a recursive instruction tree ([`interpreter::ast::Token`]),
//! which a tree-walking interpreter ([`interpreter::Interpreter`]) executes against a
//! fixed-size memory buffer with a single movable cursor, driving a pluggable
//! single-byte I/O adapter ([`interpreter::io::IO`]).

pub mod cli;
pub mod config;
pub mod interpreter;
pub mod log;
