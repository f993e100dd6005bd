//! Signature scanning and hook bookkeeping over process memory.
//!
//! The crate finds a byte signature in a memory image, follows pointer
//! chains through bounds-checked regions, keeps the record of a hook's life
//! cycle, and sequences a run from the lookup of a module to the installed
//! hook. It does no outside work itself: the caller lists modules, reads
//! memory, sleeps and installs, and hands the results in as plain values.
//!
//! Every function has a contract that Verus proves. The only statements
//! taken on trust are those about the functions of the standard library that
//! `error`, `modules` and `safety` name.
//!
//! - `config`: the values a run is configured with, and their validation
//! - `pattern`: what it means for a signature to match, and what a scan
//!   answers
//! - `region`: a bounds-checked window onto memory
//! - `scanner`: the scan itself, with its cache
//! - `modules`: picking a module from the platform's listing
//! - `safety`: checked reads, wide strings, single pointer steps
//! - `chain`: pointer chains
//! - `waiter`: the wait for a word of memory to change
//! - `hooks`: the life cycle of a hook
//! - `sequence`: the order of a run
//! - `replacement`: what the installed routine answers
//! - `logger`: log levels and the text of a log line
//! - `error`, `text`: errors and their messages

pub mod chain;
pub mod config;
pub mod error;
pub mod hooks;
pub mod logger;
pub mod modules;
pub mod pattern;
pub mod region;
pub mod replacement;
pub mod safety;
pub mod scanner;
pub mod sequence;
pub mod text;
pub mod waiter;
