//! Core library for a desktop model-server launcher: pausable multi-file
//! downloads with crash recovery, and supervision of locally spawned model
//! server processes.
//!
//! The asynchronous shells (network streaming, process spawning, filesystem
//! walks) live outside this crate; everything here is the decision logic those
//! shells drive, stated and verified over plain values.

use vstd::prelude::*;

pub mod chat;
pub mod downloader;
pub mod hf;
pub mod llamacpp;
pub mod models;
pub mod openai;
pub mod params;
pub mod paths;
pub mod process;
pub mod quant;
pub mod recovery;
pub mod text;
pub mod update;

verus! {

/// The reserved suffix that marks an in-progress download artifact.
pub open spec fn spec_partial_suffix() -> Seq<char> {
    ".download"@
}

} // verus!
