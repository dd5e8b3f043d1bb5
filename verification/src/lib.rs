//! Synchronisation core for keeping a local directory tree and a detachable
//! mirror tree in agreement: content snapshots, a three-way planner, and the
//! decision logic of the scanner, the executor and the chunked copy engine.

pub mod paths;
pub mod models;
pub mod seq_facts;
pub mod prune;
pub mod planner;
pub mod laws;
pub mod settle;
pub mod hasher;
pub mod scanner;
pub mod text;
mod clock;
pub mod executor;
pub mod journal;
pub mod transfer;
pub mod run;
pub mod session;
