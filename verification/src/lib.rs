//! Discovery engine for locally installed Python runtime environments.
//!
//! The engine probes a fixed set of filesystem conventions (conda install
//! roots, per-user environment registries, configuration-file declarations,
//! caller-supplied directories), merges and canonicalizes the candidates,
//! expands each candidate into concrete environment roots, and reports every
//! distinct discovery to an observer at most once while recording per-phase
//! timing.
//!
//! All filesystem knowledge enters through an explicit [`fs_model::FsSnapshot`]
//! value: the functions here are total over that snapshot, so every result is
//! a function of the snapshot and the configuration alone.

pub mod cache_reporter;
pub mod canon;
pub mod conda_locations;
pub mod config;
pub mod expand;
pub mod fs_model;
pub mod global_virtualenvs;
pub mod paths;
pub mod reporter;
pub mod orchestrator;
pub mod order;
