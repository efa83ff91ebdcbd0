//! The reporting capability discovery hands its results to.
//!
//! Any type exposing the three report operations qualifies as a sink;
//! implementations decide what surfacing a discovery means (printing,
//! caching, forwarding). Discovery guarantees each manager and environment is
//! reported at most once per run; the completion event is reported exactly
//! once, after all discovery work.

use vstd::prelude::*;

verus! {

/// The package-manager family of an install root.
#[derive(Clone, Copy, PartialEq, Eq, Structural)]
pub enum ManagerKind {
    Conda,
    Poetry,
    Pyenv,
}

/// One package-manager installation, identified by its install path.
#[derive(Clone)]
pub struct EnvManager {
    /// The root path of the installation. Deduplication keys on it exactly
    /// as given; discovery produces it in on-disk casing.
    pub install_path: String,
    /// The manager family.
    pub kind: ManagerKind,
}

/// The family of one discovered runtime environment.
#[derive(Clone, Copy, PartialEq, Eq, Structural)]
pub enum EnvironmentKind {
    Conda,
    Venv,
    Unknown,
}

/// One discovered runtime environment, identified by its root path.
#[derive(Clone)]
pub struct PythonEnvironment {
    /// The root path of the environment. Deduplication keys on it exactly as
    /// given; discovery produces it in on-disk casing.
    pub root: String,
    /// The environment family.
    pub kind: EnvironmentKind,
    /// The owning manager, when one is known.
    pub manager: Option<EnvManager>,
}

/// A consumer of discoveries. Implemented by callers; discovery only ever
/// calls these three operations.
pub trait Reporter {
    /// Surfaces one discovered package manager.
    fn report_manager(&self, manager: &EnvManager);

    /// Surfaces one discovered environment.
    fn report_environment(&self, env: &PythonEnvironment);

    /// Signals that one discovery run has finished, with its elapsed time in
    /// milliseconds.
    fn report_completion(&self, duration_ms: u64);
}

} // verus!
