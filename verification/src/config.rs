//! The read-only inputs of one discovery run.
//!
//! Discovery never reads ambient process state: the environment-variable
//! snapshot, the caller-supplied directories and the platform tag are taken
//! once, placed in these values, and threaded explicitly through every call.

use vstd::prelude::*;

verus! {

/// The operating-system family, selecting the table of conventional install
/// directories and the platform-specific probes.
#[derive(Clone, Copy, PartialEq, Eq, Structural)]
pub enum Platform {
    Linux,
    MacOs,
    Windows,
}

/// A snapshot of the environment variables discovery consults.
pub struct EnvVariables {
    /// The user's home directory.
    pub home: Option<String>,
    pub userprofile: Option<String>,
    pub programdata: Option<String>,
    pub allusersprofile: Option<String>,
    pub homedrive: Option<String>,
    pub conda_root: Option<String>,
    pub conda_prefix: Option<String>,
    pub conda: Option<String>,
    pub xdg_data_home: Option<String>,
    pub workon_home: Option<String>,
    /// Caller-declared global search locations, taken verbatim.
    pub known_global_search_locations: Vec<String>,
}

/// The scope of one discovery run.
pub struct Configuration {
    /// Additional environment directories supplied by the caller.
    pub additional_env_dirs: Vec<String>,
    /// Explicit search roots, such as the current working directory.
    pub search_paths: Vec<String>,
    /// The environment-variable snapshot.
    pub env_vars: EnvVariables,
    /// The platform whose conventions are probed.
    pub platform: Platform,
}

} // verus!
