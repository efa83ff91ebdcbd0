//! The filesystem snapshot the engine works over.
//!
//! Every probe the filesystem collaborators answer from disk — does a path
//! exist, is it a directory, what does a directory contain, which directories
//! carry an environment or install-root marker, what a registry file holds,
//! what a configuration file declares — is answered here from one immutable
//! [`FsSnapshot`] value. The caller fills the snapshot once per run; every
//! discovery function is then a total function of the snapshot and the
//! configuration, which is what makes discovery deterministic.

use vstd::prelude::*;
use crate::paths::has_path;

verus! {

/// A point-in-time view of the filesystem conventions the engine probes.
pub struct FsSnapshot {
    /// Paths on which a metadata probe succeeds.
    pub existing: Vec<String>,
    /// Paths that are directories.
    pub directories: Vec<String>,
    /// Directory listings: directory path to the full paths of its entries.
    pub dir_entries: Vec<(String, Vec<String>)>,
    /// Directories that carry the marker of a usable environment.
    pub conda_envs: Vec<String>,
    /// Directories that carry the marker of a package-manager install root.
    pub conda_installs: Vec<String>,
    /// On-disk casing: an observed spelling to the spelling present on disk.
    pub casing: Vec<(String, String)>,
    /// Text registry files: file path to its lines, one path per line.
    pub file_lines: Vec<(String, Vec<String>)>,
    /// Environment directories declared by the per-user configuration file,
    /// if that file is present.
    pub condarc_env_dirs: Option<Vec<String>>,
    /// Environment directories declared by the local configuration file of an
    /// install root: install-root path to the declared directories.
    pub condarc_at: Vec<(String, Vec<String>)>,
}

/// First match in an association list of path listings.
pub open spec fn assoc_get(m: Seq<(String, Vec<String>)>, k: Seq<char>) -> Option<Seq<String>>
    decreases m.len(),
{
    if m.len() == 0 {
        None
    } else if m[0].0@ == k {
        Some(m[0].1@)
    } else {
        assoc_get(m.drop_first(), k)
    }
}

/// First match in the casing map.
pub open spec fn casing_get(m: Seq<(String, String)>, k: Seq<char>) -> Option<Seq<char>>
    decreases m.len(),
{
    if m.len() == 0 {
        None
    } else if m[0].0@ == k {
        Some(m[0].1@)
    } else {
        casing_get(m.drop_first(), k)
    }
}

/// A path rewritten to its on-disk casing; a path the casing map does not
/// know passes through unchanged.
pub open spec fn normalize_spec(m: Seq<(String, String)>, p: Seq<char>) -> Seq<char> {
    match casing_get(m, p) {
        Some(v) => v,
        None => p,
    }
}

/// A well-formed casing map: every on-disk spelling it maps to is itself
/// normalized. This is exactly what on-disk casing satisfies, and it is what
/// makes normalization idempotent.
pub open spec fn casing_wf(m: Seq<(String, String)>) -> bool {
    forall|i: int| 0 <= i < m.len() ==> normalize_spec(m, #[trigger] m[i].1@) == m[i].1@
}

impl FsSnapshot {
    /// The snapshot invariant.
    pub open spec fn wf(self) -> bool {
        casing_wf(self.casing@)
    }

    pub open spec fn spec_existing(self, p: Seq<char>) -> bool {
        has_path(self.existing@, p)
    }

    pub open spec fn spec_directory(self, p: Seq<char>) -> bool {
        has_path(self.directories@, p)
    }

    pub open spec fn spec_conda_env(self, p: Seq<char>) -> bool {
        has_path(self.conda_envs@, p)
    }

    pub open spec fn spec_conda_install(self, p: Seq<char>) -> bool {
        has_path(self.conda_installs@, p)
    }

    pub open spec fn spec_entries(self, d: Seq<char>) -> Option<Seq<String>> {
        assoc_get(self.dir_entries@, d)
    }

    pub open spec fn spec_lines(self, f: Seq<char>) -> Option<Seq<String>> {
        assoc_get(self.file_lines@, f)
    }

    pub open spec fn spec_condarc_at(self, root: Seq<char>) -> Option<Seq<String>> {
        assoc_get(self.condarc_at@, root)
    }

    pub open spec fn spec_normalize(self, p: Seq<char>) -> Seq<char> {
        normalize_spec(self.casing@, p)
    }
}

/// Looks up the first match in an association list of path listings.
pub fn lookup_list<'a>(m: &'a Vec<(String, Vec<String>)>, key: &String) -> (r: Option<
    &'a Vec<String>,
>)
    ensures
        match r {
            Some(v) => assoc_get(m@, key@) == Some(v@),
            None => assoc_get(m@, key@) is None,
        },
{
    let mut i: usize = 0;
    proof {
        assert(m@.skip(0) =~= m@);
    }
    while i < m.len()
        invariant
            i <= m.len(),
            assoc_get(m@, key@) == assoc_get(m@.skip(i as int), key@),
        decreases m.len() - i,
    {
        proof {
            assert(m@.skip(i as int)[0] == m@[i as int]);
            assert(m@.skip(i as int).drop_first() =~= m@.skip(i + 1));
        }
        if m[i].0 == *key {
            return Some(&m[i].1);
        }
        i = i + 1;
    }
    proof {
        assert(m@.skip(m@.len() as int).len() == 0);
    }
    None
}

/// Looks up the first match in the casing map.
pub fn lookup_casing<'a>(m: &'a Vec<(String, String)>, key: &String) -> (r: Option<&'a String>)
    ensures
        match r {
            Some(v) => casing_get(m@, key@) == Some(v@),
            None => casing_get(m@, key@) is None,
        },
{
    let mut i: usize = 0;
    proof {
        assert(m@.skip(0) =~= m@);
    }
    while i < m.len()
        invariant
            i <= m.len(),
            casing_get(m@, key@) == casing_get(m@.skip(i as int), key@),
        decreases m.len() - i,
    {
        proof {
            assert(m@.skip(i as int)[0] == m@[i as int]);
            assert(m@.skip(i as int).drop_first() =~= m@.skip(i + 1));
        }
        if m[i].0 == *key {
            return Some(&m[i].1);
        }
        i = i + 1;
    }
    proof {
        assert(m@.skip(m@.len() as int).len() == 0);
    }
    None
}

/// Rewrites a path to its on-disk casing; unknown paths pass through
/// unchanged, so normalization never fails.
pub fn norm_case(fs: &FsSnapshot, p: &String) -> (r: String)
    ensures
        r@ == fs.spec_normalize(p@),
{
    match lookup_casing(&fs.casing, p) {
        Some(v) => v.clone(),
        None => p.clone(),
    }
}

/// A spelling the casing map returns is one of the map's on-disk spellings.
proof fn lemma_casing_get_is_value(m: Seq<(String, String)>, k: Seq<char>)
    ensures
        match casing_get(m, k) {
            Some(v) => exists|i: int| 0 <= i < m.len() && m[i].1@ == v,
            None => true,
        },
    decreases m.len(),
{
    if m.len() > 0 {
        if m[0].0@ == k {
            assert(m[0].1@ == casing_get(m, k)->Some_0);
        } else {
            lemma_casing_get_is_value(m.drop_first(), k);
            if casing_get(m, k) is Some {
                let v = casing_get(m, k)->Some_0;
                let j = choose|j: int| 0 <= j < m.drop_first().len() && m.drop_first()[j].1@ == v;
                assert(m[j + 1].1@ == v);
            }
        }
    }
}

/// Idempotent normalization law: rewriting a path to its on-disk casing a
/// second time changes nothing, for every path.
pub proof fn lemma_normalize_idempotent(m: Seq<(String, String)>, p: Seq<char>)
    requires
        casing_wf(m),
    ensures
        normalize_spec(m, normalize_spec(m, p)) == normalize_spec(m, p),
{
    match casing_get(m, p) {
        Some(v) => {
            lemma_casing_get_is_value(m, p);
            let i = choose|i: int| 0 <= i < m.len() && m[i].1@ == v;
            assert(normalize_spec(m, m[i].1@) == m[i].1@);
        },
        None => {},
    }
}

} // verus!
