//! Candidate-source strategies for conda-style environments.
//!
//! Each strategy inspects one conventional source of truth in the snapshot —
//! the per-user registry file, the configuration-file collaborator, known
//! per-user directories, caller-supplied directories, and the platform table
//! of conventional install roots — and yields candidate root paths. A missing
//! or unreadable source degrades that one strategy to an empty result. The
//! collector `get_conda_environment_paths` merges all strategies, normalizes,
//! canonicalizes, and expands every candidate into concrete environment
//! roots.

use vstd::prelude::*;
use crate::canon::{canonicalize, clone_push_all, strictly_sorted, views};
use crate::config::{EnvVariables, Platform};
use crate::fs_model::{norm_case, lookup_list, FsSnapshot};
use crate::expand::lemma_concat_to_set;
use crate::paths::{contains_path, join_spec, path_join};

verus! {

/// Every path of `s` rewritten to its on-disk casing.
pub open spec fn norm_views(fs: FsSnapshot, s: Seq<Seq<char>>) -> Seq<Seq<char>> {
    s.map_values(|p: Seq<char>| fs.spec_normalize(p))
}

/// Normalizes the casing of every path in a listing.
pub fn norm_all(fs: &FsSnapshot, v: &Vec<String>) -> (r: Vec<String>)
    ensures
        views(r@) == norm_views(*fs, views(v@)),
{
    let mut out: Vec<String> = Vec::new();
    let mut i: usize = 0;
    while i < v.len()
        invariant
            i <= v.len(),
            out@.len() == i,
            forall|k: int| 0 <= k < i ==> out@[k]@ == fs.spec_normalize(#[trigger] v@[k]@),
        decreases v.len() - i,
    {
        out.push(norm_case(fs, &v[i]));
        i = i + 1;
    }
    proof {
        assert forall|k: int| 0 <= k < views(out@).len() implies views(out@)[k] == norm_views(
            *fs,
            views(v@),
        )[k] by {
            assert(out@[k]@ == fs.spec_normalize(v@[k]@));
        }
        assert(views(out@) =~= norm_views(*fs, views(v@)));
    }
    out
}

/// The registry file of environments under a home directory.
pub open spec fn environment_txt_path(home: Seq<char>) -> Seq<char> {
    join_spec(join_spec(home, ".conda"@), "environments.txt"@)
}

/// What the registry-file strategy yields: one normalized path per line of
/// the per-user registry file, or nothing when there is no home directory or
/// no readable file.
pub open spec fn envs_from_txt_spec(fs: FsSnapshot, home: Option<String>) -> Seq<Seq<char>> {
    match home {
        Some(h) => match fs.spec_lines(environment_txt_path(h@)) {
            Some(lines) => norm_views(fs, views(lines)),
            None => Seq::empty(),
        },
        None => Seq::empty(),
    }
}

/// Reads the per-user registry file, one environment path per line, each
/// rewritten to its on-disk casing. Absence of the file is an empty result.
pub fn get_conda_envs_from_environment_txt(fs: &FsSnapshot, env_vars: &EnvVariables) -> (r: Vec<
    String,
>)
    ensures
        views(r@) == envs_from_txt_spec(*fs, env_vars.home),
{
    match &env_vars.home {
        Some(h) => {
            let txt = path_join(path_join(h.as_str(), ".conda").as_str(), "environments.txt");
            match lookup_list(&fs.file_lines, &txt) {
                Some(lines) => norm_all(fs, lines),
                None => {
                    let out: Vec<String> = Vec::new();
                    proof {
                        assert(views(out@) =~= Seq::<Seq<char>>::empty());
                    }
                    out
                },
            }
        },
        None => {
            let out: Vec<String> = Vec::new();
            proof {
                assert(views(out@) =~= Seq::<Seq<char>>::empty());
            }
            out
        },
    }
}

/// What the configuration-file strategy yields: the environment directories
/// the configuration-file collaborator declares, or nothing without a file.
pub open spec fn condarc_spec(fs: FsSnapshot) -> Seq<Seq<char>> {
    match fs.condarc_env_dirs {
        Some(d) => views(d@),
        None => Seq::empty(),
    }
}

/// The environment directories declared by the per-user configuration file;
/// no configuration file is an empty result, not an error.
pub fn get_conda_environment_paths_from_conda_rc(fs: &FsSnapshot) -> (r: Vec<String>)
    ensures
        views(r@) == condarc_spec(*fs),
{
    let mut out: Vec<String> = Vec::new();
    match &fs.condarc_env_dirs {
        Some(d) => {
            clone_push_all(&mut out, d);
            proof {
                assert(views(out@) =~= condarc_spec(*fs));
            }
        },
        None => {
            proof {
                assert(views(out@) =~= Seq::<Seq<char>>::empty());
            }
        },
    }
    out
}

/// The entries of a listing that are directories, in order.
pub open spec fn filter_dirs(fs: FsSnapshot, es: Seq<Seq<char>>) -> Seq<Seq<char>>
    decreases es.len(),
{
    if es.len() == 0 {
        Seq::empty()
    } else if fs.spec_directory(es[0]) {
        seq![es[0]] + filter_dirs(fs, es.drop_first())
    } else {
        filter_dirs(fs, es.drop_first())
    }
}

/// The subdirectories found inside one directory of the snapshot.
pub open spec fn dir_subdirs(fs: FsSnapshot, d: Seq<char>) -> Seq<Seq<char>> {
    match fs.spec_entries(d) {
        Some(es) => filter_dirs(fs, views(es)),
        None => Seq::empty(),
    }
}

/// Appends every entry of directory `d` that is itself a directory.
fn push_dir_entries(fs: &FsSnapshot, out: &mut Vec<String>, d: &String)
    ensures
        views(final(out)@) == views(old(out)@) + dir_subdirs(*fs, d@),
{
    match lookup_list(&fs.dir_entries, d) {
        None => {
            proof {
                assert(views(out@) =~= views(out@) + dir_subdirs(*fs, d@));
            }
        },
        Some(es) => {
            let ghost evs = views(es@);
            let ghost base = views(out@);
            let mut i: usize = 0;
            proof {
                assert(evs.skip(0) =~= evs);
                assert(views(out@) + filter_dirs(*fs, evs.skip(0)) =~= base + filter_dirs(
                    *fs,
                    evs,
                ));
            }
            while i < es.len()
                invariant
                    i <= es.len(),
                    evs == views(es@),
                    views(out@) + filter_dirs(*fs, evs.skip(i as int)) == base + filter_dirs(
                        *fs,
                        evs,
                    ),
                decreases es.len() - i,
            {
                proof {
                    assert(evs.skip(i as int)[0] == es@[i as int]@);
                    assert(evs.skip(i as int).drop_first() =~= evs.skip(i + 1));
                }
                let ghost pre = views(out@);
                if contains_path(&fs.directories, &es[i]) {
                    out.push(es[i].clone());
                    proof {
                        assert(views(out@) =~= pre + seq![evs.skip(i as int)[0]]);
                        assert((pre + seq![evs.skip(i as int)[0]]) + filter_dirs(
                            *fs,
                            evs.skip(i + 1),
                        ) =~= pre + (seq![evs.skip(i as int)[0]] + filter_dirs(
                            *fs,
                            evs.skip(i + 1),
                        )));
                    }
                }
                i = i + 1;
            }
            proof {
                assert(evs.skip(es@.len() as int).len() == 0);
                assert(views(out@) + filter_dirs(*fs, evs.skip(es@.len() as int)) =~= views(
                    out@,
                ));
            }
        },
    }
}

/// The per-user directory of named environments.
pub open spec fn conda_envs_dir(home: Seq<char>) -> Seq<char> {
    join_spec(join_spec(home, ".conda"@), "envs"@)
}

/// The per-user application-data directory of named environments.
pub open spec fn appdata_envs_dir(home: Seq<char>) -> Seq<char> {
    join_spec(
        join_spec(join_spec(join_spec(join_spec(home, "AppData"@), "Local"@), "conda"@), "conda"@),
        "envs"@,
    )
}

/// What the known-locations strategy yields: the subdirectories of the two
/// conventional per-user environment directories, then the caller-declared
/// global search locations verbatim.
pub open spec fn known_paths_spec(fs: FsSnapshot, vars: EnvVariables) -> Seq<Seq<char>> {
    (match vars.home {
        Some(h) => dir_subdirs(fs, conda_envs_dir(h@)) + dir_subdirs(fs, appdata_envs_dir(h@)),
        None => Seq::empty(),
    }) + views(vars.known_global_search_locations@)
}

/// Enumerates the conventional per-user environment directories, keeping the
/// entries that are directories, and appends the caller-declared global
/// search locations.
pub fn get_conda_environment_paths_from_known_paths(
    fs: &FsSnapshot,
    env_vars: &EnvVariables,
) -> (r: Vec<String>)
    ensures
        views(r@) == known_paths_spec(*fs, *env_vars),
{
    let mut out: Vec<String> = Vec::new();
    match &env_vars.home {
        Some(h) => {
            let d1 = path_join(path_join(h.as_str(), ".conda").as_str(), "envs");
            push_dir_entries(fs, &mut out, &d1);
            let d2 = path_join(
                path_join(
                    path_join(path_join(path_join(h.as_str(), "AppData").as_str(), "Local").as_str(), "conda").as_str(),
                    "conda",
                ).as_str(),
                "envs",
            );
            push_dir_entries(fs, &mut out, &d2);
            proof {
                assert(views(out@) =~= Seq::<Seq<char>>::empty() + dir_subdirs(
                    *fs,
                    conda_envs_dir(h@),
                ) + dir_subdirs(*fs, appdata_envs_dir(h@)));
            }
        },
        None => {},
    }
    clone_push_all(&mut out, &env_vars.known_global_search_locations);
    proof {
        assert(views(out@) =~= known_paths_spec(*fs, *env_vars));
    }
    out
}

/// The subdirectories of every directory in a caller-supplied listing.
pub open spec fn subdirs_concat(fs: FsSnapshot, v: Seq<String>) -> Seq<Seq<char>>
    decreases v.len(),
{
    if v.len() == 0 {
        Seq::empty()
    } else {
        dir_subdirs(fs, v[0]@) + subdirs_concat(fs, v.drop_first())
    }
}

/// What the extra-paths strategy yields: the subdirectories of every
/// caller-supplied directory, then the supplied directories themselves.
pub open spec fn additional_paths_spec(fs: FsSnapshot, addl: Seq<String>) -> Seq<Seq<char>> {
    subdirs_concat(fs, addl) + views(addl)
}

/// Enumerates every caller-supplied additional directory: its entries that
/// are directories, and the directory itself.
pub fn get_conda_environment_paths_from_additional_paths(
    fs: &FsSnapshot,
    additional_env_dirs: &Vec<String>,
) -> (r: Vec<String>)
    ensures
        views(r@) == additional_paths_spec(*fs, additional_env_dirs@),
{
    let mut out: Vec<String> = Vec::new();
    let ghost all = additional_env_dirs@;
    let mut i: usize = 0;
    proof {
        assert(all.skip(0) =~= all);
        assert(views(out@) + subdirs_concat(*fs, all.skip(0)) =~= subdirs_concat(*fs, all));
    }
    while i < additional_env_dirs.len()
        invariant
            i <= additional_env_dirs.len(),
            all == additional_env_dirs@,
            views(out@) + subdirs_concat(*fs, all.skip(i as int)) == subdirs_concat(*fs, all),
        decreases additional_env_dirs.len() - i,
    {
        proof {
            assert(all.skip(i as int)[0] == all[i as int]);
            assert(all.skip(i as int).drop_first() =~= all.skip(i + 1));
        }
        let ghost pre = views(out@);
        push_dir_entries(fs, &mut out, &additional_env_dirs[i]);
        proof {
            assert((pre + dir_subdirs(*fs, all[i as int]@)) + subdirs_concat(*fs, all.skip(i + 1))
                =~= pre + (dir_subdirs(*fs, all[i as int]@) + subdirs_concat(*fs, all.skip(i + 1))));
        }
        i = i + 1;
    }
    proof {
        assert(all.skip(all.len() as int).len() == 0);
        assert(views(out@) + subdirs_concat(*fs, all.skip(all.len() as int)) =~= views(out@));
    }
    clone_push_all(&mut out, additional_env_dirs);
    out
}

} // verus!

verus! {

/// The conventional install-directory names probed under one base directory.
pub open spec fn install_family(d: Seq<char>) -> Seq<Seq<char>> {
    seq![
        join_spec(d, "anaconda"@),
        join_spec(d, "anaconda3"@),
        join_spec(d, "miniconda"@),
        join_spec(d, "miniconda3"@),
        join_spec(d, "miniforge"@),
        join_spec(d, "miniforge3"@),
    ]
}

/// The fixed table of system-wide install directories probed on Unix-like
/// platforms. The empty base directory is intentional broad probing: it
/// yields root-relative locations such as `/anaconda3`.
pub open spec fn unix_system_table() -> Seq<Seq<char>> {
    install_family("/opt"@) + install_family("/usr/share"@) + install_family("/usr/local"@)
        + install_family("/usr"@) + install_family("/home"@) + install_family(""@)
}

/// An optional raw path taken verbatim from one environment variable.
pub open spec fn opt_one(o: Option<String>) -> Seq<Seq<char>> {
    match o {
        Some(s) => seq![s@],
        None => Seq::<Seq<char>>::empty(),
    }
}

/// The home-relative install directories probed on Unix-like platforms.
pub open spec fn unix_home_dirs(home: Seq<char>) -> Seq<Seq<char>> {
    seq![
        join_spec(home, "anaconda"@),
        join_spec(home, "anaconda3"@),
        join_spec(home, "miniconda"@),
        join_spec(home, "miniconda3"@),
        join_spec(home, "miniforge3"@),
        join_spec(home, ".conda"@),
    ]
}

/// The fixed and home-relative install directories probed on Unix-like
/// platforms; these are the entries the existence filter applies to.
pub open spec fn known_install_table_unix(vars: EnvVariables) -> Seq<Seq<char>> {
    unix_system_table() + (match vars.home {
        Some(h) => unix_home_dirs(h@),
        None => Seq::<Seq<char>>::empty(),
    })
}

/// The install directories probed under one Windows profile directory; an
/// empty profile variable contributes nothing.
pub open spec fn win_profile_family(o: Option<String>) -> Seq<Seq<char>> {
    match o {
        Some(p) => if p@.len() == 0 {
            Seq::<Seq<char>>::empty()
        } else {
            seq![
                join_spec(p@, "anaconda3"@),
                join_spec(p@, "miniconda3"@),
                join_spec(p@, "miniforge3"@),
            ]
        },
        None => Seq::<Seq<char>>::empty(),
    }
}

/// The install directories probed under the home drive.
pub open spec fn win_homedrive_dirs(o: Option<String>) -> Seq<Seq<char>> {
    match o {
        Some(d) => if d@.len() == 0 {
            Seq::<Seq<char>>::empty()
        } else {
            seq![
                join_spec(d@, "anaconda3"@),
                join_spec(d@, "miniconda"@),
                join_spec(d@, "miniforge3"@),
            ]
        },
        None => Seq::<Seq<char>>::empty(),
    }
}

/// The home-relative install directories probed on Windows.
pub open spec fn win_home_dirs(home: Seq<char>) -> Seq<Seq<char>> {
    seq![
        join_spec(home, "anaconda3"@),
        join_spec(home, "miniconda3"@),
        join_spec(home, "miniforge3"@),
        join_spec(home, ".conda"@),
        join_spec(
            join_spec(join_spec(join_spec(home, "AppData"@), "Local"@), "conda"@),
            "conda"@,
        ),
    ]
}

/// The fixed and home-relative install directories probed on Windows; these
/// are the entries the existence filter applies to.
pub open spec fn known_install_table_windows(vars: EnvVariables) -> Seq<Seq<char>> {
    win_profile_family(vars.programdata) + win_profile_family(vars.allusersprofile)
        + win_profile_family(vars.userprofile) + win_homedrive_dirs(vars.homedrive) + (match
    vars.home {
        Some(h) => win_home_dirs(h@),
        None => Seq::<Seq<char>>::empty(),
    })
}

/// The platform's table of conventional install directories, before the
/// existence filter and canonicalization.
pub open spec fn known_install_table(vars: EnvVariables, platform: Platform) -> Seq<Seq<char>> {
    if platform is Windows {
        known_install_table_windows(vars)
    } else {
        known_install_table_unix(vars)
    }
}

/// The paths of the conda-specific environment variables, included verbatim:
/// an explicitly configured root is never filtered away.
pub open spec fn known_install_env_vars(vars: EnvVariables) -> Seq<Seq<char>> {
    opt_one(vars.conda_root) + opt_one(vars.conda_prefix) + opt_one(vars.conda)
}

/// What the install-locations strategy keeps, before canonicalization: the
/// table entries that are directories at call time, then the env-var paths.
pub open spec fn known_install_kept(
    fs: FsSnapshot,
    vars: EnvVariables,
    platform: Platform,
) -> Seq<Seq<char>> {
    filter_dirs(fs, known_install_table(vars, platform)) + known_install_env_vars(vars)
}

/// The image of a path set under casing normalization.
pub open spec fn norm_image(fs: FsSnapshot, s: Set<Seq<char>>) -> Set<Seq<char>> {
    Set::new(|q: Seq<char>| exists|p: Seq<char>| s.contains(p) && q == fs.spec_normalize(p))
}

/// Appends the six conventional install names under one base directory.
fn push_family(out: &mut Vec<String>, d: &str)
    ensures
        views(final(out)@) == views(old(out)@) + install_family(d@),
{
    out.push(path_join(d, "anaconda"));
    out.push(path_join(d, "anaconda3"));
    out.push(path_join(d, "miniconda"));
    out.push(path_join(d, "miniconda3"));
    out.push(path_join(d, "miniforge"));
    out.push(path_join(d, "miniforge3"));
    proof {
        assert(views(out@) =~= views(old(out)@) + install_family(d@));
    }
}

/// Appends the raw value of one optional environment variable.
fn push_opt(out: &mut Vec<String>, o: &Option<String>)
    ensures
        views(final(out)@) == views(old(out)@) + opt_one(*o),
{
    match o {
        Some(s) => {
            out.push(s.clone());
            proof {
                assert(views(out@) =~= views(old(out)@) + opt_one(*o));
            }
        },
        None => {
            proof {
                assert(views(out@) =~= views(old(out)@) + opt_one(*o));
            }
        },
    }
}

/// The platform's conventional install locations: the table entries that
/// exist as directories at call time, plus the conda-specific environment
/// variables' paths verbatim; sorted, duplicate-free, and on Windows
/// rewritten to on-disk casing.
pub fn get_known_conda_install_locations(
    fs: &FsSnapshot,
    env_vars: &EnvVariables,
    platform: Platform,
) -> (r: Vec<String>)
    ensures
        strictly_sorted(views(r@)),
        platform is Windows ==> views(r@).to_set() == norm_image(
            *fs,
            known_install_kept(*fs, *env_vars, platform).to_set(),
        ),
        !(platform is Windows) ==> views(r@).to_set() == known_install_kept(
            *fs,
            *env_vars,
            platform,
        ).to_set(),
{
    let mut table: Vec<String> = Vec::new();
    match platform {
        Platform::Windows => {
            push_profile_family(&mut table, &env_vars.programdata);
            push_profile_family(&mut table, &env_vars.allusersprofile);
            push_profile_family(&mut table, &env_vars.userprofile);
            push_homedrive_dirs(&mut table, &env_vars.homedrive);
            match &env_vars.home {
                Some(h) => {
                    out_push_win_home(&mut table, h);
                },
                None => {},
            }
            proof {
                assert(views(table@) =~= known_install_table_windows(*env_vars));
            }
        },
        _ => {
            push_family(&mut table, "/opt");
            push_family(&mut table, "/usr/share");
            push_family(&mut table, "/usr/local");
            push_family(&mut table, "/usr");
            push_family(&mut table, "/home");
            push_family(&mut table, "");
            match &env_vars.home {
                Some(h) => {
                    out_push_unix_home(&mut table, h);
                },
                None => {},
            }
            proof {
                assert(views(table@) =~= known_install_table_unix(*env_vars));
            }
        },
    }
    let mut kept = retain_dirs(fs, &table);
    push_opt(&mut kept, &env_vars.conda_root);
    push_opt(&mut kept, &env_vars.conda_prefix);
    push_opt(&mut kept, &env_vars.conda);
    proof {
        assert(views(kept@) =~= known_install_kept(*fs, *env_vars, platform));
    }
    match platform {
        Platform::Windows => {
            let sorted = canonicalize(&kept);
            let normed = norm_all(fs, &sorted);
            let out = canonicalize(&normed);
            proof {
                lemma_norm_views_to_set(*fs, views(sorted@));
            }
            out
        },
        _ => canonicalize(&kept),
    }
}

/// Appends the three profile-relative install names, skipping an empty
/// profile variable.
fn push_profile_family(out: &mut Vec<String>, o: &Option<String>)
    ensures
        views(final(out)@) == views(old(out)@) + win_profile_family(*o),
{
    match o {
        Some(p) => {
            if !p.as_str().is_empty() {
                out.push(path_join(p.as_str(), "anaconda3"));
                out.push(path_join(p.as_str(), "miniconda3"));
                out.push(path_join(p.as_str(), "miniforge3"));
                proof {
                    assert(views(out@) =~= views(old(out)@) + win_profile_family(*o));
                }
            } else {
                proof {
                    assert(views(out@) =~= views(old(out)@) + win_profile_family(*o));
                }
            }
        },
        None => {
            proof {
                assert(views(out@) =~= views(old(out)@) + win_profile_family(*o));
            }
        },
    }
}

/// Appends the three home-drive-relative install names, skipping an empty
/// home-drive variable.
fn push_homedrive_dirs(out: &mut Vec<String>, o: &Option<String>)
    ensures
        views(final(out)@) == views(old(out)@) + win_homedrive_dirs(*o),
{
    match o {
        Some(d) => {
            if !d.as_str().is_empty() {
                out.push(path_join(d.as_str(), "anaconda3"));
                out.push(path_join(d.as_str(), "miniconda"));
                out.push(path_join(d.as_str(), "miniforge3"));
                proof {
                    assert(views(out@) =~= views(old(out)@) + win_homedrive_dirs(*o));
                }
            } else {
                proof {
                    assert(views(out@) =~= views(old(out)@) + win_homedrive_dirs(*o));
                }
            }
        },
        None => {
            proof {
                assert(views(out@) =~= views(old(out)@) + win_homedrive_dirs(*o));
            }
        },
    }
}

/// Appends the home-relative install directories probed on Windows.
fn out_push_win_home(out: &mut Vec<String>, home: &String)
    ensures
        views(final(out)@) == views(old(out)@) + win_home_dirs(home@),
{
    out.push(path_join(home.as_str(), "anaconda3"));
    out.push(path_join(home.as_str(), "miniconda3"));
    out.push(path_join(home.as_str(), "miniforge3"));
    out.push(path_join(home.as_str(), ".conda"));
    let appdata = path_join(
        path_join(path_join(path_join(home.as_str(), "AppData").as_str(), "Local").as_str(), "conda").as_str(),
        "conda",
    );
    out.push(appdata);
    proof {
        assert(views(out@) =~= views(old(out)@) + win_home_dirs(home@));
    }
}

/// Appends the home-relative install directories probed on Unix-like
/// platforms.
fn out_push_unix_home(out: &mut Vec<String>, home: &String)
    ensures
        views(final(out)@) == views(old(out)@) + unix_home_dirs(home@),
{
    out.push(path_join(home.as_str(), "anaconda"));
    out.push(path_join(home.as_str(), "anaconda3"));
    out.push(path_join(home.as_str(), "miniconda"));
    out.push(path_join(home.as_str(), "miniconda3"));
    out.push(path_join(home.as_str(), "miniforge3"));
    out.push(path_join(home.as_str(), ".conda"));
    proof {
        assert(views(out@) =~= views(old(out)@) + unix_home_dirs(home@));
    }
}

/// Normalizing every element of a listing maps its element set through
/// `norm_image`.
pub proof fn lemma_norm_views_to_set(fs: FsSnapshot, s: Seq<Seq<char>>)
    ensures
        norm_views(fs, s).to_set() == norm_image(fs, s.to_set()),
{
    let n = norm_views(fs, s);
    assert forall|q: Seq<char>| n.to_set().contains(q) implies norm_image(fs, s.to_set()).contains(
        q,
    ) by {
        let k = choose|k: int| 0 <= k < n.len() && n[k] == q;
        assert(s.to_set().contains(s[k]) && q == fs.spec_normalize(s[k]));
    }
    assert forall|q: Seq<char>| norm_image(fs, s.to_set()).contains(q) implies n.to_set().contains(
        q,
    ) by {
        let p = choose|p: Seq<char>| s.to_set().contains(p) && q == fs.spec_normalize(p);
        let k = choose|k: int| 0 <= k < s.len() && s[k] == p;
        assert(n[k] == q);
    }
    assert(n.to_set() =~= norm_image(fs, s.to_set()));
}

} // verus!

verus! {

/// Keeps the paths of a listing that are directories in the snapshot.
fn retain_dirs(fs: &FsSnapshot, v: &Vec<String>) -> (r: Vec<String>)
    ensures
        views(r@) == filter_dirs(*fs, views(v@)),
{
    let mut out: Vec<String> = Vec::new();
    let ghost all = views(v@);
    let mut i: usize = 0;
    proof {
        assert(all.skip(0) =~= all);
        assert(views(out@) + filter_dirs(*fs, all.skip(0)) =~= filter_dirs(*fs, all));
    }
    while i < v.len()
        invariant
            i <= v.len(),
            all == views(v@),
            views(out@) + filter_dirs(*fs, all.skip(i as int)) == filter_dirs(*fs, all),
        decreases v.len() - i,
    {
        proof {
            assert(all.skip(i as int)[0] == v@[i as int]@);
            assert(all.skip(i as int).drop_first() =~= all.skip(i + 1));
        }
        let ghost pre = views(out@);
        if contains_path(&fs.directories, &v[i]) {
            out.push(v[i].clone());
            proof {
                assert(views(out@) =~= pre + seq![all.skip(i as int)[0]]);
                assert((pre + seq![all.skip(i as int)[0]]) + filter_dirs(*fs, all.skip(i + 1))
                    =~= pre + (seq![all.skip(i as int)[0]] + filter_dirs(*fs, all.skip(i + 1))));
            }
        }
        i = i + 1;
    }
    proof {
        assert(all.skip(all.len() as int).len() == 0);
        assert(views(out@) + filter_dirs(*fs, all.skip(all.len() as int)) =~= views(out@));
    }
    out
}

} // verus!

verus! {

/// Every candidate path the five strategies yield, concatenated, before
/// normalization and canonicalization.
pub open spec fn raw_candidates(
    fs: FsSnapshot,
    vars: EnvVariables,
    addl: Seq<String>,
    platform: Platform,
) -> Seq<Seq<char>> {
    envs_from_txt_spec(fs, vars.home) + condarc_spec(fs) + known_paths_spec(fs, vars)
        + additional_paths_spec(fs, addl) + known_install_kept(fs, vars, platform)
}

/// The canonical candidate set of one run: the merged strategy outputs,
/// rewritten to on-disk casing. Merging is a set union, so strategy order and
/// repetition cannot change it.
pub open spec fn candidate_set(
    fs: FsSnapshot,
    vars: EnvVariables,
    addl: Seq<String>,
    platform: Platform,
) -> Set<Seq<char>> {
    norm_image(fs, raw_candidates(fs, vars, addl, platform).to_set())
}

/// The environment roots one run discovers: everything some canonical
/// candidate expands to, rewritten to on-disk casing, so that every
/// discovered root is stated under its natural key.
pub open spec fn conda_environment_set(
    fs: FsSnapshot,
    vars: EnvVariables,
    addl: Seq<String>,
    platform: Platform,
) -> Set<Seq<char>> {
    norm_image(fs, crate::expand::expansion_of(fs, candidate_set(fs, vars, addl, platform)))
}

/// The union image of normalization distributes over set union.
pub proof fn lemma_norm_image_union(fs: FsSnapshot, s1: Set<Seq<char>>, s2: Set<Seq<char>>)
    ensures
        norm_image(fs, s1.union(s2)) == norm_image(fs, s1).union(norm_image(fs, s2)),
{
    assert(norm_image(fs, s1.union(s2)) =~= norm_image(fs, s1).union(norm_image(fs, s2)));
}

/// Every path in a normalization image is a fixed point of normalization.
pub proof fn lemma_norm_image_fixed(fs: FsSnapshot, s: Set<Seq<char>>)
    requires
        fs.wf(),
    ensures
        forall|p: Seq<char>| norm_image(fs, s).contains(p) ==> #[trigger] fs.spec_normalize(p)
            == p,
{
    assert forall|p: Seq<char>| norm_image(fs, s).contains(p) implies #[trigger] fs.spec_normalize(
        p,
    ) == p by {
        let q = choose|q: Seq<char>| s.contains(q) && p == fs.spec_normalize(q);
        crate::fs_model::lemma_normalize_idempotent(fs.casing@, q);
    }
}

/// Normalizing an already-normalized set changes nothing.
proof fn lemma_norm_image_idempotent(fs: FsSnapshot, s: Set<Seq<char>>)
    requires
        fs.wf(),
    ensures
        norm_image(fs, norm_image(fs, s)) == norm_image(fs, s),
{
    assert forall|q: Seq<char>| norm_image(fs, norm_image(fs, s)).contains(q)
        implies norm_image(fs, s).contains(q) by {
        let m = choose|m: Seq<char>| norm_image(fs, s).contains(m) && q == fs.spec_normalize(m);
        let p = choose|p: Seq<char>| s.contains(p) && m == fs.spec_normalize(p);
        crate::fs_model::lemma_normalize_idempotent(fs.casing@, p);
        assert(q == fs.spec_normalize(p));
    }
    assert forall|q: Seq<char>| norm_image(fs, s).contains(q) implies norm_image(
        fs,
        norm_image(fs, s),
    ).contains(q) by {
        let p = choose|p: Seq<char>| s.contains(p) && q == fs.spec_normalize(p);
        crate::fs_model::lemma_normalize_idempotent(fs.casing@, p);
        assert(norm_image(fs, s).contains(q) && fs.spec_normalize(q) == q);
    }
    assert(norm_image(fs, norm_image(fs, s)) =~= norm_image(fs, s));
}

/// The expansions of the first `n` candidates of a listing.
pub open spec fn expansion_prefix(fs: FsSnapshot, cands: Seq<Seq<char>>, n: int) -> Set<
    Seq<char>,
> {
    Set::new(
        |e: Seq<char>|
            exists|j: int|
                0 <= j < n && crate::expand::expand_spec(fs, #[trigger] cands[j]).contains(e),
    )
}

/// Expanding every candidate of a listing reaches exactly the expansion of
/// its element set.
proof fn lemma_expansion_prefix_full(fs: FsSnapshot, cands: Seq<Seq<char>>)
    ensures
        expansion_prefix(fs, cands, cands.len() as int) == crate::expand::expansion_of(
            fs,
            cands.to_set(),
        ),
{
    assert forall|e: Seq<char>| expansion_prefix(fs, cands, cands.len() as int).contains(e)
        implies crate::expand::expansion_of(fs, cands.to_set()).contains(e) by {
        let j = choose|j: int|
            0 <= j < cands.len() && crate::expand::expand_spec(fs, cands[j]).contains(e);
        assert(cands.to_set().contains(cands[j]));
    }
    assert forall|e: Seq<char>| crate::expand::expansion_of(fs, cands.to_set()).contains(e)
        implies expansion_prefix(fs, cands, cands.len() as int).contains(e) by {
        let p = choose|p: Seq<char>|
            cands.to_set().contains(p) && crate::expand::expand_spec(fs, p).contains(e);
        let j = choose|j: int| 0 <= j < cands.len() && cands[j] == p;
        assert(crate::expand::expand_spec(fs, cands[j]).contains(e));
    }
    assert(expansion_prefix(fs, cands, cands.len() as int) =~= crate::expand::expansion_of(
        fs,
        cands.to_set(),
    ));
}

/// Runs every candidate strategy, merges and normalizes their outputs into
/// the canonical candidate set, and expands each candidate into environment
/// roots: the discovered set, sorted and duplicate-free.
pub fn get_conda_environment_paths(
    fs: &FsSnapshot,
    env_vars: &EnvVariables,
    additional_env_dirs: &Vec<String>,
    platform: Platform,
) -> (r: Vec<String>)
    requires
        fs.wf(),
    ensures
        strictly_sorted(views(r@)),
        views(r@).to_set() == conda_environment_set(
            *fs,
            *env_vars,
            additional_env_dirs@,
            platform,
        ),
        forall|p: Seq<char>|
            views(r@).to_set().contains(p) ==> #[trigger] fs.spec_normalize(p) == p,
{
    let mut merged: Vec<String> = Vec::new();
    let mut t1 = get_conda_envs_from_environment_txt(fs, env_vars);
    let mut t2 = get_conda_environment_paths_from_conda_rc(fs);
    let mut t3 = get_conda_environment_paths_from_known_paths(fs, env_vars);
    let mut t4 = get_conda_environment_paths_from_additional_paths(fs, additional_env_dirs);
    let mut t5 = get_known_conda_install_locations(fs, env_vars, platform);
    let ghost v5 = views(t5@);
    let ghost first4 = envs_from_txt_spec(*fs, env_vars.home) + condarc_spec(*fs)
        + known_paths_spec(*fs, *env_vars) + additional_paths_spec(*fs, additional_env_dirs@);
    let ghost kept5 = known_install_kept(*fs, *env_vars, platform);
    merged.append(&mut t1);
    merged.append(&mut t2);
    merged.append(&mut t3);
    merged.append(&mut t4);
    merged.append(&mut t5);
    proof {
        assert(views(merged@) =~= first4 + v5);
        lemma_concat_to_set(first4, v5);
        lemma_concat_to_set(first4, kept5);
        assert(raw_candidates(*fs, *env_vars, additional_env_dirs@, platform) =~= first4
            + kept5);
        lemma_norm_image_union(*fs, first4.to_set(), v5.to_set());
        lemma_norm_image_union(*fs, first4.to_set(), kept5.to_set());
        if platform is Windows {
            lemma_norm_image_idempotent(*fs, kept5.to_set());
        }
    }
    let normed = norm_all(fs, &merged);
    let cands = canonicalize(&normed);
    proof {
        lemma_norm_views_to_set(*fs, views(merged@));
        assert(views(cands@).to_set() == candidate_set(
            *fs,
            *env_vars,
            additional_env_dirs@,
            platform,
        ));
    }
    let ghost cvs = views(cands@);
    let mut acc: Vec<String> = Vec::new();
    let mut i: usize = 0;
    proof {
        assert forall|e: Seq<char>| !norm_image(*fs, expansion_prefix(*fs, cvs, 0)).contains(
            e,
        ) by {
            if exists|p: Seq<char>|
                expansion_prefix(*fs, cvs, 0).contains(p) && e == fs.spec_normalize(p) {
                let p = choose|p: Seq<char>|
                    expansion_prefix(*fs, cvs, 0).contains(p) && e == fs.spec_normalize(p);
            }
        }
        assert(views(acc@).to_set() =~= norm_image(*fs, expansion_prefix(*fs, cvs, 0)));
    }
    while i < cands.len()
        invariant
            i <= cands.len(),
            fs.wf(),
            cvs == views(cands@),
            views(acc@).to_set() == norm_image(*fs, expansion_prefix(*fs, cvs, i as int)),
        decreases cands.len() - i,
    {
        let mut envs = crate::expand::get_environments(fs, &cands[i]);
        let ghost pre = views(acc@);
        let ghost evs = views(envs@);
        acc.append(&mut envs);
        proof {
            assert(views(acc@) =~= pre + evs);
            lemma_concat_to_set(pre, evs);
            let expd = crate::expand::expand_spec(*fs, cvs[i as int]).to_set();
            assert forall|e: Seq<char>| expansion_prefix(*fs, cvs, i + 1).contains(e)
                implies expansion_prefix(*fs, cvs, i as int).union(expd).contains(e) by {
                let j = choose|j: int|
                    0 <= j < i + 1 && crate::expand::expand_spec(*fs, #[trigger] cvs[j]).contains(
                        e,
                    );
                if j < i {
                    assert(expansion_prefix(*fs, cvs, i as int).contains(e));
                } else {
                    assert(crate::expand::expand_spec(*fs, cvs[i as int]).to_set().contains(e));
                }
            }
            assert forall|e: Seq<char>|
                expansion_prefix(*fs, cvs, i as int).union(expd).contains(e)
                implies expansion_prefix(*fs, cvs, i + 1).contains(e) by {
                if expansion_prefix(*fs, cvs, i as int).contains(e) {
                    let j = choose|j: int|
                        0 <= j < i && crate::expand::expand_spec(*fs, #[trigger] cvs[j]).contains(
                            e,
                        );
                    assert(crate::expand::expand_spec(*fs, cvs[j]).contains(e));
                } else {
                    assert(crate::expand::expand_spec(*fs, cvs[i as int]).contains(e));
                }
            }
            assert(expansion_prefix(*fs, cvs, i + 1) =~= expansion_prefix(
                *fs,
                cvs,
                i as int,
            ).union(expd));
            lemma_norm_image_union(*fs, expansion_prefix(*fs, cvs, i as int), expd);
            assert(views(acc@).to_set() =~= norm_image(*fs, expansion_prefix(*fs, cvs, i + 1)));
        }
        i = i + 1;
    }
    proof {
        lemma_expansion_prefix_full(*fs, cvs);
        lemma_norm_image_fixed(
            *fs,
            crate::expand::expansion_of(
                *fs,
                candidate_set(*fs, *env_vars, additional_env_dirs@, platform),
            ),
        );
    }
    canonicalize(&acc)
}

/// Determinism law: the discovered set is a function of the snapshot and the
/// configuration alone, and the canonical listing of it is unique, so
/// repeated runs return the same ordered listing whatever the scheduling.
pub proof fn lemma_discovery_deterministic(
    fs: FsSnapshot,
    vars: EnvVariables,
    addl: Seq<String>,
    platform: Platform,
    r1: Seq<Seq<char>>,
    r2: Seq<Seq<char>>,
)
    requires
        strictly_sorted(r1),
        r1.to_set() == conda_environment_set(fs, vars, addl, platform),
        strictly_sorted(r2),
        r2.to_set() == conda_environment_set(fs, vars, addl, platform),
    ensures
        r1 == r2,
{
    crate::canon::lemma_sorted_set_unique(r1, r2);
}

/// No listed path is a directory, so the directory filter keeps nothing.
proof fn lemma_filter_dirs_none(fs: FsSnapshot, es: Seq<Seq<char>>)
    requires
        forall|k: int| 0 <= k < es.len() ==> !fs.spec_directory(#[trigger] es[k]),
    ensures
        filter_dirs(fs, es).len() == 0,
    decreases es.len(),
{
    if es.len() > 0 {
        assert(forall|k: int|
            0 <= k < es.drop_first().len() ==> es.drop_first()[k] == es[k + 1]);
        lemma_filter_dirs_none(fs, es.drop_first());
    }
}

/// Graceful absence law: when the configured home directory is absent from
/// the snapshot and the configuration supplies nothing besides it, every
/// candidate strategy yields nothing and the run discovers nothing.
pub proof fn lemma_graceful_absence(
    fs: FsSnapshot,
    vars: EnvVariables,
    h: String,
    platform: Platform,
)
    requires
        fs.wf(),
        vars.home == Some(h),
        fs.spec_lines(environment_txt_path(h@)) is None,
        fs.spec_entries(conda_envs_dir(h@)) is None,
        fs.spec_entries(appdata_envs_dir(h@)) is None,
        fs.condarc_env_dirs is None,
        vars.known_global_search_locations@.len() == 0,
        vars.conda_root is None,
        vars.conda_prefix is None,
        vars.conda is None,
        vars.userprofile is None,
        vars.programdata is None,
        vars.allusersprofile is None,
        vars.homedrive is None,
        forall|p: Seq<char>|
            known_install_table(vars, platform).contains(p) ==> !fs.spec_directory(p),
    ensures
        envs_from_txt_spec(fs, vars.home).len() == 0,
        condarc_spec(fs).len() == 0,
        known_paths_spec(fs, vars).len() == 0,
        additional_paths_spec(fs, Seq::<String>::empty()).len() == 0,
        known_install_kept(fs, vars, platform).len() == 0,
        conda_environment_set(fs, vars, Seq::<String>::empty(), platform) == Set::<
            Seq<char>,
        >::empty(),
{
    let raw = known_install_table(vars, platform);
    assert forall|k: int| 0 <= k < raw.len() implies !fs.spec_directory(#[trigger] raw[k]) by {
        assert(raw.contains(raw[k]));
    }
    lemma_filter_dirs_none(fs, raw);
    let rc = raw_candidates(fs, vars, Seq::<String>::empty(), platform);
    assert(rc.len() == 0);
    assert forall|e: Seq<char>|
        !conda_environment_set(fs, vars, Seq::<String>::empty(), platform).contains(e) by {
        if candidate_set(fs, vars, Seq::<String>::empty(), platform).contains(e)
            || conda_environment_set(fs, vars, Seq::<String>::empty(), platform).contains(e) {
            if exists|m: Seq<char>|
                crate::expand::expansion_of(
                    fs,
                    candidate_set(fs, vars, Seq::<String>::empty(), platform),
                ).contains(m) && e == fs.spec_normalize(m) {
                let m = choose|m: Seq<char>|
                    crate::expand::expansion_of(
                        fs,
                        candidate_set(fs, vars, Seq::<String>::empty(), platform),
                    ).contains(m) && e == fs.spec_normalize(m);
                let p = choose|p: Seq<char>|
                    candidate_set(fs, vars, Seq::<String>::empty(), platform).contains(p)
                        && crate::expand::expand_spec(fs, p).contains(m);
                let q = choose|q: Seq<char>|
                    rc.to_set().contains(q) && p == fs.spec_normalize(q);
                assert(rc.contains(q));
            }
        }
    }
    assert(conda_environment_set(fs, vars, Seq::<String>::empty(), platform) =~= Set::<
        Seq<char>,
    >::empty());
}

} // verus!
