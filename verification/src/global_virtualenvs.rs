//! Discovery of global virtualenv-style environment directories.
//!
//! The conventional directories are derived from the work-on-home variable
//! (with `~` resolved against the home directory), the XDG data home, and a
//! fixed family of home-relative names; only directories present in the
//! snapshot are kept. Every entry of those directories that does not carry a
//! conda environment marker is a global virtual environment.

use vstd::prelude::*;
use crate::canon::{canonicalize, strictly_sorted, views};
use crate::config::Platform;
use crate::fs_model::{lookup_list, norm_case, FsSnapshot};
use crate::paths::{contains_path, join_spec, path_join};

verus! {

/// A path when the snapshot says it exists, otherwise nothing.
pub open spec fn opt_existing(fs: FsSnapshot, p: Seq<char>) -> Seq<Seq<char>> {
    if fs.spec_existing(p) {
        seq![p]
    } else {
        Seq::empty()
    }
}

/// What the work-on-home variable contributes: its normalized value when that
/// exists, else its `~`-prefixed remainder resolved against the home
/// directory when that exists, else nothing.
pub open spec fn workon_candidates(
    fs: FsSnapshot,
    workon: Option<String>,
    home: Option<String>,
) -> Seq<Seq<char>> {
    match workon {
        Some(w) => {
            let nw = fs.spec_normalize(w@);
            if fs.spec_existing(nw) {
                seq![nw]
            } else {
                match home {
                    Some(h) => if nw.len() >= 2 && nw[0] == '~' && nw[1] == '/' {
                        opt_existing(fs, join_spec(h@, nw.skip(2)))
                    } else if nw =~= "~"@ {
                        opt_existing(fs, join_spec(h@, ""@))
                    } else {
                        Seq::empty()
                    },
                    None => Seq::empty(),
                }
            }
        },
        None => Seq::empty(),
    }
}

/// What the XDG data home contributes: its `virtualenvs` child when that
/// exists.
pub open spec fn xdg_candidates(fs: FsSnapshot, xdg: Option<String>) -> Seq<Seq<char>> {
    match xdg {
        Some(x) => opt_existing(fs, join_spec(x@, "virtualenvs"@)),
        None => Seq::empty(),
    }
}

/// The conventional home-relative virtualenv directories that exist, plus,
/// on Linux, the two working-directory-relative names.
pub open spec fn home_venv_dirs(fs: FsSnapshot, h: Seq<char>, platform: Platform) -> Seq<
    Seq<char>,
> {
    opt_existing(fs, join_spec(h, "envs"@)) + opt_existing(fs, join_spec(h, ".direnv"@))
        + opt_existing(fs, join_spec(h, ".venvs"@)) + opt_existing(
        fs,
        join_spec(h, ".virtualenvs"@),
    ) + opt_existing(fs, join_spec(h, ".local/share/virtualenvs"@)) + (if platform is Linux {
        opt_existing(fs, "Envs"@) + opt_existing(fs, "envs"@)
    } else {
        Seq::empty()
    })
}

/// The directories in which global virtual environments are searched for.
pub open spec fn global_venv_dirs_spec(
    fs: FsSnapshot,
    workon: Option<String>,
    xdg: Option<String>,
    home: Option<String>,
    platform: Platform,
) -> Seq<Seq<char>> {
    workon_candidates(fs, workon, home) + xdg_candidates(fs, xdg) + (match home {
        Some(h) => home_venv_dirs(fs, h@, platform),
        None => Seq::<Seq<char>>::empty(),
    })
}

/// Appends `p` when the snapshot says it exists.
fn push_if_existing(fs: &FsSnapshot, out: &mut Vec<String>, p: String)
    ensures
        views(final(out)@) == views(old(out)@) + opt_existing(*fs, p@),
{
    if contains_path(&fs.existing, &p) {
        out.push(p);
        proof {
            assert(views(out@) =~= views(old(out)@) + opt_existing(*fs, p@));
        }
    } else {
        proof {
            assert(views(out@) =~= views(old(out)@) + opt_existing(*fs, p@));
        }
    }
}

/// What the work-on-home variable contributes, as a listing.
fn workon_dirs(fs: &FsSnapshot, workon: &Option<String>, home: &Option<String>) -> (r: Vec<
    String,
>)
    ensures
        views(r@) == workon_candidates(*fs, *workon, *home),
{
    let mut out: Vec<String> = Vec::new();
    match workon {
        Some(w) => {
            let nw = norm_case(fs, w);
            if contains_path(&fs.existing, &nw) {
                out.push(nw);
                proof {
                    assert(views(out@) =~= workon_candidates(*fs, *workon, *home));
                }
            } else {
                match home {
                    Some(h) => {
                        let len = nw.as_str().unicode_len();
                        if len >= 2 && nw.as_str().get_char(0) == '~' && nw.as_str().get_char(1)
                            == '/' {
                            let rest = nw.as_str().substring_char(2, len);
                            proof {
                                assert(rest@ =~= fs.spec_normalize(w@).skip(2));
                            }
                            push_if_existing(fs, &mut out, path_join(h.as_str(), rest));
                            proof {
                                assert(views(out@) =~= workon_candidates(*fs, *workon, *home));
                            }
                        } else if len == 1 && nw.as_str().get_char(0) == '~' {
                            proof {
                                assert(nw@ =~= "~"@) by {
                                    reveal_strlit("~");
                                }
                            }
                            push_if_existing(fs, &mut out, path_join(h.as_str(), ""));
                            proof {
                                assert(views(out@) =~= workon_candidates(*fs, *workon, *home));
                            }
                        } else {
                            proof {
                                reveal_strlit("~");
                                assert(!(nw@ =~= "~"@));
                                assert(views(out@) =~= workon_candidates(*fs, *workon, *home));
                            }
                        }
                    },
                    None => {
                        proof {
                            assert(views(out@) =~= workon_candidates(*fs, *workon, *home));
                        }
                    },
                }
            }
        },
        None => {
            proof {
                assert(views(out@) =~= workon_candidates(*fs, *workon, *home));
            }
        },
    }
    out
}

/// Appends the conventional home-relative virtualenv directories that exist.
#[verifier::rlimit(100)]
fn push_home_venv_dirs(fs: &FsSnapshot, out: &mut Vec<String>, h: &String, platform: Platform)
    ensures
        views(final(out)@) == views(old(out)@) + home_venv_dirs(*fs, h@, platform),
{
    push_if_existing(fs, out, path_join(h.as_str(), "envs"));
    push_if_existing(fs, out, path_join(h.as_str(), ".direnv"));
    push_if_existing(fs, out, path_join(h.as_str(), ".venvs"));
    push_if_existing(fs, out, path_join(h.as_str(), ".virtualenvs"));
    push_if_existing(fs, out, path_join(h.as_str(), ".local/share/virtualenvs"));
    match platform {
        Platform::Linux => {
            push_if_existing(fs, out, "Envs".to_owned());
            push_if_existing(fs, out, "envs".to_owned());
            proof {
                assert(views(out@) =~= views(old(out)@) + home_venv_dirs(*fs, h@, platform));
            }
        },
        _ => {
            proof {
                assert(views(out@) =~= views(old(out)@) + home_venv_dirs(*fs, h@, platform));
            }
        },
    }
}

/// Collects the directories that may hold global virtual environments, in
/// the order the conventions are probed.
pub fn get_global_virtualenv_dirs(
    fs: &FsSnapshot,
    work_on_home_env_var: Option<String>,
    xdg_data_home: Option<String>,
    user_home: Option<String>,
    platform: Platform,
) -> (r: Vec<String>)
    ensures
        views(r@) == global_venv_dirs_spec(
            *fs,
            work_on_home_env_var,
            xdg_data_home,
            user_home,
            platform,
        ),
{
    let mut out = workon_dirs(fs, &work_on_home_env_var, &user_home);
    let ghost w_part = workon_candidates(*fs, work_on_home_env_var, user_home);
    match &xdg_data_home {
        Some(x) => {
            push_if_existing(fs, &mut out, path_join(x.as_str(), "virtualenvs"));
        },
        None => {},
    }
    proof {
        assert(views(out@) =~= w_part + xdg_candidates(*fs, xdg_data_home));
    }
    match &user_home {
        Some(h) => {
            push_home_venv_dirs(fs, &mut out, h, platform);
            proof {
                assert(views(out@) =~= global_venv_dirs_spec(
                    *fs,
                    work_on_home_env_var,
                    xdg_data_home,
                    user_home,
                    platform,
                ));
            }
        },
        None => {
            proof {
                assert(views(out@) =~= global_venv_dirs_spec(
                    *fs,
                    work_on_home_env_var,
                    xdg_data_home,
                    user_home,
                    platform,
                ));
            }
        },
    }
    out
}

/// The entries of a listing that do not carry the environment marker.
pub open spec fn filter_non_envs(fs: FsSnapshot, es: Seq<Seq<char>>) -> Seq<Seq<char>>
    decreases es.len(),
{
    if es.len() == 0 {
        Seq::empty()
    } else if !fs.spec_conda_env(es[0]) {
        seq![es[0]] + filter_non_envs(fs, es.drop_first())
    } else {
        filter_non_envs(fs, es.drop_first())
    }
}

/// The entries of one directory that are not conda environments.
pub open spec fn non_conda_entries(fs: FsSnapshot, d: Seq<char>) -> Seq<Seq<char>> {
    match fs.spec_entries(d) {
        Some(es) => filter_non_envs(fs, views(es)),
        None => Seq::empty(),
    }
}

/// The concatenated non-conda entries of a listing of directories.
pub open spec fn venvs_concat(fs: FsSnapshot, dirs: Seq<Seq<char>>) -> Seq<Seq<char>>
    decreases dirs.len(),
{
    if dirs.len() == 0 {
        Seq::empty()
    } else {
        non_conda_entries(fs, dirs[0]) + venvs_concat(fs, dirs.drop_first())
    }
}

/// The set of global virtual environments of one run.
pub open spec fn global_venvs_spec(
    fs: FsSnapshot,
    workon: Option<String>,
    xdg: Option<String>,
    home: Option<String>,
    platform: Platform,
) -> Set<Seq<char>> {
    venvs_concat(fs, global_venv_dirs_spec(fs, workon, xdg, home, platform)).to_set()
}

/// Appends every entry of directory `d` that is not a conda environment.
fn push_non_conda_entries(fs: &FsSnapshot, out: &mut Vec<String>, d: &String)
    ensures
        views(final(out)@) == views(old(out)@) + non_conda_entries(*fs, d@),
{
    match lookup_list(&fs.dir_entries, d) {
        None => {
            proof {
                assert(views(out@) =~= views(out@) + non_conda_entries(*fs, d@));
            }
        },
        Some(es) => {
            let ghost evs = views(es@);
            let ghost base = views(out@);
            let mut i: usize = 0;
            proof {
                assert(evs.skip(0) =~= evs);
                assert(views(out@) + filter_non_envs(*fs, evs.skip(0)) =~= base + filter_non_envs(
                    *fs,
                    evs,
                ));
            }
            while i < es.len()
                invariant
                    i <= es.len(),
                    evs == views(es@),
                    views(out@) + filter_non_envs(*fs, evs.skip(i as int)) == base
                        + filter_non_envs(*fs, evs),
                decreases es.len() - i,
            {
                proof {
                    assert(evs.skip(i as int)[0] == es@[i as int]@);
                    assert(evs.skip(i as int).drop_first() =~= evs.skip(i + 1));
                }
                let ghost pre = views(out@);
                if !contains_path(&fs.conda_envs, &es[i]) {
                    out.push(es[i].clone());
                    proof {
                        assert(views(out@) =~= pre + seq![evs.skip(i as int)[0]]);
                        assert((pre + seq![evs.skip(i as int)[0]]) + filter_non_envs(
                            *fs,
                            evs.skip(i + 1),
                        ) =~= pre + (seq![evs.skip(i as int)[0]] + filter_non_envs(
                            *fs,
                            evs.skip(i + 1),
                        )));
                    }
                }
                i = i + 1;
            }
            proof {
                assert(evs.skip(es@.len() as int).len() == 0);
                assert(views(out@) + filter_non_envs(*fs, evs.skip(es@.len() as int)) =~= views(
                    out@,
                ));
            }
        },
    }
}

/// Lists every global virtual environment: the non-conda entries of every
/// conventional virtualenv directory, sorted and duplicate-free.
pub fn list_global_virtual_envs_paths(
    fs: &FsSnapshot,
    work_on_home_env_var: Option<String>,
    xdg_data_home: Option<String>,
    user_home: Option<String>,
    platform: Platform,
) -> (r: Vec<String>)
    ensures
        strictly_sorted(views(r@)),
        views(r@).to_set() == global_venvs_spec(
            *fs,
            work_on_home_env_var,
            xdg_data_home,
            user_home,
            platform,
        ),
{
    let ghost wo = work_on_home_env_var;
    let ghost xd = xdg_data_home;
    let ghost uh = user_home;
    let dirs = get_global_virtualenv_dirs(
        fs,
        work_on_home_env_var,
        xdg_data_home,
        user_home,
        platform,
    );
    let ghost dvs = views(dirs@);
    let mut out: Vec<String> = Vec::new();
    let mut i: usize = 0;
    proof {
        assert(dvs.skip(0) =~= dvs);
        assert(views(out@) + venvs_concat(*fs, dvs.skip(0)) =~= venvs_concat(*fs, dvs));
    }
    while i < dirs.len()
        invariant
            i <= dirs.len(),
            dvs == views(dirs@),
            views(out@) + venvs_concat(*fs, dvs.skip(i as int)) == venvs_concat(*fs, dvs),
        decreases dirs.len() - i,
    {
        proof {
            assert(dvs.skip(i as int)[0] == dirs@[i as int]@);
            assert(dvs.skip(i as int).drop_first() =~= dvs.skip(i + 1));
        }
        let ghost pre = views(out@);
        push_non_conda_entries(fs, &mut out, &dirs[i]);
        proof {
            assert((pre + non_conda_entries(*fs, dvs[i as int])) + venvs_concat(
                *fs,
                dvs.skip(i + 1),
            ) =~= pre + (non_conda_entries(*fs, dvs[i as int]) + venvs_concat(
                *fs,
                dvs.skip(i + 1),
            )));
        }
        i = i + 1;
    }
    proof {
        assert(dvs.skip(dvs.len() as int).len() == 0);
        assert(views(out@) + venvs_concat(*fs, dvs.skip(dvs.len() as int)) =~= views(out@));
    }
    canonicalize(&out)
}

} // verus!
