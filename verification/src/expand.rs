//! Expansion of one canonical candidate path into concrete environment roots.
//!
//! A candidate is classified by the snapshot's markers: an install root
//! contributes itself, the usable environments under its `envs` directory and
//! the directories its local configuration file declares; a directory that is
//! itself an environment contributes itself alone; a container with an `envs`
//! child contributes the usable environments under it, but not itself; any
//! other path contributes nothing.

use vstd::prelude::*;
use crate::canon::{canonicalize, clone_push_all, strictly_sorted, views};
use crate::conda_locations::{lemma_norm_image_fixed, lemma_norm_views_to_set, norm_all, norm_image};
use crate::fs_model::{lookup_list, FsSnapshot};
use crate::paths::{contains_path, join_spec, path_join};

verus! {

/// The entries of a listing that carry the environment marker, in order.
pub open spec fn filter_envs(fs: FsSnapshot, es: Seq<Seq<char>>) -> Seq<Seq<char>>
    decreases es.len(),
{
    if es.len() == 0 {
        Seq::empty()
    } else if fs.spec_conda_env(es[0]) {
        seq![es[0]] + filter_envs(fs, es.drop_first())
    } else {
        filter_envs(fs, es.drop_first())
    }
}

/// The usable environments listed inside one directory of the snapshot.
pub open spec fn env_entries(fs: FsSnapshot, d: Seq<char>) -> Seq<Seq<char>> {
    match fs.spec_entries(d) {
        Some(es) => filter_envs(fs, views(es)),
        None => Seq::empty(),
    }
}

/// What one candidate path expands to, before canonicalization.
pub open spec fn expand_spec(fs: FsSnapshot, d: Seq<char>) -> Seq<Seq<char>> {
    let envs_dir = join_spec(d, "envs"@);
    if fs.spec_conda_install(d) {
        seq![d] + env_entries(fs, envs_dir) + (match fs.spec_condarc_at(d) {
            Some(v) => views(v),
            None => Seq::<Seq<char>>::empty(),
        })
    } else if fs.spec_conda_env(d) {
        seq![d]
    } else if fs.spec_existing(envs_dir) {
        env_entries(fs, envs_dir)
    } else {
        Seq::empty()
    }
}

/// Appends every entry of directory `d` that carries the environment marker.
fn push_env_entries(fs: &FsSnapshot, out: &mut Vec<String>, d: &String)
    ensures
        views(final(out)@) == views(old(out)@) + env_entries(*fs, d@),
{
    match lookup_list(&fs.dir_entries, d) {
        None => {
            proof {
                assert(views(out@) =~= views(out@) + env_entries(*fs, d@));
            }
        },
        Some(es) => {
            let ghost evs = views(es@);
            let ghost base = views(out@);
            let mut i: usize = 0;
            proof {
                assert(evs.skip(0) =~= evs);
                assert(views(out@) + filter_envs(*fs, evs.skip(0)) =~= base + filter_envs(
                    *fs,
                    evs,
                ));
            }
            while i < es.len()
                invariant
                    i <= es.len(),
                    evs == views(es@),
                    views(out@) + filter_envs(*fs, evs.skip(i as int)) == base + filter_envs(
                        *fs,
                        evs,
                    ),
                decreases es.len() - i,
            {
                proof {
                    assert(evs.skip(i as int)[0] == es@[i as int]@);
                    assert(evs.skip(i as int).drop_first() =~= evs.skip(i + 1));
                }
                let ghost pre = views(out@);
                if contains_path(&fs.conda_envs, &es[i]) {
                    out.push(es[i].clone());
                    proof {
                        assert(views(out@) =~= pre + seq![evs.skip(i as int)[0]]);
                        assert((pre + seq![evs.skip(i as int)[0]]) + filter_envs(
                            *fs,
                            evs.skip(i + 1),
                        ) =~= pre + (seq![evs.skip(i as int)[0]] + filter_envs(
                            *fs,
                            evs.skip(i + 1),
                        )));
                    }
                }
                i = i + 1;
            }
            proof {
                assert(evs.skip(es@.len() as int).len() == 0);
                assert(views(out@) + filter_envs(*fs, evs.skip(es@.len() as int)) =~= views(
                    out@,
                ));
            }
        },
    }
}

/// Expands one candidate directory into the environment roots it stands for,
/// rewritten to on-disk casing, sorted and duplicate-free: every returned
/// path is a fixed point of normalization, so the natural keys downstream
/// deduplication relies on are the normalized paths.
pub fn get_environments(fs: &FsSnapshot, conda_dir: &String) -> (r: Vec<String>)
    requires
        fs.wf(),
    ensures
        strictly_sorted(views(r@)),
        views(r@).to_set() == norm_image(*fs, expand_spec(*fs, conda_dir@).to_set()),
        forall|p: Seq<char>|
            views(r@).to_set().contains(p) ==> #[trigger] fs.spec_normalize(p) == p,
{
    let mut raw: Vec<String> = Vec::new();
    let envs_dir = path_join(conda_dir.as_str(), "envs");
    if contains_path(&fs.conda_installs, conda_dir) {
        raw.push(conda_dir.clone());
        push_env_entries(fs, &mut raw, &envs_dir);
        match lookup_list(&fs.condarc_at, conda_dir) {
            Some(v) => {
                clone_push_all(&mut raw, v);
            },
            None => {},
        }
        proof {
            assert(views(raw@) =~= expand_spec(*fs, conda_dir@));
        }
    } else if contains_path(&fs.conda_envs, conda_dir) {
        raw.push(conda_dir.clone());
        proof {
            assert(views(raw@) =~= expand_spec(*fs, conda_dir@));
        }
    } else if contains_path(&fs.existing, &envs_dir) {
        push_env_entries(fs, &mut raw, &envs_dir);
        proof {
            assert(views(raw@) =~= expand_spec(*fs, conda_dir@));
        }
    } else {
        proof {
            assert(views(raw@) =~= expand_spec(*fs, conda_dir@));
        }
    }
    let normed = norm_all(fs, &raw);
    proof {
        lemma_norm_views_to_set(*fs, views(raw@));
        lemma_norm_image_fixed(*fs, expand_spec(*fs, conda_dir@).to_set());
    }
    canonicalize(&normed)
}

/// Every environment root that some candidate of the set expands to.
pub open spec fn expansion_of(fs: FsSnapshot, cs: Set<Seq<char>>) -> Set<Seq<char>> {
    Set::new(|e: Seq<char>| exists|p: Seq<char>| cs.contains(p) && expand_spec(fs, p).contains(e))
}

/// Concatenation unions the element sets.
pub proof fn lemma_concat_to_set(a: Seq<Seq<char>>, b: Seq<Seq<char>>)
    ensures
        (a + b).to_set() == a.to_set().union(b.to_set()),
{
    assert forall|e: Seq<char>| (a + b).to_set().contains(e) implies a.to_set().union(
        b.to_set(),
    ).contains(e) by {
        let k = choose|k: int| 0 <= k < (a + b).len() && (a + b)[k] == e;
        if k < a.len() {
            assert(a[k] == e);
        } else {
            assert(b[k - a.len()] == e);
        }
    }
    assert forall|e: Seq<char>| a.to_set().union(b.to_set()).contains(e) implies (
    a + b).to_set().contains(e) by {
        if a.to_set().contains(e) {
            let k = choose|k: int| 0 <= k < a.len() && a[k] == e;
            assert((a + b)[k] == e);
        } else {
            let k = choose|k: int| 0 <= k < b.len() && b[k] == e;
            assert((a + b)[k + a.len()] == e);
        }
    }
    assert((a + b).to_set() =~= a.to_set().union(b.to_set()));
}

} // verus!
