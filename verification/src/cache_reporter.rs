//! The deduplicating reporter: at-most-once surfacing of each discovery.
//!
//! `CacheReporter` wraps any `Reporter` and keeps the natural keys already
//! surfaced. A repeated sighting of a key is a no-op; the first sighting is
//! forwarded to the wrapped reporter and recorded atomically with respect to
//! the borrow of the reporter, so no two sightings of one key can both
//! forward. Completion events are always forwarded: each run emits exactly
//! one.

use vstd::prelude::*;
use crate::canon::{lemma_has_path_to_set, lemma_push_to_set, views};
use crate::paths::contains_path;
use crate::reporter::{EnvManager, PythonEnvironment, Reporter};

verus! {

/// Whether a sighting of key `k` is forwarded when `seen` has been surfaced.
pub open spec fn dedup_forwards(seen: Set<Seq<char>>, k: Seq<char>) -> bool {
    !seen.contains(k)
}

/// The surfaced keys after a sighting of `k`.
pub open spec fn dedup_insert(seen: Set<Seq<char>>, k: Seq<char>) -> Set<Seq<char>> {
    seen.insert(k)
}

/// A reporter decorator that surfaces each manager and each environment at
/// most once, by natural key, and forwards first sightings to the wrapped
/// reporter.
pub struct CacheReporter<R: Reporter> {
    /// The wrapped reporter receiving first sightings.
    pub reporter: R,
    seen_managers: Vec<String>,
    seen_envs: Vec<String>,
}

impl<R: Reporter> CacheReporter<R> {
    /// The manager install paths surfaced so far.
    pub closed spec fn managers_seen(self) -> Set<Seq<char>> {
        views(self.seen_managers@).to_set()
    }

    /// The environment root paths surfaced so far.
    pub closed spec fn envs_seen(self) -> Set<Seq<char>> {
        views(self.seen_envs@).to_set()
    }

    /// Wraps a reporter; nothing has been surfaced yet.
    pub fn new(reporter: R) -> (r: Self)
        ensures
            r.managers_seen() == Set::<Seq<char>>::empty(),
            r.envs_seen() == Set::<Seq<char>>::empty(),
    {
        let r = CacheReporter { reporter, seen_managers: Vec::new(), seen_envs: Vec::new() };
        proof {
            assert(r.managers_seen() =~= Set::<Seq<char>>::empty());
            assert(r.envs_seen() =~= Set::<Seq<char>>::empty());
        }
        r
    }

    /// Surfaces a manager unless its install path was already surfaced; the
    /// call is forwarded to the wrapped reporter exactly when `forwarded`.
    pub fn report_manager(&mut self, manager: &EnvManager) -> (forwarded: bool)
        ensures
            forwarded == dedup_forwards(old(self).managers_seen(), manager.install_path@),
            final(self).managers_seen() == dedup_insert(
                old(self).managers_seen(),
                manager.install_path@,
            ),
            final(self).envs_seen() == old(self).envs_seen(),
    {
        proof {
            lemma_has_path_to_set(self.seen_managers@, manager.install_path@);
        }
        if contains_path(&self.seen_managers, &manager.install_path) {
            proof {
                assert(self.managers_seen() =~= dedup_insert(
                    self.managers_seen(),
                    manager.install_path@,
                ));
            }
            false
        } else {
            proof {
                lemma_push_to_set(self.seen_managers@, manager.install_path);
            }
            self.seen_managers.push(manager.install_path.clone());
            self.reporter.report_manager(manager);
            true
        }
    }

    /// Surfaces an environment unless its root path was already surfaced; the
    /// call is forwarded to the wrapped reporter exactly when `forwarded`.
    pub fn report_environment(&mut self, env: &PythonEnvironment) -> (forwarded: bool)
        ensures
            forwarded == dedup_forwards(old(self).envs_seen(), env.root@),
            final(self).envs_seen() == dedup_insert(old(self).envs_seen(), env.root@),
            final(self).managers_seen() == old(self).managers_seen(),
    {
        proof {
            lemma_has_path_to_set(self.seen_envs@, env.root@);
        }
        if contains_path(&self.seen_envs, &env.root) {
            proof {
                assert(self.envs_seen() =~= dedup_insert(self.envs_seen(), env.root@));
            }
            false
        } else {
            proof {
                lemma_push_to_set(self.seen_envs@, env.root);
            }
            self.seen_envs.push(env.root.clone());
            self.reporter.report_environment(env);
            true
        }
    }

    /// Forwards a completion event; completions are never deduplicated.
    pub fn report_completion(&self, duration_ms: u64) {
        self.reporter.report_completion(duration_ms);
    }
}

/// A sighting of a key that was just surfaced is suppressed.
pub proof fn lemma_second_sighting_suppressed(seen: Set<Seq<char>>, k: Seq<char>)
    ensures
        !dedup_forwards(dedup_insert(seen, k), k),
{
}

/// How many sightings of key `k` in the run `keys` are forwarded, starting
/// from the surfaced set `seen`.
pub open spec fn forward_count(seen: Set<Seq<char>>, keys: Seq<Seq<char>>, k: Seq<char>) -> nat
    decreases keys.len(),
{
    if keys.len() == 0 {
        0
    } else {
        (if keys[0] == k && dedup_forwards(seen, keys[0]) {
            1nat
        } else {
            0nat
        }) + forward_count(dedup_insert(seen, keys[0]), keys.drop_first(), k)
    }
}

/// At-most-once reporting law: across any run of sightings sharing one
/// deduplicating reporter, a key is forwarded to the wrapped reporter at most
/// once; a key surfaced before the run is never forwarded; a fresh key that
/// the run sights is forwarded exactly once, however many times it recurs.
pub proof fn lemma_at_most_once(seen: Set<Seq<char>>, keys: Seq<Seq<char>>, k: Seq<char>)
    ensures
        forward_count(seen, keys, k) <= 1,
        seen.contains(k) ==> forward_count(seen, keys, k) == 0,
        !seen.contains(k) && keys.contains(k) ==> forward_count(seen, keys, k) == 1,
    decreases keys.len(),
{
    if keys.len() > 0 {
        let seen2 = dedup_insert(seen, keys[0]);
        lemma_at_most_once(seen2, keys.drop_first(), k);
        if keys[0] == k {
            assert(seen2.contains(k));
        } else {
            assert(seen2.contains(k) == seen.contains(k));
            if keys.contains(k) {
                let j = choose|j: int| 0 <= j < keys.len() && keys[j] == k;
                assert(j >= 1);
                assert(keys.drop_first()[j - 1] == k);
                assert(keys.drop_first().contains(k));
            }
        }
    }
}

} // verus!
