//! Orchestration of one discovery run.
//!
//! The orchestrator dispatches every registered locator over the run's
//! configuration, times each invocation, forwards every discovery through the
//! deduplicating reporter, then runs the fixed-purpose scans (caller-supplied
//! interpreter paths, global virtual environments, custom search roots),
//! records their timings under dedicated totals, and finally reports
//! completion exactly once. A locator that produces nothing simply
//! contributes nothing; no failure of one phase is escalated.

use vstd::prelude::*;
use crate::cache_reporter::CacheReporter;
use crate::canon::views;
use crate::conda_locations::{
    conda_environment_set, expansion_prefix, get_conda_environment_paths, norm_image,
};
use crate::config::Configuration;
use crate::expand::{expand_spec, expansion_of, get_environments};
use crate::fs_model::FsSnapshot;
use crate::global_virtualenvs::{global_venvs_spec, list_global_virtual_envs_paths};
use crate::paths::contains_path;
use crate::reporter::{EnvManager, EnvironmentKind, ManagerKind, PythonEnvironment, Reporter};

verus! {

/// One discovery produced by a locator.
pub enum LocatorResult {
    Manager(EnvManager),
    Environment(PythonEnvironment),
}

/// The natural key of one discovery.
pub open spec fn result_key(r: LocatorResult) -> Seq<char> {
    match r {
        LocatorResult::Manager(m) => m.install_path@,
        LocatorResult::Environment(e) => e.root@,
    }
}

/// A discovery strategy for one environment family. Implementations consume
/// the configured scope and yield zero or more discoveries; they expose a
/// name for diagnostics and timing.
pub trait Locator {
    /// The locator's identifying name.
    fn name(&self) -> String;

    /// Discovers the managers and environments of this locator's family
    /// within the configured scope.
    fn find(&self, config: &Configuration, fs: &FsSnapshot) -> Vec<LocatorResult>
        requires
            fs.wf(),
    ;
}

/// The per-run timing summary: one entry per locator, in dispatch order, and
/// the four named phase totals, in milliseconds.
pub struct DiscoverySummary {
    /// Elapsed time of each locator, keyed by its name.
    pub find_locators_times: Vec<(String, u64)>,
    /// Total elapsed time of the locator phase.
    pub find_locators_time: u64,
    /// Elapsed time of the caller-supplied interpreter-path scan.
    pub find_path_time: u64,
    /// Elapsed time of the global-virtualenv scan.
    pub find_global_virtual_envs_time: u64,
    /// Elapsed time of the custom-search-path scan.
    pub find_search_paths_time: u64,
}

/// Relies on std::time::Instant::now: an opaque reading of the monotonic
/// clock; nothing is assumed of the value.
#[verifier::external_body]
fn now_instant() -> std::time::Instant {
    std::time::Instant::now()
}

/// Relies on std::time::Instant::elapsed: the time since the reading, here
/// converted to whole milliseconds; nothing is assumed of the value.
#[verifier::external_body]
fn elapsed_ms(start: &std::time::Instant) -> u64 {
    start.elapsed().as_millis() as u64
}

#[verifier::external_type_specification]
#[verifier::external_body]
pub struct ExInstant(std::time::Instant);

/// The environment keys among the first `n` results of a listing.
pub open spec fn env_keys_prefix(rs: Seq<LocatorResult>, n: int) -> Set<Seq<char>> {
    Set::new(
        |p: Seq<char>|
            exists|j: int|
                0 <= j < n && (#[trigger] rs[j]) is Environment && result_key(rs[j]) == p,
    )
}

/// The manager keys among the first `n` results of a listing.
pub open spec fn manager_keys_prefix(rs: Seq<LocatorResult>, n: int) -> Set<Seq<char>> {
    Set::new(
        |p: Seq<char>|
            exists|j: int| 0 <= j < n && (#[trigger] rs[j]) is Manager && result_key(rs[j]) == p,
    )
}

/// Forwards every discovery of one locator through the deduplicating
/// reporter: afterwards the surfaced sets hold exactly the old keys and the
/// keys of these results.
fn forward_results<R: Reporter>(reporter: &mut CacheReporter<R>, results: &Vec<LocatorResult>)
    ensures
        final(reporter).envs_seen() == old(reporter).envs_seen().union(
            env_keys_prefix(results@, results@.len() as int),
        ),
        final(reporter).managers_seen() == old(reporter).managers_seen().union(
            manager_keys_prefix(results@, results@.len() as int),
        ),
{
    let ghost rs = results@;
    let mut i: usize = 0;
    proof {
        assert(reporter.envs_seen() =~= old(reporter).envs_seen().union(env_keys_prefix(rs, 0)));
        assert(reporter.managers_seen() =~= old(reporter).managers_seen().union(
            manager_keys_prefix(rs, 0),
        ));
    }
    while i < results.len()
        invariant
            i <= results.len(),
            rs == results@,
            reporter.envs_seen() == old(reporter).envs_seen().union(
                env_keys_prefix(rs, i as int),
            ),
            reporter.managers_seen() == old(reporter).managers_seen().union(
                manager_keys_prefix(rs, i as int),
            ),
        decreases results.len() - i,
    {
        match &results[i] {
            LocatorResult::Manager(m) => {
                reporter.report_manager(m);
                proof {
                    assert(env_keys_prefix(rs, i + 1) =~= env_keys_prefix(rs, i as int));
                    assert(manager_keys_prefix(rs, i + 1) =~= manager_keys_prefix(
                        rs,
                        i as int,
                    ).insert(result_key(rs[i as int])));
                    assert(reporter.managers_seen() =~= old(reporter).managers_seen().union(
                        manager_keys_prefix(rs, i + 1),
                    ));
                }
            },
            LocatorResult::Environment(e) => {
                reporter.report_environment(e);
                proof {
                    assert(manager_keys_prefix(rs, i + 1) =~= manager_keys_prefix(rs, i as int));
                    assert(env_keys_prefix(rs, i + 1) =~= env_keys_prefix(rs, i as int).insert(
                        result_key(rs[i as int]),
                    ));
                    assert(reporter.envs_seen() =~= old(reporter).envs_seen().union(
                        env_keys_prefix(rs, i + 1),
                    ));
                }
            },
        }
        i = i + 1;
    }
}

/// Reports every path of a listing as an environment of the given kind:
/// afterwards the surfaced environment set holds exactly the old keys and
/// these paths.
fn report_env_paths<R: Reporter>(
    reporter: &mut CacheReporter<R>,
    paths: &Vec<String>,
    kind: EnvironmentKind,
)
    ensures
        final(reporter).envs_seen() == old(reporter).envs_seen().union(views(paths@).to_set()),
        final(reporter).managers_seen() == old(reporter).managers_seen(),
{
    let ghost ps = views(paths@);
    let mut i: usize = 0;
    proof {
        assert(reporter.envs_seen() =~= old(reporter).envs_seen().union(ps.take(0).to_set()));
    }
    while i < paths.len()
        invariant
            i <= paths.len(),
            ps == views(paths@),
            reporter.envs_seen() == old(reporter).envs_seen().union(ps.take(i as int).to_set()),
            reporter.managers_seen() == old(reporter).managers_seen(),
        decreases paths.len() - i,
    {
        let env = PythonEnvironment { root: paths[i].clone(), kind, manager: None };
        reporter.report_environment(&env);
        proof {
            assert(ps.take(i + 1) =~= ps.take(i as int).push(ps[i as int]));
            crate::canon::lemma_insert_to_set(ps.take(i as int), i as int, ps[i as int]);
            assert(ps.take(i as int).push(ps[i as int]) =~= ps.take(i as int).insert(
                i as int,
                ps[i as int],
            ));
            assert(reporter.envs_seen() =~= old(reporter).envs_seen().union(
                ps.take(i + 1).to_set(),
            ));
        }
        i = i + 1;
    }
    proof {
        assert(ps.take(ps.len() as int) =~= ps);
    }
}

/// Runs one discovery: dispatches and times every locator, forwards all
/// discoveries through the deduplicating reporter, runs the caller-supplied
/// interpreter-path scan, the global-virtualenv scan and the custom
/// search-root scan, and reports completion exactly once, afterwards.
///
/// The surfaced sets only grow, and afterwards they hold every path the
/// built-in scans yield — so each of those, and each locator discovery, was
/// forwarded to the wrapped reporter at most once across the whole run.
pub fn find_and_report_envs<R: Reporter, L: Locator>(
    reporter: &mut CacheReporter<R>,
    config: &Configuration,
    locators: &Vec<L>,
    fs: &FsSnapshot,
    path_env_roots: &Vec<String>,
) -> (summary: DiscoverySummary)
    requires
        fs.wf(),
    ensures
        summary.find_locators_times@.len() == locators@.len(),
        old(reporter).envs_seen().subset_of(final(reporter).envs_seen()),
        old(reporter).managers_seen().subset_of(final(reporter).managers_seen()),
        views(path_env_roots@).to_set().subset_of(final(reporter).envs_seen()),
        global_venvs_spec(
            *fs,
            config.env_vars.workon_home,
            config.env_vars.xdg_data_home,
            config.env_vars.home,
            config.platform,
        ).subset_of(final(reporter).envs_seen()),
        norm_image(*fs, expansion_of(*fs, views(config.search_paths@).to_set())).subset_of(
            final(reporter).envs_seen(),
        ),
{
    let total_start = now_instant();
    let mut times: Vec<(String, u64)> = Vec::new();
    let mut i: usize = 0;
    while i < locators.len()
        invariant
            i <= locators.len(),
            fs.wf(),
            times@.len() == i,
            old(reporter).envs_seen().subset_of(reporter.envs_seen()),
            old(reporter).managers_seen().subset_of(reporter.managers_seen()),
        decreases locators.len() - i,
    {
        let start = now_instant();
        let results = locators[i].find(config, fs);
        let dt = elapsed_ms(&start);
        times.push((locators[i].name(), dt));
        forward_results(reporter, &results);
        i = i + 1;
    }
    let find_locators_time = elapsed_ms(&total_start);

    let path_start = now_instant();
    report_env_paths(reporter, path_env_roots, EnvironmentKind::Unknown);
    let find_path_time = elapsed_ms(&path_start);

    let gv_start = now_instant();
    let workon = clone_opt(&config.env_vars.workon_home);
    let xdg = clone_opt(&config.env_vars.xdg_data_home);
    let home = clone_opt(&config.env_vars.home);
    let venvs = list_global_virtual_envs_paths(fs, workon, xdg, home, config.platform);
    report_env_paths(reporter, &venvs, EnvironmentKind::Venv);
    let find_global_virtual_envs_time = elapsed_ms(&gv_start);

    let sp_start = now_instant();
    let ghost spv = views(config.search_paths@);
    let mut j: usize = 0;
    while j < config.search_paths.len()
        invariant
            j <= config.search_paths.len(),
            fs.wf(),
            spv == views(config.search_paths@),
            old(reporter).envs_seen().subset_of(reporter.envs_seen()),
            old(reporter).managers_seen().subset_of(reporter.managers_seen()),
            views(path_env_roots@).to_set().subset_of(reporter.envs_seen()),
            global_venvs_spec(
                *fs,
                config.env_vars.workon_home,
                config.env_vars.xdg_data_home,
                config.env_vars.home,
                config.platform,
            ).subset_of(reporter.envs_seen()),
            norm_image(*fs, expansion_prefix(*fs, spv, j as int)).subset_of(
                reporter.envs_seen(),
            ),
        decreases config.search_paths.len() - j,
    {
        let envs = get_environments(fs, &config.search_paths[j]);
        report_env_paths(reporter, &envs, EnvironmentKind::Unknown);
        proof {
            assert forall|e: Seq<char>| norm_image(*fs, expansion_prefix(*fs, spv, j + 1)).contains(
                e,
            ) implies reporter.envs_seen().contains(e) by {
                let m = choose|m: Seq<char>|
                    expansion_prefix(*fs, spv, j + 1).contains(m) && e == fs.spec_normalize(m);
                let k = choose|k: int|
                    0 <= k < j + 1 && expand_spec(*fs, #[trigger] spv[k]).contains(m);
                if k < j {
                    assert(expansion_prefix(*fs, spv, j as int).contains(m));
                    assert(norm_image(*fs, expansion_prefix(*fs, spv, j as int)).contains(e));
                } else {
                    assert(expand_spec(*fs, spv[j as int]).to_set().contains(m));
                    assert(norm_image(*fs, expand_spec(*fs, spv[j as int]).to_set()).contains(e));
                    assert(views(envs@).to_set().contains(e));
                }
            }
        }
        j = j + 1;
    }
    let find_search_paths_time = elapsed_ms(&sp_start);

    proof {
        assert forall|e: Seq<char>|
            norm_image(*fs, expansion_of(*fs, views(config.search_paths@).to_set())).contains(e)
            implies reporter.envs_seen().contains(e) by {
            let m = choose|m: Seq<char>|
                expansion_of(*fs, views(config.search_paths@).to_set()).contains(m) && e
                    == fs.spec_normalize(m);
            let p = choose|p: Seq<char>|
                views(config.search_paths@).to_set().contains(p) && expand_spec(*fs, p).contains(
                    m,
                );
            let k = choose|k: int| 0 <= k < spv.len() && spv[k] == p;
            assert(expand_spec(*fs, spv[k]).contains(m));
            assert(expansion_prefix(*fs, spv, spv.len() as int).contains(m));
            assert(norm_image(*fs, expansion_prefix(*fs, spv, spv.len() as int)).contains(e));
        }
    }

    let total = elapsed_ms(&total_start);
    reporter.report_completion(total);
    DiscoverySummary {
        find_locators_times: times,
        find_locators_time,
        find_path_time,
        find_global_virtual_envs_time,
        find_search_paths_time,
    }
}

/// Clones an optional path.
fn clone_opt(o: &Option<String>) -> (r: Option<String>)
    ensures
        r == *o,
{
    match o {
        Some(s) => Some(s.clone()),
        None => None,
    }
}

/// The built-in locator for the conda family: it discovers every conda
/// environment reachable from the configured scope and reports the install
/// roots among them as managers.
pub struct CondaLocator {
}

impl CondaLocator {
    /// The conda family's discoveries over the configured scope: the
    /// environment keys among the results are exactly the discovered conda
    /// environment set, and a manager result appears for exactly the
    /// discovered roots that carry the install marker.
    pub fn discover(&self, config: &Configuration, fs: &FsSnapshot) -> (results: Vec<
        LocatorResult,
    >)
        requires
            fs.wf(),
        ensures
            env_keys_prefix(results@, results@.len() as int) == conda_environment_set(
                *fs,
                config.env_vars,
                config.additional_env_dirs@,
                config.platform,
            ),
            manager_keys_prefix(results@, results@.len() as int) == Set::new(
                |p: Seq<char>|
                    conda_environment_set(
                        *fs,
                        config.env_vars,
                        config.additional_env_dirs@,
                        config.platform,
                    ).contains(p) && fs.spec_conda_install(p),
            ),
    {
        let paths = get_conda_environment_paths(
            fs,
            &config.env_vars,
            &config.additional_env_dirs,
            config.platform,
        );
        let ghost pvs = views(paths@);
        let ghost cset = conda_environment_set(
            *fs,
            config.env_vars,
            config.additional_env_dirs@,
            config.platform,
        );
        let mut results: Vec<LocatorResult> = Vec::new();
        let mut i: usize = 0;
        proof {
            assert(env_keys_prefix(results@, 0) =~= pvs.take(0).to_set());
            assert(manager_keys_prefix(results@, 0) =~= Set::new(
                |p: Seq<char>| pvs.take(0).to_set().contains(p) && fs.spec_conda_install(p),
            ));
        }
        while i < paths.len()
            invariant
                i <= paths.len(),
                pvs == views(paths@),
                env_keys_prefix(results@, results@.len() as int) == pvs.take(i as int).to_set(),
                manager_keys_prefix(results@, results@.len() as int) == Set::new(
                    |p: Seq<char>|
                        pvs.take(i as int).to_set().contains(p) && fs.spec_conda_install(p),
                ),
            decreases paths.len() - i,
        {
            let ghost rs0 = results@;
            let ghost n0 = rs0.len() as int;
            let is_install = contains_path(&fs.conda_installs, &paths[i]);
            if is_install {
                results.push(
                    LocatorResult::Manager(
                        EnvManager { install_path: paths[i].clone(), kind: ManagerKind::Conda },
                    ),
                );
            }
            results.push(
                LocatorResult::Environment(
                    PythonEnvironment {
                        root: paths[i].clone(),
                        kind: EnvironmentKind::Conda,
                        manager: None,
                    },
                ),
            );
            proof {
                let rs1 = results@;
                let n1 = rs1.len() as int;
                let key = pvs[i as int];
                assert(forall|j: int| 0 <= j < n0 ==> rs1[j] == rs0[j]);
                assert(rs1[n1 - 1] is Environment && result_key(rs1[n1 - 1]) == key);
                assert(pvs.take(i + 1) =~= pvs.take(i as int).push(key));
                assert(pvs.take(i as int).push(key) =~= pvs.take(i as int).insert(
                    i as int,
                    key,
                ));
                crate::canon::lemma_insert_to_set(pvs.take(i as int), i as int, key);
                assert forall|p: Seq<char>| env_keys_prefix(rs1, n1).contains(p) implies pvs.take(
                    i + 1,
                ).to_set().contains(p) by {
                    let j = choose|j: int|
                        0 <= j < n1 && (#[trigger] rs1[j]) is Environment && result_key(rs1[j])
                            == p;
                    if j < n0 {
                        assert(env_keys_prefix(rs0, n0).contains(p));
                    } else {
                        assert(p == key);
                    }
                }
                assert forall|p: Seq<char>| pvs.take(i + 1).to_set().contains(p)
                    implies env_keys_prefix(rs1, n1).contains(p) by {
                    if pvs.take(i as int).to_set().contains(p) {
                        let j = choose|j: int|
                            0 <= j < n0 && (#[trigger] rs0[j]) is Environment && result_key(
                                rs0[j],
                            ) == p;
                        assert(rs1[j] is Environment && result_key(rs1[j]) == p);
                    } else {
                        assert(rs1[n1 - 1] is Environment && result_key(rs1[n1 - 1]) == p);
                    }
                }
                assert(env_keys_prefix(rs1, n1) =~= pvs.take(i + 1).to_set());
                let mnew = Set::new(
                    |p: Seq<char>|
                        pvs.take(i + 1).to_set().contains(p) && fs.spec_conda_install(p),
                );
                assert forall|p: Seq<char>| manager_keys_prefix(rs1, n1).contains(p)
                    implies mnew.contains(p) by {
                    let j = choose|j: int|
                        0 <= j < n1 && (#[trigger] rs1[j]) is Manager && result_key(rs1[j]) == p;
                    if j < n0 {
                        assert(manager_keys_prefix(rs0, n0).contains(p));
                    } else {
                        assert(is_install && p == key);
                    }
                }
                assert forall|p: Seq<char>| mnew.contains(p) implies manager_keys_prefix(
                    rs1,
                    n1,
                ).contains(p) by {
                    if pvs.take(i as int).to_set().contains(p) {
                        assert(Set::new(
                            |q: Seq<char>|
                                pvs.take(i as int).to_set().contains(q) && fs.spec_conda_install(
                                    q,
                                ),
                        ).contains(p));
                        assert(manager_keys_prefix(rs0, n0).contains(p));
                        let j = choose|j: int|
                            0 <= j < n0 && (#[trigger] rs0[j]) is Manager && result_key(rs0[j])
                                == p;
                        assert(rs1[j] is Manager && result_key(rs1[j]) == p);
                    } else {
                        assert(p == key && fs.spec_conda_install(key));
                        assert(rs1[n0] is Manager && result_key(rs1[n0]) == p);
                    }
                }
                assert(manager_keys_prefix(rs1, n1) =~= mnew);
            }
            i = i + 1;
        }
        proof {
            assert(pvs.take(pvs.len() as int) =~= pvs);
            assert(Set::new(
                |p: Seq<char>| pvs.to_set().contains(p) && fs.spec_conda_install(p),
            ) =~= Set::new(|p: Seq<char>| cset.contains(p) && fs.spec_conda_install(p)));
        }
        results
    }
}

impl Locator for CondaLocator {
    fn name(&self) -> String {
        "conda".to_owned()
    }

    fn find(&self, config: &Configuration, fs: &FsSnapshot) -> Vec<LocatorResult> {
        self.discover(config, fs)
    }
}

} // verus!
