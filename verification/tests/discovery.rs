use pet_discovery::conda_locations::{
    get_conda_environment_paths, get_conda_environment_paths_from_additional_paths,
    get_conda_environment_paths_from_conda_rc, get_conda_environment_paths_from_known_paths,
    get_conda_envs_from_environment_txt, get_known_conda_install_locations,
};
use pet_discovery::canon::canonicalize;
use pet_discovery::config::{EnvVariables, Platform};
use pet_discovery::expand::get_environments;
use pet_discovery::fs_model::{norm_case, FsSnapshot};
use pet_discovery::global_virtualenvs::{
    get_global_virtualenv_dirs, list_global_virtual_envs_paths,
};

fn empty_snapshot() -> FsSnapshot {
    FsSnapshot {
        existing: vec![],
        directories: vec![],
        dir_entries: vec![],
        conda_envs: vec![],
        conda_installs: vec![],
        casing: vec![],
        file_lines: vec![],
        condarc_env_dirs: None,
        condarc_at: vec![],
    }
}

fn empty_vars() -> EnvVariables {
    EnvVariables {
        home: None,
        userprofile: None,
        programdata: None,
        allusersprofile: None,
        homedrive: None,
        conda_root: None,
        conda_prefix: None,
        conda: None,
        xdg_data_home: None,
        workon_home: None,
        known_global_search_locations: vec![],
    }
}

fn s(x: &str) -> String {
    String::from(x)
}

#[test]
fn normalization_is_idempotent_on_concrete_paths() {
    let mut fs = empty_snapshot();
    fs.casing = vec![
        (s("c:/users/u/miniconda3"), s("C:/Users/U/Miniconda3")),
        (s("C:/Users/U/Miniconda3"), s("C:/Users/U/Miniconda3")),
    ];
    let once = norm_case(&fs, &s("c:/users/u/miniconda3"));
    assert_eq!(once, s("C:/Users/U/Miniconda3"));
    let twice = norm_case(&fs, &once);
    assert_eq!(twice, once);
    // A path the casing map does not know passes through unchanged.
    let other = norm_case(&fs, &s("/tmp/x"));
    assert_eq!(other, s("/tmp/x"));
    assert_eq!(norm_case(&fs, &other), other);
}

#[test]
fn environment_txt_lines_are_normalized() {
    let mut fs = empty_snapshot();
    fs.file_lines = vec![(
        s("/home/u/.conda/environments.txt"),
        vec![s("/home/u/anaconda3"), s("/OPT/x")],
    )];
    fs.casing = vec![(s("/OPT/x"), s("/opt/X"))];
    let mut vars = empty_vars();
    vars.home = Some(s("/home/u"));
    let envs = get_conda_envs_from_environment_txt(&fs, &vars);
    assert_eq!(envs, vec![s("/home/u/anaconda3"), s("/opt/X")]);
}

#[test]
fn environment_txt_absent_is_empty() {
    let fs = empty_snapshot();
    let mut vars = empty_vars();
    vars.home = Some(s("/home/u"));
    assert!(get_conda_envs_from_environment_txt(&fs, &vars).is_empty());
    assert!(get_conda_envs_from_environment_txt(&fs, &empty_vars()).is_empty());
}

#[test]
fn conda_rc_declared_dirs_are_taken_verbatim() {
    let mut fs = empty_snapshot();
    assert!(get_conda_environment_paths_from_conda_rc(&fs).is_empty());
    fs.condarc_env_dirs = Some(vec![s("/data/envs"), s("/extra")]);
    assert_eq!(
        get_conda_environment_paths_from_conda_rc(&fs),
        vec![s("/data/envs"), s("/extra")]
    );
}

#[test]
fn known_paths_keep_directory_entries_and_global_locations() {
    let mut fs = empty_snapshot();
    fs.dir_entries = vec![(
        s("/home/u/.conda/envs"),
        vec![s("/home/u/.conda/envs/a"), s("/home/u/.conda/envs/file.txt")],
    )];
    fs.directories = vec![s("/home/u/.conda/envs/a")];
    let mut vars = empty_vars();
    vars.home = Some(s("/home/u"));
    vars.known_global_search_locations = vec![s("/srv/global")];
    let got = get_conda_environment_paths_from_known_paths(&fs, &vars);
    assert_eq!(got, vec![s("/home/u/.conda/envs/a"), s("/srv/global")]);
}

#[test]
fn additional_paths_list_subdirectories_then_themselves() {
    let mut fs = empty_snapshot();
    fs.dir_entries = vec![(s("/extra"), vec![s("/extra/e1"), s("/extra/e2")])];
    fs.directories = vec![s("/extra/e1"), s("/extra/e2")];
    let got = get_conda_environment_paths_from_additional_paths(&fs, &vec![s("/extra")]);
    assert_eq!(got, vec![s("/extra/e1"), s("/extra/e2"), s("/extra")]);
}

#[test]
fn known_install_locations_unix_keeps_only_present_directories() {
    let mut fs = empty_snapshot();
    fs.directories = vec![s("/opt/anaconda3"), s("/h/.conda")];
    let mut vars = empty_vars();
    vars.home = Some(s("/h"));
    let got = get_known_conda_install_locations(&fs, &vars, Platform::Linux);
    assert_eq!(got, vec![s("/h/.conda"), s("/opt/anaconda3")]);
}

#[test]
fn conda_env_variables_are_included_verbatim() {
    // An explicitly configured root is never filtered away, even when the
    // snapshot does not list it as a directory.
    let fs = empty_snapshot();
    let mut vars = empty_vars();
    vars.conda_root = Some(s("/cr"));
    vars.conda_prefix = Some(s("/cp"));
    vars.conda = Some(s("/cbin"));
    let got = get_known_conda_install_locations(&fs, &vars, Platform::Linux);
    assert_eq!(got, vec![s("/cbin"), s("/cp"), s("/cr")]);
    let got_win = get_known_conda_install_locations(&fs, &vars, Platform::Windows);
    assert_eq!(got_win, vec![s("/cbin"), s("/cp"), s("/cr")]);
}

#[test]
fn known_install_locations_windows_normalizes_casing() {
    let mut fs = empty_snapshot();
    fs.directories = vec![s("C:/U/anaconda3"), s("C:/PD/miniconda3")];
    fs.casing = vec![(s("C:/U/anaconda3"), s("C:/U/Anaconda3"))];
    let mut vars = empty_vars();
    vars.userprofile = Some(s("C:/U"));
    vars.programdata = Some(s("C:/PD"));
    vars.homedrive = Some(s(""));
    let got = get_known_conda_install_locations(&fs, &vars, Platform::Windows);
    assert_eq!(got, vec![s("C:/PD/miniconda3"), s("C:/U/Anaconda3")]);
}

#[test]
fn expansion_classifies_install_root_with_envs_children() {
    // An install root with two usable environments and one invalid entry
    // under `envs` expands to exactly three roots; the invalid one is absent.
    let mut fs = empty_snapshot();
    fs.conda_installs = vec![s("/c")];
    fs.dir_entries = vec![(
        s("/c/envs"),
        vec![s("/c/envs/a"), s("/c/envs/b"), s("/c/envs/bad")],
    )];
    fs.conda_envs = vec![s("/c/envs/a"), s("/c/envs/b")];
    let got = get_environments(&fs, &s("/c"));
    assert_eq!(got, vec![s("/c"), s("/c/envs/a"), s("/c/envs/b")]);
    assert_eq!(got.len(), 3);
    assert!(!got.contains(&s("/c/envs/bad")));
}

#[test]
fn expansion_of_plain_environment_is_itself() {
    let mut fs = empty_snapshot();
    fs.conda_envs = vec![s("/venv")];
    assert_eq!(get_environments(&fs, &s("/venv")), vec![s("/venv")]);
}

#[test]
fn expansion_of_container_excludes_the_container() {
    let mut fs = empty_snapshot();
    fs.existing = vec![s("/store/envs")];
    fs.dir_entries = vec![(s("/store/envs"), vec![s("/store/envs/x"), s("/store/envs/y")])];
    fs.conda_envs = vec![s("/store/envs/x")];
    let got = get_environments(&fs, &s("/store"));
    assert_eq!(got, vec![s("/store/envs/x")]);
}

#[test]
fn expansion_of_unmarked_path_is_empty() {
    let fs = empty_snapshot();
    assert!(get_environments(&fs, &s("/nowhere")).is_empty());
}

#[test]
fn expansion_includes_install_local_config_dirs() {
    let mut fs = empty_snapshot();
    fs.conda_installs = vec![s("/c")];
    fs.condarc_at = vec![(s("/c"), vec![s("/declared")])];
    let got = get_environments(&fs, &s("/c"));
    assert_eq!(got, vec![s("/c"), s("/declared")]);
}

#[test]
fn collector_is_deterministic_across_runs() {
    let mut fs = empty_snapshot();
    fs.conda_envs = vec![s("/home/u/.conda/envs/a"), s("/opt/anaconda3")];
    fs.directories = vec![s("/opt/anaconda3"), s("/home/u/.conda/envs/a")];
    fs.dir_entries = vec![(
        s("/home/u/.conda/envs"),
        vec![s("/home/u/.conda/envs/a")],
    )];
    let mut vars = empty_vars();
    vars.home = Some(s("/home/u"));
    let r1 = get_conda_environment_paths(&fs, &vars, &vec![], Platform::Linux);
    let r2 = get_conda_environment_paths(&fs, &vars, &vec![], Platform::Linux);
    assert_eq!(r1, r2);
}

#[test]
fn merging_in_any_order_gives_the_same_canonical_listing() {
    let a = vec![s("/b"), s("/a"), s("/c")];
    let b = vec![s("/a"), s("/d")];
    let mut ab = a.clone();
    ab.extend(b.clone());
    let mut ba = b.clone();
    ba.extend(a.clone());
    let m1 = canonicalize(&ab);
    let m2 = canonicalize(&ba);
    assert_eq!(m1, m2);
    assert_eq!(m1, vec![s("/a"), s("/b"), s("/c"), s("/d")]);
}

#[test]
fn strategies_yield_nothing_when_home_is_absent_from_disk() {
    let fs = empty_snapshot();
    let mut vars = empty_vars();
    vars.home = Some(s("/home/ghost"));
    assert!(get_conda_envs_from_environment_txt(&fs, &vars).is_empty());
    assert!(get_conda_environment_paths_from_conda_rc(&fs).is_empty());
    assert!(get_conda_environment_paths_from_known_paths(&fs, &vars).is_empty());
    assert!(get_conda_environment_paths_from_additional_paths(&fs, &vec![]).is_empty());
    assert!(get_known_conda_install_locations(&fs, &vars, Platform::Linux).is_empty());
    assert!(get_conda_environment_paths(&fs, &vars, &vec![], Platform::Linux).is_empty());
}

#[test]
fn discovery_scenario_home_registry_and_named_envs() {
    // home = /home/u; the per-user envs directory holds one usable
    // environment and one unmarked directory; the registry file declares an
    // install root elsewhere.
    let mut fs = empty_snapshot();
    fs.dir_entries = vec![
        (
            s("/home/u/.conda/envs"),
            vec![s("/home/u/.conda/envs/envA"), s("/home/u/.conda/envs/not_an_env")],
        ),
        (s("/home/u/anaconda3/envs"), vec![]),
    ];
    fs.directories = vec![
        s("/home/u/.conda/envs/envA"),
        s("/home/u/.conda/envs/not_an_env"),
        s("/home/u/anaconda3"),
    ];
    fs.conda_envs = vec![s("/home/u/.conda/envs/envA")];
    fs.conda_installs = vec![s("/home/u/anaconda3")];
    fs.file_lines = vec![(
        s("/home/u/.conda/environments.txt"),
        vec![s("/home/u/anaconda3")],
    )];
    let mut vars = empty_vars();
    vars.home = Some(s("/home/u"));
    let got = get_conda_environment_paths(&fs, &vars, &vec![], Platform::Linux);
    assert!(got.contains(&s("/home/u/.conda/envs/envA")));
    assert!(got.contains(&s("/home/u/anaconda3")));
    assert!(!got.contains(&s("/home/u/.conda/envs/not_an_env")));
}

#[test]
fn global_virtualenv_dirs_follow_the_conventions() {
    let mut fs = empty_snapshot();
    fs.existing = vec![s("/home/u/.virtualenvs"), s("/home/u/w"), s("/xdg/virtualenvs")];
    let got = get_global_virtualenv_dirs(
        &fs,
        Some(s("~/w")),
        Some(s("/xdg")),
        Some(s("/home/u")),
        Platform::Linux,
    );
    assert_eq!(
        got,
        vec![s("/home/u/w"), s("/xdg/virtualenvs"), s("/home/u/.virtualenvs")]
    );
}

#[test]
fn global_virtualenv_workon_existing_wins_over_tilde() {
    let mut fs = empty_snapshot();
    fs.existing = vec![s("/work")];
    let got = get_global_virtualenv_dirs(
        &fs,
        Some(s("/work")),
        None,
        Some(s("/home/u")),
        Platform::MacOs,
    );
    assert_eq!(got, vec![s("/work")]);
}

#[test]
fn global_virtualenvs_exclude_conda_environments() {
    let mut fs = empty_snapshot();
    fs.existing = vec![s("/home/u/.venvs")];
    fs.dir_entries = vec![(
        s("/home/u/.venvs"),
        vec![s("/home/u/.venvs/v1"), s("/home/u/.venvs/c1")],
    )];
    fs.conda_envs = vec![s("/home/u/.venvs/c1")];
    let got = list_global_virtual_envs_paths(
        &fs,
        None,
        None,
        Some(s("/home/u")),
        Platform::Linux,
    );
    assert_eq!(got, vec![s("/home/u/.venvs/v1")]);
}

#[test]
fn unix_table_probes_root_relative_locations() {
    // The empty base directory of the system table is intentional broad
    // probing: it yields root-relative locations such as /anaconda3.
    let mut fs = empty_snapshot();
    fs.directories = vec![s("/anaconda3")];
    let got = get_known_conda_install_locations(&fs, &empty_vars(), Platform::MacOs);
    assert_eq!(got, vec![s("/anaconda3")]);
}

#[test]
fn windows_homedrive_contributes_its_own_family() {
    let mut fs = empty_snapshot();
    fs.directories = vec![s("C:/miniconda"), s("C:/miniconda3")];
    let mut vars = empty_vars();
    vars.homedrive = Some(s("C:"));
    let got = get_known_conda_install_locations(&fs, &vars, Platform::Windows);
    // The home-drive family probes miniconda, not miniconda3.
    assert_eq!(got, vec![s("C:/miniconda")]);
}


#[test]
fn expansion_rewrites_declared_dirs_to_on_disk_casing() {
    // An install root's local config file declares a directory whose casing
    // differs from disk: the expansion yields the on-disk spelling, so every
    // result path is a fixed point of the normalizer.
    let mut fs = empty_snapshot();
    fs.conda_installs = vec![s("/c")];
    fs.condarc_at = vec![(s("/c"), vec![s("/A")])];
    fs.casing = vec![(s("/A"), s("/a"))];
    let got = get_environments(&fs, &s("/c"));
    assert_eq!(got, vec![s("/a"), s("/c")]);
    for p in &got {
        assert_eq!(norm_case(&fs, p), *p);
    }
}

#[test]
fn collector_results_are_fixed_points_of_normalization() {
    let mut fs = empty_snapshot();
    fs.conda_installs = vec![s("/c")];
    fs.directories = vec![s("/c")];
    fs.condarc_at = vec![(s("/c"), vec![s("/Envs/One")])];
    fs.casing = vec![(s("/Envs/One"), s("/envs/one"))];
    let mut vars = empty_vars();
    vars.known_global_search_locations = vec![s("/c")];
    let got = get_conda_environment_paths(&fs, &vars, &vec![], Platform::Linux);
    assert_eq!(got, vec![s("/c"), s("/envs/one")]);
    for p in &got {
        assert_eq!(norm_case(&fs, p), *p);
    }
}
