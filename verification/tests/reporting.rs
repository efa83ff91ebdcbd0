use std::cell::RefCell;
use std::rc::Rc;

use pet_discovery::cache_reporter::CacheReporter;
use pet_discovery::config::{Configuration, EnvVariables, Platform};
use pet_discovery::fs_model::FsSnapshot;
use pet_discovery::orchestrator::{find_and_report_envs, Locator, LocatorResult};
use pet_discovery::reporter::{
    EnvManager, EnvironmentKind, ManagerKind, PythonEnvironment, Reporter,
};

#[derive(Clone)]
struct RecordingReporter {
    events: Rc<RefCell<Vec<String>>>,
}

impl RecordingReporter {
    fn new() -> (Self, Rc<RefCell<Vec<String>>>) {
        let events = Rc::new(RefCell::new(Vec::new()));
        (RecordingReporter { events: events.clone() }, events)
    }
}

impl Reporter for RecordingReporter {
    fn report_manager(&self, manager: &EnvManager) {
        self.events
            .borrow_mut()
            .push(format!("manager:{}", manager.install_path));
    }

    fn report_environment(&self, env: &PythonEnvironment) {
        self.events.borrow_mut().push(format!("env:{}", env.root));
    }

    fn report_completion(&self, _duration_ms: u64) {
        self.events.borrow_mut().push(String::from("completion"));
    }
}

struct FixedLocator {
    name: String,
    roots: Vec<String>,
}

impl Locator for FixedLocator {
    fn name(&self) -> String {
        self.name.clone()
    }

    fn find(&self, _config: &Configuration, _fs: &FsSnapshot) -> Vec<LocatorResult> {
        self.roots
            .iter()
            .map(|r| {
                LocatorResult::Environment(PythonEnvironment {
                    root: r.clone(),
                    kind: EnvironmentKind::Unknown,
                    manager: None,
                })
            })
            .collect()
    }
}

fn empty_snapshot() -> FsSnapshot {
    FsSnapshot {
        existing: vec![],
        directories: vec![],
        dir_entries: vec![],
        conda_envs: vec![],
        conda_installs: vec![],
        casing: vec![],
        file_lines: vec![],
        condarc_env_dirs: None,
        condarc_at: vec![],
    }
}

fn empty_config() -> Configuration {
    Configuration {
        additional_env_dirs: vec![],
        search_paths: vec![],
        env_vars: EnvVariables {
            home: None,
            userprofile: None,
            programdata: None,
            allusersprofile: None,
            homedrive: None,
            conda_root: None,
            conda_prefix: None,
            conda: None,
            xdg_data_home: None,
            workon_home: None,
            known_global_search_locations: vec![],
        },
        platform: Platform::Linux,
    }
}

fn s(x: &str) -> String {
    String::from(x)
}

fn count(events: &Rc<RefCell<Vec<String>>>, needle: &str) -> usize {
    events.borrow().iter().filter(|e| e.as_str() == needle).count()
}

#[test]
fn repeated_sightings_forward_once() {
    let (inner, events) = RecordingReporter::new();
    let mut reporter = CacheReporter::new(inner);
    let env = PythonEnvironment {
        root: s("/opt/anaconda3"),
        kind: EnvironmentKind::Conda,
        manager: None,
    };
    assert!(reporter.report_environment(&env));
    assert!(!reporter.report_environment(&env));
    assert!(!reporter.report_environment(&env));
    assert_eq!(count(&events, "env:/opt/anaconda3"), 1);
}

#[test]
fn distinct_keys_each_forward() {
    let (inner, events) = RecordingReporter::new();
    let mut reporter = CacheReporter::new(inner);
    let m1 = EnvManager { install_path: s("/a"), kind: ManagerKind::Conda };
    let m2 = EnvManager { install_path: s("/b"), kind: ManagerKind::Conda };
    assert!(reporter.report_manager(&m1));
    assert!(reporter.report_manager(&m2));
    assert!(!reporter.report_manager(&m1));
    assert_eq!(count(&events, "manager:/a"), 1);
    assert_eq!(count(&events, "manager:/b"), 1);
}

#[test]
fn managers_and_environments_have_separate_keys() {
    let (inner, events) = RecordingReporter::new();
    let mut reporter = CacheReporter::new(inner);
    let m = EnvManager { install_path: s("/same"), kind: ManagerKind::Conda };
    let e = PythonEnvironment {
        root: s("/same"),
        kind: EnvironmentKind::Conda,
        manager: None,
    };
    assert!(reporter.report_manager(&m));
    assert!(reporter.report_environment(&e));
    assert_eq!(count(&events, "manager:/same"), 1);
    assert_eq!(count(&events, "env:/same"), 1);
}

#[test]
fn completion_is_always_forwarded() {
    let (inner, events) = RecordingReporter::new();
    let reporter = CacheReporter::new(inner);
    reporter.report_completion(1);
    reporter.report_completion(2);
    assert_eq!(count(&events, "completion"), 2);
}

#[test]
fn shared_key_across_locators_is_surfaced_once() {
    let (inner, events) = RecordingReporter::new();
    let mut reporter = CacheReporter::new(inner);
    let locators = vec![
        FixedLocator { name: s("first"), roots: vec![s("/shared"), s("/only-first")] },
        FixedLocator { name: s("second"), roots: vec![s("/shared"), s("/only-second")] },
    ];
    let fs = empty_snapshot();
    let config = empty_config();
    let summary = find_and_report_envs(&mut reporter, &config, &locators, &fs, &vec![]);
    assert_eq!(summary.find_locators_times.len(), 2);
    assert_eq!(count(&events, "env:/shared"), 1);
    assert_eq!(count(&events, "env:/only-first"), 1);
    assert_eq!(count(&events, "env:/only-second"), 1);
    assert_eq!(count(&events, "completion"), 1);
}

#[test]
fn two_runs_sharing_a_reporter_surface_a_key_once() {
    let (inner, events) = RecordingReporter::new();
    let mut reporter = CacheReporter::new(inner);
    let locators = vec![FixedLocator { name: s("only"), roots: vec![s("/k")] }];
    let fs = empty_snapshot();
    let config = empty_config();
    find_and_report_envs(&mut reporter, &config, &locators, &fs, &vec![]);
    find_and_report_envs(&mut reporter, &config, &locators, &fs, &vec![]);
    assert_eq!(count(&events, "env:/k"), 1);
    assert_eq!(count(&events, "completion"), 2);
}

#[test]
fn absent_home_still_completes_exactly_once() {
    let (inner, events) = RecordingReporter::new();
    let mut reporter = CacheReporter::new(inner);
    let locators: Vec<FixedLocator> = vec![];
    let fs = empty_snapshot();
    let mut config = empty_config();
    config.env_vars.home = Some(s("/home/ghost"));
    let summary = find_and_report_envs(&mut reporter, &config, &locators, &fs, &vec![]);
    assert_eq!(summary.find_locators_times.len(), 0);
    assert_eq!(count(&events, "completion"), 1);
    assert_eq!(events.borrow().len(), 1);
}

#[test]
fn path_scan_and_search_roots_are_reported() {
    let (inner, events) = RecordingReporter::new();
    let mut reporter = CacheReporter::new(inner);
    let locators: Vec<FixedLocator> = vec![];
    let mut fs = empty_snapshot();
    fs.conda_envs = vec![s("/cwd/proj")];
    let mut config = empty_config();
    config.search_paths = vec![s("/cwd/proj")];
    let path_roots = vec![s("/usr/bin/python-root")];
    find_and_report_envs(&mut reporter, &config, &locators, &fs, &path_roots);
    assert_eq!(count(&events, "env:/usr/bin/python-root"), 1);
    assert_eq!(count(&events, "env:/cwd/proj"), 1);
    assert_eq!(count(&events, "completion"), 1);
}
