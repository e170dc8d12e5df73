use meadows::config::find_config_files_impl;
use meadows::config::plan_candidates;
use meadows::config::replace_in_pattern;
use meadows::config::select_files;
use meadows::config::ConfigLevel;
use meadows::config::FindError;
use meadows::config::Probe;
use meadows::config::SearchDirs;
use meadows::config::SearchPath;
use meadows::config::TraceRecord;
use meadows::process::ExecType;
use meadows::tracing::config::InitError;

fn no_dirs() -> SearchDirs {
    SearchDirs {
        current_dir: None,
        manifest_dir: None,
        home_dir: None,
        config_local_dir: None,
        config_dir: None,
        system_config_dir: None,
        inv_dir: "no-such-dir".to_string(),
    }
}

fn rank(level: ConfigLevel) -> u32 {
    match level {
        ConfigLevel::Executable => 0,
        ConfigLevel::System => 1,
        ConfigLevel::User => 2,
        ConfigLevel::Local => 3,
        ConfigLevel::Package => 4,
        ConfigLevel::Instance => 5,
        ConfigLevel::Path => 6,
    }
}

#[test]
fn test_replace_in_pattern() -> Result<(), FindError> {
    assert!(matches!(replace_in_pattern("", "name"), Err(FindError::InvalidFileNamePattern(_))));
    assert!(matches!(replace_in_pattern("begend", "name"), Err(FindError::InvalidFileNamePattern(_))));

    assert_eq!(replace_in_pattern("{}", "name")?, "name");
    assert_eq!(replace_in_pattern("{}", "")?, "");

    assert_eq!(replace_in_pattern("beg{}", "name")?, "beg.name");
    assert_eq!(replace_in_pattern("beg{}", "")?, "beg");

    assert_eq!(replace_in_pattern("{}end", "name")?, "name.end");
    assert_eq!(replace_in_pattern("{}end", "")?, "end");

    assert_eq!(replace_in_pattern("beg{}end", "name")?, "beg.name.end");
    assert_eq!(replace_in_pattern("beg{}end", "")?, "begend");

    Ok(())
}

#[test]
fn substitution_examples() {
    assert_eq!(replace_in_pattern("{}config.toml", "app").unwrap(), "app.config.toml");
    assert_eq!(replace_in_pattern("{}config.toml", "").unwrap(), "config.toml");
    assert_eq!(replace_in_pattern("beg{}end", "x").unwrap(), "beg.x.end");
    assert_eq!(replace_in_pattern("beg{}end", "").unwrap(), "begend");
    match replace_in_pattern("noplaceholder", "x") {
        Err(FindError::InvalidFileNamePattern(p)) => assert_eq!(p, "noplaceholder"),
        other => panic!("unexpected {other:?}"),
    }
}

#[test]
fn substitution_replaces_the_first_placeholder_only() {
    assert_eq!(replace_in_pattern("a{}{}b", "n").unwrap(), "a.n.{}b");
    assert_eq!(replace_in_pattern("ä{}ö", "ü").unwrap(), "ä.ü.ö");
}

#[test]
fn should_print_all_but_file_not_found() {
    assert!(!FindError::FileNotFound.should_print());
    assert!(FindError::InvalidFileNamePattern("x".to_string()).should_print());
    assert!(FindError::Io(std::io::Error::other("x")).should_print());
}

#[test]
fn plan_for_a_binary_in_order() {
    let dirs = SearchDirs {
        current_dir: Some("/home/alice".to_string()),
        manifest_dir: Some("/m".to_string()),
        home_dir: Some("/h".to_string()),
        config_local_dir: Some("/cl".to_string()),
        config_dir: Some("/c".to_string()),
        system_config_dir: Some("/etc".to_string()),
        inv_dir: "/bin".to_string(),
    };
    let paths = vec![
        SearchPath { path: "/p/file.toml".to_string(), is_file: true },
        SearchPath { path: "/q".to_string(), is_file: false },
    ];
    let plan = plan_candidates(ExecType::Binary, "{}config.toml", "app", &paths, &dirs).unwrap();
    let got: Vec<(ConfigLevel, &str)> = plan.iter().map(|c| (c.0, c.1.as_str())).collect();
    assert_eq!(got, vec![
        (ConfigLevel::Path, "/p/file.toml"),
        (ConfigLevel::Path, "/q/app.config.toml"),
        (ConfigLevel::Path, "/q/.app/config.toml"),
        (ConfigLevel::Instance, "/home/alice/app.config.toml"),
        (ConfigLevel::Instance, "/home/alice/.app/config.toml"),
        (ConfigLevel::Instance, "/home/app.config.toml"),
        (ConfigLevel::Instance, "/home/.app/config.toml"),
        (ConfigLevel::Instance, "/app.config.toml"),
        (ConfigLevel::Instance, "/.app/config.toml"),
        (ConfigLevel::Package, "/m/src/app.config.toml"),
        (ConfigLevel::Package, "/m/src/config.toml"),
        (ConfigLevel::Package, "/m/src/bin/app.config.toml"),
        (ConfigLevel::Package, "/m/src/bin/config.toml"),
        (ConfigLevel::Local, "/h/.app.config.toml"),
        (ConfigLevel::Local, "/h/.app/config.toml"),
        (ConfigLevel::Local, "/cl/app/config.toml"),
        (ConfigLevel::User, "/c/app/config.toml"),
        (ConfigLevel::System, "/etc/app.config.toml"),
        (ConfigLevel::System, "/etc/app/config.toml"),
        (ConfigLevel::Executable, "/bin/app.config.toml"),
    ]);
}

#[test]
fn plan_for_tests_and_examples_uses_path_and_package_only() {
    let dirs = SearchDirs {
        current_dir: Some("/home/alice".to_string()),
        manifest_dir: Some("/m".to_string()),
        home_dir: Some("/h".to_string()),
        config_local_dir: None,
        config_dir: Some("/c".to_string()),
        system_config_dir: Some("/etc".to_string()),
        inv_dir: "/bin".to_string(),
    };
    let cases = [
        (ExecType::Example, "/m/examples/t.config.toml", "/m/examples/config.toml"),
        (ExecType::DocTest, "/m/src/t.config.toml", "/m/src/config.toml"),
        (ExecType::UnitTest, "/m/src/t.config.toml", "/m/src/config.toml"),
        (ExecType::IntegTest, "/m/tests/t.config.toml", "/m/tests/config.toml"),
        (ExecType::BenchTest, "/m/benches/t.config.toml", "/m/benches/config.toml"),
    ];
    for (kind, first, second) in cases {
        let plan = plan_candidates(kind, "{}config.toml", "t", &Vec::new(), &dirs).unwrap();
        let got: Vec<(ConfigLevel, &str)> = plan.iter().map(|c| (c.0, c.1.as_str())).collect();
        assert_eq!(got, vec![(ConfigLevel::Package, first), (ConfigLevel::Package, second)]);
    }
}

#[test]
fn plan_rejects_a_pattern_without_placeholder() {
    let r = plan_candidates(ExecType::Binary, "config.toml", "app", &Vec::new(), &no_dirs());
    assert!(matches!(r, Err(FindError::InvalidFileNamePattern(p)) if p == "config.toml"));
}

fn src_dirs() -> SearchDirs {
    SearchDirs { current_dir: Some("src".to_string()), manifest_dir: Some(".".to_string()), ..no_dirs() }
}

#[test]
fn find_first_prefers_instance_over_package() {
    let mut trace: Vec<TraceRecord> = Vec::new();
    let r = find_config_files_impl(true, ExecType::Binary, "{}lib.rs", false, "", &Vec::new(), &src_dirs(), &mut trace)
        .unwrap();
    assert_eq!(r, vec![(ConfigLevel::Instance, "src/lib.rs".to_string())]);
    assert!(trace.is_empty());
}

#[test]
fn find_all_collapses_paths_to_the_same_file() {
    let mut trace: Vec<TraceRecord> = Vec::new();
    let r = find_config_files_impl(false, ExecType::Binary, "{}lib.rs", false, "", &Vec::new(), &src_dirs(), &mut trace)
        .unwrap();
    assert_eq!(r, vec![(ConfigLevel::Instance, "src/lib.rs".to_string())]);
}

#[test]
fn explicit_paths_to_the_same_file_collapse() {
    let paths = vec!["src/lib.rs".to_string(), "./src/lib.rs".to_string(), "src/../src/lib.rs".to_string()];
    let mut trace: Vec<TraceRecord> = Vec::new();
    let r = find_config_files_impl(false, ExecType::Example, "{}x.toml", false, "n", &paths, &no_dirs(), &mut trace)
        .unwrap();
    assert_eq!(r, vec![(ConfigLevel::Path, "src/lib.rs".to_string())]);
}

#[test]
fn find_all_orders_by_descending_precedence() {
    let paths = vec!["src/path.rs".to_string()];
    let dirs = SearchDirs { manifest_dir: Some(".".to_string()), ..no_dirs() };
    let mut trace: Vec<TraceRecord> = Vec::new();
    let r = find_config_files_impl(false, ExecType::UnitTest, "{}lib.rs", false, "", &paths, &dirs, &mut trace)
        .unwrap();
    assert_eq!(r, vec![(ConfigLevel::Path, "src/path.rs".to_string()), (ConfigLevel::Package, "./src/lib.rs".to_string())]);
    for w in r.windows(2) {
        assert!(rank(w[0].0) >= rank(w[1].0));
    }
}

#[test]
fn nothing_found_is_file_not_found() {
    let mut trace: Vec<TraceRecord> = Vec::new();
    let r = find_config_files_impl(false, ExecType::Binary, "{}no-such-file.toml", false, "zz", &Vec::new(), &no_dirs(), &mut trace);
    assert!(matches!(r, Err(FindError::FileNotFound)));
    let r = find_config_files_impl(true, ExecType::Binary, "{}no-such-file.toml", false, "zz", &Vec::new(), &no_dirs(), &mut trace);
    assert!(matches!(r, Err(FindError::FileNotFound)));
}

#[test]
fn invalid_pattern_comes_before_any_probe() {
    let mut trace: Vec<TraceRecord> = Vec::new();
    let r = find_config_files_impl(true, ExecType::Binary, "plain", true, "zz", &Vec::new(), &no_dirs(), &mut trace);
    assert!(matches!(r, Err(FindError::InvalidFileNamePattern(p)) if p == "plain"));
    assert!(trace.is_empty());
}

#[test]
fn debug_traces_every_candidate_in_order() {
    let dirs = src_dirs();
    let plan = plan_candidates(ExecType::Binary, "{}lib.rs", "", &Vec::new(), &dirs).unwrap();
    let mut trace: Vec<TraceRecord> = Vec::new();
    let r = find_config_files_impl(true, ExecType::Binary, "{}lib.rs", true, "", &Vec::new(), &dirs, &mut trace).unwrap();
    assert_eq!(r[0], (ConfigLevel::Instance, "src/lib.rs".to_string()));
    let traced: Vec<(ConfigLevel, String)> = trace.iter().map(|t| (t.0, t.1.clone())).collect();
    assert_eq!(traced, plan);
    let existing: Vec<&str> = trace.iter().filter(|t| t.2).map(|t| t.1.as_str()).collect();
    assert_eq!(existing, vec!["src/lib.rs", "src/./lib.rs", "./src/lib.rs", "./src/lib.rs"]);
}

#[test]
fn select_files_keeps_first_of_each_canonical_path() {
    let cands = vec![
        (ConfigLevel::Path, "a".to_string()),
        (ConfigLevel::Instance, "b".to_string()),
        (ConfigLevel::Package, "c".to_string()),
        (ConfigLevel::Local, "d".to_string()),
        (ConfigLevel::System, "e".to_string()),
    ];
    let probes = vec![
        Probe { is_file: false, canonical: Some("/x".to_string()) },
        Probe { is_file: true, canonical: Some("/y".to_string()) },
        Probe { is_file: true, canonical: Some("/y".to_string()) },
        Probe { is_file: true, canonical: None },
        Probe { is_file: true, canonical: Some("/z".to_string()) },
    ];
    let r = select_files(&cands, &probes).unwrap();
    assert_eq!(r, vec![(ConfigLevel::Instance, "b".to_string()), (ConfigLevel::System, "e".to_string())]);
}

#[test]
fn select_files_without_files_fails() {
    let cands = vec![(ConfigLevel::Path, "a".to_string())];
    let probes = vec![Probe { is_file: false, canonical: None }];
    assert!(matches!(select_files(&cands, &probes), Err(FindError::FileNotFound)));
    assert!(matches!(select_files(&Vec::new(), &Vec::new()), Err(FindError::FileNotFound)));
}

#[test]
fn search_dirs_keep_the_given_directories() {
    let dirs = SearchDirs::new(Some("/w".to_string()), None, Some("/etc".to_string()), "/bin".to_string());
    assert_eq!(dirs.current_dir.as_deref(), Some("/w"));
    assert_eq!(dirs.manifest_dir, None);
    assert_eq!(dirs.system_config_dir.as_deref(), Some("/etc"));
    assert_eq!(dirs.inv_dir, "/bin");
}

#[test]
fn init_error_should_print() {
    assert!(!InitError::Find(FindError::FileNotFound).should_print());
    assert!(InitError::Find(FindError::InvalidFileNamePattern("p".to_string())).should_print());
    assert!(InitError::Io(std::io::Error::other("x")).should_print());
}

#[test]
fn without_debug_nothing_is_traced() {
    let mut trace: Vec<TraceRecord> = vec![(ConfigLevel::User, "earlier".to_string(), false)];
    let r = find_config_files_impl(false, ExecType::Binary, "{}lib.rs", false, "", &Vec::new(), &src_dirs(), &mut trace);
    assert!(r.is_ok());
    assert_eq!(trace, vec![(ConfigLevel::User, "earlier".to_string(), false)]);
}

#[test]
fn debug_trace_is_appended_after_earlier_records() {
    let dirs = src_dirs();
    let plan = plan_candidates(ExecType::Example, "{}lib.rs", "", &Vec::new(), &dirs).unwrap();
    let mut trace: Vec<TraceRecord> = vec![(ConfigLevel::User, "earlier".to_string(), false)];
    let r = find_config_files_impl(false, ExecType::Example, "{}lib.rs", true, "", &Vec::new(), &dirs, &mut trace);
    assert!(matches!(r, Err(FindError::FileNotFound)));
    assert_eq!(trace.len(), 1 + plan.len());
    assert_eq!(trace[0].1, "earlier");
    for (t, c) in trace[1..].iter().zip(plan.iter()) {
        assert_eq!((t.0, &t.1, t.2), (c.0, &c.1, false));
    }
}
