use meadows::env::env_vars;
use meadows::env::EnvPublisher;
use meadows::process::dir;
use meadows::process::inv_dir;
use meadows::process::inv_name;
use meadows::process::name;
use meadows::process::test_name_from;
use meadows::process::test_name_impl;
use meadows::process::ExecContext;
use meadows::process::ExecType;

#[test]
fn env_test_test_name_impl() {
    assert_eq!(meadows::env::test_name_impl("rust_out").as_deref(), Some("rust_out"));
    assert_eq!(meadows::env::test_name_impl("ab-cd-0123456789abcdef").as_deref(), Some("ab-cd"));
}

#[test]
fn process_test_test_name_impl() {
    assert_eq!(test_name_impl("rust_out").as_deref(), Some("rust_out"));
    assert_eq!(test_name_impl("a-b-0123456789abcdef").as_deref(), Some("a-b"));
}

#[test]
fn test_name_derivation() {
    assert_eq!(test_name_impl("ab-0123456789abcdef").as_deref(), Some("ab"));
    assert_eq!(test_name_impl("plainname"), None);
    assert_eq!(test_name_impl("out"), None);
    assert_eq!(test_name_impl("a-0123456789"), None);
    assert_eq!(test_name_impl("a-01234567"), None);
    assert_eq!(test_name_impl("a-0123456789ABCDEF"), None);
    assert_eq!(test_name_impl("-0123456789abcdef").as_deref(), Some(""));
}

#[test]
fn test_name_from_a_known_match() {
    assert_eq!(test_name_from("ab-0123456789abcdef", true).as_deref(), Some("ab"));
    assert_eq!(test_name_from("ab-0123456789abcdef", false), None);
    assert_eq!(test_name_from("rust_out", false).as_deref(), Some("rust_out"));
    assert_eq!(test_name_from("short", true), None);
}

#[test]
fn names_and_directories_of_paths() {
    assert_eq!(dir("/a/b/app"), "/a/b");
    assert_eq!(inv_dir("target/debug/out"), "target/debug");
    assert_eq!(inv_dir("app"), "");
    assert_eq!(name("/a/b/app").as_deref(), Some("app"));
    assert_eq!(inv_name("target/debug/app").as_deref(), Some("app"));
    assert_eq!(name("/"), None);
}

#[test]
fn exec_type_is_test() {
    assert!(!ExecType::Binary.is_test());
    assert!(!ExecType::Example.is_test());
    assert!(ExecType::DocTest.is_test());
    assert!(ExecType::UnitTest.is_test());
    assert!(ExecType::IntegTest.is_test());
    assert!(ExecType::BenchTest.is_test());
}

#[test]
fn context_of_a_binary() {
    let ctx = ExecContext::new(ExecType::Binary, "target/debug/app".to_string(), "/p/target/debug/app".to_string())
        .unwrap();
    assert_eq!(ctx.inv_dir, "target/debug");
    assert_eq!(ctx.dir, "/p/target/debug");
    assert_eq!(ctx.inv_name, "app");
    assert_eq!(ctx.name, "app");
    assert_eq!(ctx.test_name, None);
    assert_eq!(ctx.search_name(), "app");
}

#[test]
fn context_of_tests_and_examples() {
    let ctx = ExecContext::new(
        ExecType::IntegTest,
        "deps/test_std-df01c96339a9b446".to_string(),
        "/p/deps/test_std-df01c96339a9b446".to_string(),
    )
    .unwrap();
    assert_eq!(ctx.test_name.as_deref(), Some("test_std"));
    assert_eq!(ctx.search_name(), "test_std");
    let ctx = ExecContext::new(ExecType::Example, "ex/inv".to_string(), "/p/ex/canon".to_string()).unwrap();
    assert_eq!(ctx.search_name(), "canon");
    assert!(ExecContext::new(ExecType::UnitTest, "deps/plain".to_string(), "/p/deps/plain".to_string()).is_none());
    assert!(ExecContext::new(ExecType::Binary, "/".to_string(), "/p/app".to_string()).is_none());
}

fn pairs(v: &[(String, String)]) -> Vec<(&str, &str)> {
    v.iter().map(|p| (p.0.as_str(), p.1.as_str())).collect()
}

#[test]
fn environment_variables_of_a_binary_and_a_test() {
    let ctx = ExecContext::new(ExecType::Binary, "t/app".to_string(), "/p/t/app".to_string()).unwrap();
    let vars = env_vars(&ctx, &Some("/home/a".to_string()), "42");
    assert_eq!(pairs(&vars), vec![
        ("dir", "/p/t"),
        ("home_dir", "/home/a"),
        ("name", "app"),
        ("path", "/p/t/app"),
        ("pid", "42"),
        ("inv_dir", "t"),
        ("inv_name", "app"),
        ("inv_path", "t/app"),
    ]);
    let ctx = ExecContext::new(ExecType::UnitTest, "d/m-0123456789abcdef".to_string(), "/p/d/m-0123456789abcdef".to_string())
        .unwrap();
    let vars = env_vars(&ctx, &None, "7");
    assert_eq!(pairs(&vars), vec![
        ("dir", "/p/d"),
        ("name", "m-0123456789abcdef"),
        ("path", "/p/d/m-0123456789abcdef"),
        ("pid", "7"),
        ("test_name", "m"),
    ]);
}

#[test]
fn publication_happens_once() {
    let ctx = ExecContext::new(ExecType::Example, "e/x".to_string(), "/p/e/x".to_string()).unwrap();
    let mut publisher = EnvPublisher::new();
    assert!(publisher.published().is_none());
    let first = publisher.publish_once(&ctx, &None, "1");
    assert_eq!(pairs(&first), vec![("dir", "/p/e"), ("name", "x"), ("path", "/p/e/x"), ("pid", "1")]);
    let second = publisher.publish_once(&ctx, &Some("/h".to_string()), "2");
    assert!(second.is_empty());
    assert_eq!(publisher.published(), Some(&first));
}

#[test]
fn system_config_dir_is_an_existing_directory() {
    assert_eq!(meadows::env::system_config_dir(Some("src")).as_deref(), Some("src"));
    assert_eq!(meadows::env::system_config_dir(Some("src/lib.rs")), None);
    assert_eq!(meadows::env::system_config_dir(Some("no-such-dir")), None);
    assert_eq!(meadows::env::system_config_dir(None), None);
}

#[test]
fn canonical_path_and_context_from_invocation() {
    let canonical = meadows::process::path("src/../src/lib.rs").unwrap();
    assert!(canonical.starts_with('/'));
    assert!(canonical.ends_with("/src/lib.rs"));
    assert!(!canonical.contains(".."));
    assert_eq!(meadows::process::path("no-such-file"), None);
    let ctx = ExecContext::from_invocation(ExecType::Binary, "src/lib.rs".to_string()).unwrap();
    assert_eq!(ctx.path, canonical);
    assert_eq!(ctx.inv_dir, "src");
    assert_eq!(ctx.name, "lib.rs");
    assert!(ExecContext::from_invocation(ExecType::Binary, "no-such-file".to_string()).is_none());
}
