use jvms::config::{JavaToolchain, JvmsConfiguration};
use jvms::error::{ConfigurationError, JvmsError};
use jvms::installation::JvmsInstallation;
use jvms::path::{make_absolute, normalize_path, JvmsPath, PathComponent};
use jvms::shim::{InvocationMode, Shim};

fn p(text: &str) -> JvmsPath {
    let absolute = text.starts_with('/');
    let mut components = Vec::new();
    for seg in text.split('/') {
        match seg {
            "" => {}
            "." => components.push(PathComponent::CurDir),
            ".." => components.push(PathComponent::ParentDir),
            name => components.push(PathComponent::Normal(name.to_string())),
        }
    }
    JvmsPath { absolute, components }
}

fn render(path: &JvmsPath) -> String {
    let parts: Vec<String> = path
        .components
        .iter()
        .map(|c| match c {
            PathComponent::CurDir => ".".to_string(),
            PathComponent::ParentDir => "..".to_string(),
            PathComponent::Normal(s) => s.clone(),
        })
        .collect();
    if path.absolute {
        format!("/{}", parts.join("/"))
    } else {
        parts.join("/")
    }
}

fn norm(text: &str) -> String {
    render(&normalize_path(&p(text)))
}

fn home(config: &JvmsConfiguration, name: &str) -> Option<String> {
    config.get_toolchain(name).map(|t| render(&t.java_home))
}

fn argv(items: &[&str]) -> Vec<String> {
    items.iter().map(|s| s.to_string()).collect()
}

#[test]
fn normalize_is_idempotent_on_examples() {
    for text in ["a/./b/../c", "/../x", "../../a/..", "a/..", "/a/b/../../..", ".", "", "x/y/"] {
        let once = normalize_path(&p(text));
        let twice = normalize_path(&once);
        assert_eq!(once, twice, "{}", text);
    }
}

#[test]
fn normalize_drops_dot_and_cancels_parent() {
    assert_eq!(norm("a/./b/../c"), norm("a/c"));
    assert_eq!(norm("a/./b/../c"), "a/c");
}

#[test]
fn normalize_parent_of_root_is_root() {
    assert_eq!(norm("/../x"), norm("/x"));
    assert_eq!(norm("/../x"), "/x");
    assert_eq!(norm("/.."), "/");
}

#[test]
fn normalize_keeps_leading_parents_of_relative_paths() {
    assert_eq!(norm("../../a"), "../../a");
    assert_eq!(norm("a/../../b"), "../b");
}

#[test]
fn normalize_empty_result_is_current_dir() {
    assert_eq!(norm("a/.."), ".");
    assert_eq!(norm(""), ".");
    assert_eq!(norm("./."), ".");
}

#[test]
fn make_absolute_joins_relative_paths_to_the_working_directory() {
    let cwd = p("/home/me");
    assert_eq!(render(&make_absolute(&p("proj/../jdk"), &cwd)), "/home/me/jdk");
    assert_eq!(render(&make_absolute(&p("/opt/./jdk"), &cwd)), "/opt/jdk");
    assert_eq!(render(&make_absolute(&p(".."), &cwd)), "/home");
}

#[test]
fn starts_with_compares_whole_components() {
    assert!(p("/foo/bar").starts_with(&p("/foo")));
    assert!(p("/foo").starts_with(&p("/foo")));
    assert!(!p("/foobar").starts_with(&p("/foo")));
    assert!(!p("foo/bar").starts_with(&p("/foo")));
    assert!(p("/foo").same_path(&p("/foo")));
    assert!(!p("/foo").same_path(&p("foo")));
}

fn override_config() -> JvmsConfiguration {
    let cwd = p("/");
    let mut config = JvmsConfiguration::new();
    config.add_toolchain("T1".to_string(), p("/jdk/t1"), &cwd);
    config.add_toolchain("T2".to_string(), p("/jdk/t2"), &cwd);
    config.add_override(&p("/a"), "T1".to_string(), &cwd);
    config.add_override(&p("/a/b"), "T2".to_string(), &cwd);
    config
}

#[test]
fn resolution_picks_the_deepest_override() {
    let config = override_config();
    let cwd = p("/");
    let found = config.get_environment_toolchain(&p("/a/b/c"), &cwd).unwrap();
    assert_eq!(render(&found.java_home), "/jdk/t2");
    let found = config.get_environment_toolchain(&p("/a/x"), &cwd).unwrap();
    assert_eq!(render(&found.java_home), "/jdk/t1");
    assert!(config.get_environment_toolchain(&p("/z"), &cwd).is_none());
    assert!(config.get_toolchain_for_directory(&p("/z"), &cwd).is_none());
}

#[test]
fn resolution_order_of_overrides_does_not_matter() {
    let cwd = p("/");
    let mut config = JvmsConfiguration::new();
    config.add_toolchain("T1".to_string(), p("/jdk/t1"), &cwd);
    config.add_toolchain("T2".to_string(), p("/jdk/t2"), &cwd);
    config.add_override(&p("/a/b"), "T2".to_string(), &cwd);
    config.add_override(&p("/a"), "T1".to_string(), &cwd);
    let found = config.resolve_override(&p("/a/b/c")).unwrap();
    assert_eq!(found.toolchain, "T2");
}

#[test]
fn resolution_falls_back_to_the_default() {
    let mut config = override_config();
    let cwd = p("/");
    config.set_default_toolchain_name("T1".to_string());
    let found = config.get_toolchain_for_directory(&p("/z"), &cwd).unwrap();
    assert_eq!(render(&found.java_home), "/jdk/t1");
    let found = config.get_toolchain_for_directory(&p("/a/b"), &cwd).unwrap();
    assert_eq!(render(&found.java_home), "/jdk/t2");
}

#[test]
fn resolution_does_not_match_a_string_prefix() {
    let cwd = p("/");
    let mut config = JvmsConfiguration::new();
    config.add_toolchain("T1".to_string(), p("/jdk/t1"), &cwd);
    config.add_override(&p("/foo"), "T1".to_string(), &cwd);
    assert!(config.resolve_override(&p("/foobar")).is_none());
    assert!(config.resolve_override(&p("/foo")).is_some());
}

#[test]
fn resolution_of_duplicate_paths_takes_the_last() {
    let cwd = p("/");
    let mut config = JvmsConfiguration::new();
    config.add_toolchain("T1".to_string(), p("/jdk/t1"), &cwd);
    config.add_toolchain("T2".to_string(), p("/jdk/t2"), &cwd);
    config.add_override(&p("/a"), "T1".to_string(), &cwd);
    config.add_override(&p("/a"), "T2".to_string(), &cwd);
    assert_eq!(config.resolve_override(&p("/a/q")).unwrap().toolchain, "T2");
}

#[test]
fn relative_directory_is_made_absolute_before_resolution() {
    let config = override_config();
    let found = config.get_environment_toolchain(&p("b/c"), &p("/a")).unwrap();
    assert_eq!(render(&found.java_home), "/jdk/t2");
}

fn minimal_config() -> JvmsConfiguration {
    let mut config = JvmsConfiguration::new();
    config.add_toolchain("11".to_string(), p("/opt/jdk11"), &p("/"));
    config.set_default_toolchain_name("11".to_string());
    config
}

fn invalid(e: ConfigurationError) -> Result<(), JvmsError> {
    Err(JvmsError::InvalidConfiguration(e))
}

#[test]
fn validate_accepts_a_minimal_configuration() {
    assert_eq!(minimal_config().validate_configuration(&vec![true]), Ok(()));
}

#[test]
fn validate_rejects_no_toolchains() {
    let config = JvmsConfiguration::new();
    assert_eq!(config.validate_configuration(&vec![]), invalid(ConfigurationError::NoToolchains));
}

#[test]
fn validate_rejects_a_missing_home() {
    let mut config = minimal_config();
    config.add_toolchain("17".to_string(), p("/opt/jdk17"), &p("/"));
    assert_eq!(
        config.validate_configuration(&vec![true, false]),
        invalid(ConfigurationError::InvalidJavaHome("17".to_string()))
    );
    assert_eq!(
        config.validate_configuration(&vec![false, false]),
        invalid(ConfigurationError::InvalidJavaHome("11".to_string()))
    );
}

#[test]
fn validate_rejects_an_unset_default() {
    let mut config = JvmsConfiguration::new();
    config.add_toolchain("11".to_string(), p("/opt/jdk11"), &p("/"));
    assert_eq!(
        config.validate_configuration(&vec![true]),
        invalid(ConfigurationError::NoDefaultToolchain)
    );
}

#[test]
fn validate_rejects_an_unknown_default() {
    let mut config = minimal_config();
    config.set_default_toolchain_name("8".to_string());
    assert_eq!(
        config.validate_configuration(&vec![true]),
        invalid(ConfigurationError::UnknownDefaultToolchain("8".to_string()))
    );
}

#[test]
fn validate_rejects_an_override_to_an_unknown_toolchain() {
    let mut config = minimal_config();
    config.add_override(&p("/w"), "11".to_string(), &p("/"));
    config.add_override(&p("/v"), "8".to_string(), &p("/"));
    assert_eq!(
        config.validate_configuration(&vec![true]),
        invalid(ConfigurationError::UnknownOverrideToolchain(p("/v"), "8".to_string()))
    );
}

#[test]
fn add_toolchain_overwrites_an_existing_name() {
    let mut config = minimal_config();
    config.add_toolchain("11".to_string(), p("/usr/lib/jdk11"), &p("/"));
    assert_eq!(config.get_toolchains().len(), 1);
    assert_eq!(home(&config, "11"), Some("/usr/lib/jdk11".to_string()));
}

#[test]
fn add_toolchain_makes_the_home_absolute() {
    let mut config = JvmsConfiguration::new();
    config.add_toolchain("8".to_string(), p("jdk8/./bin/.."), &p("/opt"));
    assert_eq!(home(&config, "8"), Some("/opt/jdk8".to_string()));
    assert!(config.has_toolchain("8"));
    assert!(!config.has_toolchain("9"));
}

#[test]
fn remove_toolchain_removes_only_that_name() {
    let mut config = minimal_config();
    config.add_toolchain("17".to_string(), p("/opt/jdk17"), &p("/"));
    config.remove_toolchain("11");
    config.remove_toolchain("absent");
    assert_eq!(config.get_toolchains().len(), 1);
    assert_eq!(config.get_toolchains()[0].0, "17");
    assert!(config.get_toolchain("11").is_none());
}

#[test]
fn default_toolchain_follows_the_name() {
    let mut config = minimal_config();
    assert_eq!(config.get_default_toolchain_name(), Some("11"));
    assert_eq!(render(&config.get_default_toolchain().unwrap().java_home), "/opt/jdk11");
    config.set_default_toolchain_name("none".to_string());
    assert!(config.get_default_toolchain().is_none());
    assert!(JvmsConfiguration::new().get_default_toolchain_name().is_none());
}

fn override_paths(config: &JvmsConfiguration) -> Vec<String> {
    config.get_overrides().iter().map(|o| render(&o.path)).collect()
}

#[test]
fn clean_overrides_keeps_existing_paths_in_order() {
    let mut config = minimal_config();
    for dir in ["/a", "/b", "/c", "/d"] {
        config.add_override(&p(dir), "11".to_string(), &p("/"));
    }
    config.clean_overrides(&vec![true, false, true, false]);
    assert_eq!(override_paths(&config), vec!["/a", "/c"]);
    config.clean_overrides(&vec![false, false]);
    assert!(config.get_overrides().is_empty());
}

#[test]
fn remove_override_removes_every_entry_for_the_path() {
    let mut config = minimal_config();
    config.add_override(&p("/a"), "11".to_string(), &p("/"));
    config.add_override(&p("/b"), "11".to_string(), &p("/"));
    config.add_override(&p("/a"), "11".to_string(), &p("/"));
    config.remove_override(&p("../a"), &p("/b"));
    assert_eq!(override_paths(&config), vec!["/b"]);
}

#[test]
fn add_override_keeps_duplicates() {
    let mut config = minimal_config();
    config.add_override(&p("x"), "11".to_string(), &p("/w"));
    config.add_override(&p("/w/x"), "11".to_string(), &p("/"));
    assert_eq!(override_paths(&config), vec!["/w/x", "/w/x"]);
}

#[test]
fn shim_catalog_lists_the_tools() {
    let names: Vec<&str> = Shim::get_shims().iter().map(|s| s.name).collect();
    assert_eq!(names, vec!["jar", "java", "javac", "javadoc", "javah", "javap", "javaw"]);
}

#[test]
fn invocation_mode_follows_the_file_stem() {
    assert_eq!(Shim::invocation_mode("javac"), InvocationMode::Shim(Shim { name: "javac" }));
    assert_eq!(Shim::invocation_mode("jvms"), InvocationMode::Primary);
    assert_eq!(Shim::invocation_mode("Java"), InvocationMode::Primary);
    assert_eq!(Shim::find_shim("javaw"), Some(Shim { name: "javaw" }));
    assert_eq!(Shim::find_shim(""), None);
}

#[test]
fn shim_runs_the_tool_of_the_default_toolchain() {
    let config = minimal_config();
    let shim = Shim::find_shim("javac").unwrap();
    let launch = shim
        .plan_execution(&config, &p("/some/where"), &argv(&["javac", "-d", "out", "A.java"]))
        .unwrap();
    assert_eq!(render(&launch.program), "/opt/jdk11/bin/javac");
    assert_eq!(render(&launch.java_home), "/opt/jdk11");
    assert_eq!(launch.args, argv(&["-d", "out", "A.java"]));
}

#[test]
fn shim_uses_the_override_of_the_directory() {
    let mut config = minimal_config();
    config.add_toolchain("17".to_string(), p("/opt/jdk17"), &p("/"));
    config.add_override(&p("/proj"), "17".to_string(), &p("/"));
    let shim = Shim { name: "java" };
    let launch = shim.plan_execution(&config, &p("/proj/src"), &argv(&["java"])).unwrap();
    assert_eq!(render(&launch.program), "/opt/jdk17/bin/java");
    assert!(launch.args.is_empty());
    let elsewhere = shim.plan_execution(&config, &p("/other"), &argv(&[])).unwrap();
    assert_eq!(render(&elsewhere.program), "/opt/jdk11/bin/java");
}

#[test]
fn shim_fails_on_an_empty_configuration() {
    let config = JvmsConfiguration::new();
    let shim = Shim::find_shim("java").unwrap();
    let result = shim.plan_execution(&config, &p("/work"), &argv(&["java", "-version"]));
    assert_eq!(
        result,
        Err(JvmsError::InvalidConfiguration(ConfigurationError::NoToolchainForDirectory(p("/work"))))
    );
}

#[test]
fn installation_config_file_lies_in_its_directory() {
    let installation = JvmsInstallation::new(p("/opt/jvms"));
    assert_eq!(render(installation.get_installation_path()), "/opt/jvms");
    assert_eq!(render(&installation.get_config_file_path()), "/opt/jvms/jvms.conf");
}

#[test]
fn prepare_save_validates_unless_forced() {
    let installation = JvmsInstallation::new(p("/opt/jvms"));
    let empty = JvmsConfiguration::new();
    assert_eq!(
        installation.prepare_save(&empty, false, &vec![]),
        Err(JvmsError::InvalidConfiguration(ConfigurationError::NoToolchains))
    );
    let forced = installation.prepare_save(&empty, true, &vec![]).unwrap();
    assert_eq!(render(&forced), "/opt/jvms/jvms.conf");
    let ok = installation.prepare_save(&minimal_config(), false, &vec![true]).unwrap();
    assert_eq!(render(&ok), "/opt/jvms/jvms.conf");
}

#[test]
fn toolchain_new_keeps_its_home() {
    let t = JavaToolchain::new(p("/opt/jdk"));
    assert_eq!(render(&t.java_home), "/opt/jdk");
}
