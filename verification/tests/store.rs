use ios_runner_core::config::{ProjectKind, RunnerConfig};
use ios_runner_core::global_store::{
    config_file_path_in, env_flag_enabled, fnv1a64, global_derived_data_path_in, load_config,
    project_cache_id, save_config, GlobalConfigFile, GlobalDefaults, LoadError,
};

fn config(dest: &str, language: &str) -> RunnerConfig {
    RunnerConfig {
        kind: ProjectKind::Project,
        path: "App.xcodeproj".into(),
        scheme: "App".into(),
        configuration: "Debug".into(),
        destination: dest.into(),
        derived_data: ".ios-runner/DerivedData".into(),
        xcbeautify: true,
        resolve_packages_before_build: true,
        bring_simulator_to_foreground: true,
        development_team: Some("TEAM1".into()),
        language: language.into(),
    }
}

#[test]
fn project_cache_id_stable() {
    let a = project_cache_id("/tmp/foo");
    let b = project_cache_id("/tmp/foo");
    assert_eq!(a, b);
    assert!(a.starts_with("foo-"));
}

#[test]
fn cache_id_hashes_with_fnv1a() {
    assert_eq!(fnv1a64(b""), 0xcbf29ce484222325);
    assert_eq!(fnv1a64(b"a"), 0xaf63dc4c8601ec8c);
    let id = project_cache_id("/tmp/foo");
    assert_eq!(id.len(), "foo-".len() + 16);
    assert_eq!(id, format!("foo-{:016x}", fnv1a64(b"/tmp/foo")));
    assert!(project_cache_id("/").starts_with("project-"));
}

#[test]
fn global_paths_under_home() {
    assert_eq!(config_file_path_in("/Users/me"), "/Users/me/.config/ios-runner/config.toml");
    let p = global_derived_data_path_in("/Users/me", "/tmp/foo");
    assert!(p.starts_with("/Users/me/.ios-runner/DerivedData/foo-"));
}

#[test]
fn env_flags() {
    assert!(env_flag_enabled(Some("1")));
    assert!(env_flag_enabled(Some("TRUE")));
    assert!(!env_flag_enabled(Some("yes")));
    assert!(!env_flag_enabled(None));
}

#[test]
fn load_after_save_gives_back_config() {
    let mut file = GlobalConfigFile::default();
    let c = config("platform=iOS Simulator,name=iPhone 16", "en");
    save_config(&mut file, "/work/app", &c, "/home/.ios-runner/DerivedData/app-1");
    let other = config("platform=macOS,name=My Mac", "zh-CN");
    save_config(&mut file, "/work/other", &other, "/d2");
    let loaded = load_config(&file, "/work/app", None, "/home/.ios-runner/DerivedData/app-1").unwrap();
    assert_eq!(loaded.destination, c.destination);
    assert_eq!(loaded.scheme, c.scheme);
    assert_eq!(loaded.language, "en");
    assert_eq!(loaded.development_team.as_deref(), Some("TEAM1"));
    assert_eq!(loaded.derived_data, "/home/.ios-runner/DerivedData/app-1");
    assert_eq!(file.projects.len(), 2);
}

#[test]
fn save_replaces_and_repairs() {
    let mut file = GlobalConfigFile::default();
    save_config(&mut file, "/w", &config("platform=iOS Simulator,name=A", "en"), "/d");
    save_config(&mut file, "/w", &config("platform:iOS Simulator,name:B", ""), "/d");
    assert_eq!(file.projects.len(), 1);
    file.defaults = GlobalDefaults {
        language: "zh-CN".into(),
        xcbeautify: true,
        resolve_packages_before_build: true,
        bring_simulator_to_foreground: true,
    };
    let loaded = load_config(&file, "/w", None, "/d").unwrap();
    assert_eq!(loaded.destination, "platform=iOS Simulator,name=B");
    assert_eq!(loaded.language, "zh-CN");
}

#[test]
fn load_falls_back_to_local_then_fails() {
    let file = GlobalConfigFile::default();
    let local = config("platform=iOS Simulator,name=A", "en");
    assert!(load_config(&file, "/w", Some(local), "/d").is_ok());
    assert_eq!(load_config(&file, "/w", None, "/d").unwrap_err(), LoadError::NotConfigured);
}
