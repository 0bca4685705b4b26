use ios_runner_core::config::{local_config_path, LocalConfigFile, ProjectKind, RunnerConfig};
use ios_runner_core::global_store::GlobalDefaults;
use ios_runner_core::locale::Lang;

fn sample() -> RunnerConfig {
    RunnerConfig {
        kind: ProjectKind::Workspace,
        path: "Demo.xcodeproj/project.xcworkspace".into(),
        scheme: "App".into(),
        configuration: "Debug".into(),
        destination: "platform=iOS Simulator,name=iPhone 16".into(),
        derived_data: ".ios-runner/DerivedData".into(),
        xcbeautify: true,
        resolve_packages_before_build: true,
        bring_simulator_to_foreground: true,
        development_team: None,
        language: "zh-CN".into(),
    }
}

#[test]
fn normalize_project_xcworkspace() {
    let mut c = sample();
    c.normalize();
    assert_eq!(c.path, "Demo.xcodeproj");
    assert_eq!(c.kind, ProjectKind::Project);
}

#[test]
fn normalize_repairs_legacy_destination() {
    let mut c = sample();
    c.destination = "platform:iOS Simulator,name:iPhone 16".into();
    c.normalize();
    assert_eq!(c.destination, "platform=iOS Simulator,name=iPhone 16");
}

#[test]
fn device_summary_per_kind() {
    let mut c = sample();
    assert_eq!(c.device_summary(Lang::En), "Simulator · iPhone 16");
    assert_eq!(c.device_summary(Lang::ZhCn), "模拟器 · iPhone 16");
    c.destination = "platform=macOS,name=My Mac".into();
    assert_eq!(c.device_summary(Lang::En), "Mac · My Mac");
    c.destination = "platform=iOS,id=1,name=Phone".into();
    assert_eq!(c.device_summary(Lang::En), "Device · Phone");
}

#[test]
fn merge_defaults_fills_blank_language() {
    let mut c = sample();
    c.language = "  ".into();
    let d = GlobalDefaults {
        language: "en".into(),
        xcbeautify: true,
        resolve_packages_before_build: true,
        bring_simulator_to_foreground: true,
    };
    c.merge_defaults(&d);
    assert_eq!(c.language, "en");
}

#[test]
fn project_path_joins_root() {
    let c = sample();
    assert_eq!(c.project_path("/work/app"), "/work/app/Demo.xcodeproj/project.xcworkspace");
}

#[test]
fn validate_reports_missing_project_and_bad_destination() {
    let c = sample();
    assert!(c.validate("/work", true).is_ok());
    assert!(c.validate("/work", false).is_err());
    let mut bad = sample();
    bad.destination = "".into();
    assert!(bad.validate("/work", true).is_err());
}

#[test]
fn local_config_prefers_new_name() {
    assert_eq!(local_config_path(true, true), Some(LocalConfigFile::Current));
    assert_eq!(local_config_path(false, true), Some(LocalConfigFile::Legacy));
    assert_eq!(local_config_path(false, false), None);
}
