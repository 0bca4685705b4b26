use ios_runner_core::build_settings::{
    extract_json_payload, json_payload_from, launch_app_path, launch_artifacts, BuildSettings,
    LaunchError,
};
use ios_runner_core::config::{ProjectKind, RunnerConfig};
use ios_runner_core::destination::{
    destinations_from_showdestinations, validate_xcodebuild_destination, DestinationKind,
    RunDestination,
};
use ios_runner_core::detect::DetectedProject;
use ios_runner_core::locale::Lang;
use ios_runner_core::platform::{
    pbxproj_looks_macos_only, pbxproj_path, platforms_macos_only, platforms_support_ios,
    scheme_is_macos_only, supported_platforms_from_output,
};
use ios_runner_core::simulator::Simulator;
use ios_runner_core::xcodebuild::{
    already_booted, build_args, build_failure_error, build_settings_args, counts_as_source,
    default_preferred_destination, default_simulator_destination, detect_incremental_fresh,
    exit_code_text, incremental_check_enabled, list_schemes, newer, project_args, run_app,
    simulator_name_from_destination, walk_skip_dir, xcodebuild_failure_message, RunTarget,
    SchemeGroup, SchemeListing,
};

fn config(dest: &str) -> RunnerConfig {
    RunnerConfig {
        kind: ProjectKind::Workspace,
        path: "App.xcworkspace".into(),
        scheme: "App".into(),
        configuration: "Debug".into(),
        destination: dest.into(),
        derived_data: ".ios-runner/DerivedData".into(),
        xcbeautify: true,
        resolve_packages_before_build: true,
        bring_simulator_to_foreground: true,
        development_team: None,
        language: "en".into(),
    }
}

fn strings(v: &[&str]) -> Vec<String> {
    v.iter().map(|s| s.to_string()).collect()
}

#[test]
fn platforms_from_build_settings() {
    let out = "Build settings for action build:\n    SUPPORTED_PLATFORMS = iphonesimulator iphoneos\n  SUPPORTED_PLATFORMS = iphoneos macosx\r\n";
    let p = supported_platforms_from_output(out, "warning: x");
    assert_eq!(p, strings(&["iphonesimulator", "iphoneos", "macosx"]));
    assert!(platforms_support_ios(&p));
    assert!(!platforms_macos_only(&p));
    assert!(platforms_macos_only(&strings(&["macosx", "macos"])));
    assert!(!platforms_macos_only(&Vec::new()));
    assert!(platforms_support_ios(&strings(&["iphoneos17.0"])));
}

#[test]
fn macos_only_from_settings_or_project_file() {
    assert!(scheme_is_macos_only(&strings(&["macosx"]), None));
    assert!(!scheme_is_macos_only(&strings(&["macosx", "iphoneos"]), Some("SDKROOT = macosx")));
    assert!(scheme_is_macos_only(&Vec::new(), Some("SDKROOT = macosx;")));
    assert!(!scheme_is_macos_only(&Vec::new(), Some("SDKROOT = macosx; TARGETED_DEVICE_FAMILY = 1")));
    assert!(!scheme_is_macos_only(&Vec::new(), None));
    assert!(pbxproj_looks_macos_only("SUPPORTED_PLATFORMS = macosx"));
}

#[test]
fn pbxproj_location() {
    let ws = DetectedProject {
        kind: ProjectKind::Workspace,
        path: "/w/App.xcworkspace".into(),
        has_podfile: true,
        has_package_swift: false,
    };
    assert_eq!(pbxproj_path(&ws, true), "/w/App.xcodeproj/project.pbxproj");
    assert_eq!(pbxproj_path(&ws, false), "/w/App.xcworkspace/project.pbxproj");
    let proj = DetectedProject { kind: ProjectKind::Project, path: "/w/App.xcodeproj".into(), ..ws.clone() };
    assert_eq!(pbxproj_path(&proj, true), "/w/App.xcodeproj/project.pbxproj");
}

#[test]
fn default_simulator_prefers_iphone() {
    let d = |k, n: &str, dest: &str| RunDestination { kind: k, name: n.into(), platform: "p".into(), destination: dest.into() };
    let dests = vec![
        d(DestinationKind::Device, "Phone", "dev"),
        d(DestinationKind::Simulator, "iPad Air", "ipad"),
        d(DestinationKind::Simulator, "iPhone 16", "iphone"),
    ];
    assert_eq!(default_simulator_destination(&dests, None).unwrap(), "iphone");
    assert_eq!(default_preferred_destination(&dests, None).unwrap(), "dev");
    let ipads = vec![d(DestinationKind::Simulator, "iPad Air", "ipad")];
    assert_eq!(default_simulator_destination(&ipads, None).unwrap(), "ipad");
    let sims = vec![
        Simulator { name: "iPad Pro".into(), udid: "1".into(), runtime: "iOS-18".into() },
        Simulator { name: "iPhone 15".into(), udid: "2".into(), runtime: "iOS-18".into() },
    ];
    assert_eq!(
        default_simulator_destination(&Vec::new(), Some(&sims)).unwrap(),
        "platform=iOS Simulator,name=iPhone 15"
    );
    assert!(default_simulator_destination(&Vec::new(), None).is_err());
}

#[test]
fn run_targets() {
    assert_eq!(run_app(&config("platform=macOS,name=My Mac")), RunTarget::Mac);
    assert_eq!(run_app(&config("platform=iOS Simulator,name=iPhone 16")), RunTarget::Simulator);
    assert_eq!(run_app(&config("platform=iOS,id=1,name=P")), RunTarget::Device);
}

#[test]
fn simulator_name_and_boot() {
    assert_eq!(
        simulator_name_from_destination("platform=iOS Simulator, name= iPhone 16 ,OS=18").as_deref(),
        Some("iPhone 16")
    );
    assert_eq!(simulator_name_from_destination("platform=iOS Simulator"), None);
    assert!(already_booted("Unable to boot device in current state: Booted"));
    assert!(!already_booted("error"));
}

#[test]
fn incremental_build_rules() {
    assert!(walk_skip_dir("Pods"));
    assert!(!walk_skip_dir("Sources"));
    assert!(counts_as_source("/w/App/View.swift"));
    assert!(!counts_as_source("/w/App/Info.plist"));
    assert!(!counts_as_source("/w/App.xcodeproj/project.pbxproj"));
    assert!(!counts_as_source("/w/README"));
    assert_eq!(newer(None, 5), Some(5));
    assert_eq!(newer(Some(7), 5), Some(7));
    assert_eq!(newer(Some(3), 5), Some(5));
    assert!(detect_incremental_fresh(Some(3), Some(3)));
    assert!(!detect_incremental_fresh(Some(4), Some(3)));
    assert!(!detect_incremental_fresh(None, Some(3)));
    assert!(incremental_check_enabled(None, Some("1")));
    assert!(!incremental_check_enabled(Some("true"), Some("1")));
    assert!(!incremental_check_enabled(None, None));
}

#[test]
fn failure_messages_show_exit_codes() {
    assert_eq!(exit_code_text(Some(65)), "Some(65)");
    assert_eq!(exit_code_text(Some(-1)), "Some(-1)");
    assert_eq!(exit_code_text(Some(i32::MIN)), format!("{:?}", Some(i32::MIN)));
    assert_eq!(exit_code_text(None), "None");
    assert_eq!(xcodebuild_failure_message("build", Some(65), Lang::En), "build failed (exit Some(65))");
    assert_eq!(xcodebuild_failure_message("build", None, Lang::ZhCn), "build 失败 (exit None)");
    let e = build_failure_error("boom", "platform=iOS,id=1,name=P", Lang::En);
    assert!(e.starts_with("boom\n\nDevice builds require code signing"));
    assert_eq!(build_failure_error("boom", "platform=iOS Simulator,name=A", Lang::En), "boom");
}

#[test]
fn xcodebuild_arguments() {
    let mut c = config("platform=iOS,id=1,name=P");
    c.development_team = Some("T1".into());
    assert_eq!(
        build_args(&c, "/d"),
        strings(&[
            "-workspace", "App.xcworkspace", "-scheme", "App", "-configuration", "Debug",
            "-destination", "platform=iOS,id=1,name=P", "-derivedDataPath", "/d",
            "-allowProvisioningUpdates", "DEVELOPMENT_TEAM=T1", "build",
        ])
    );
    let s = build_settings_args(&config("platform=iOS Simulator,name=A"), None);
    assert!(s.contains(&"iphonesimulator".to_string()));
    assert!(!s.contains(&"-derivedDataPath".to_string()));
    let p = DetectedProject { kind: ProjectKind::Project, path: "/w/A.xcodeproj".into(), has_podfile: false, has_package_swift: false };
    assert_eq!(project_args(&p), strings(&["-project", "/w/A.xcodeproj"]));
}

#[test]
fn scheme_listing_prefers_project() {
    let l = SchemeListing {
        project: Some(SchemeGroup { schemes: Some(strings(&["A"])) }),
        workspace: Some(SchemeGroup { schemes: Some(strings(&["B"])) }),
    };
    assert_eq!(list_schemes(l), strings(&["A"]));
    let w = SchemeListing { project: Some(SchemeGroup { schemes: None }), workspace: Some(SchemeGroup { schemes: Some(strings(&["B"])) }) };
    assert_eq!(list_schemes(w), strings(&["B"]));
    assert!(list_schemes(SchemeListing { project: None, workspace: None }).is_empty());
}

#[test]
fn json_payload_extraction() {
    assert_eq!(extract_json_payload("[1, 2]"), Some(Some("[1, 2]".to_string())));
    assert_eq!(
        extract_json_payload("note: x\n{\"a\": 1}\ntrailing"),
        Some(Some("{\"a\": 1}".to_string()))
    );
    assert_eq!(extract_json_payload("no json here"), Some(None));
    assert_eq!(extract_json_payload("} x {"), None);
    assert_eq!(json_payload_from("} x {", true), Some("} x {".to_string()));
}

#[test]
fn launch_artifacts_from_settings() {
    let s = BuildSettings {
        target_build_dir: Some("/d/Build/Products/Debug-iphonesimulator".into()),
        wrapper_name: None,
        full_product_name: None,
        product_name: Some("App".into()),
        product_bundle_identifier: Some("com.example.app".into()),
    };
    let entries = vec![s.clone()];
    assert_eq!(launch_app_path(&entries).unwrap(), "/d/Build/Products/Debug-iphonesimulator/App.app");
    let a = launch_artifacts(&entries, true).unwrap();
    assert_eq!(a.bundle_identifier, "com.example.app");
    assert!(matches!(launch_artifacts(&entries, false), Err(LaunchError::AppNotFound(_))));
    assert!(matches!(launch_app_path(&Vec::new()), Err(LaunchError::NoSettings)));
    let no_dir = BuildSettings { target_build_dir: None, ..s.clone() };
    assert!(matches!(launch_app_path(&vec![no_dir]), Err(LaunchError::MissingTargetBuildDir)));
    let no_name = BuildSettings { product_name: None, ..s.clone() };
    assert!(matches!(launch_app_path(&vec![no_name]), Err(LaunchError::MissingProductName)));
    let no_id = BuildSettings { product_bundle_identifier: None, ..s };
    assert!(matches!(launch_artifacts(&vec![no_id], true), Err(LaunchError::MissingBundleId)));
    assert_eq!(
        LaunchError::AppNotFound("/x".into()).message(),
        "app not found at /x (build first?)"
    );
}

#[test]
fn default_simulator_passes_validation() {
    let stdout = "\t\t{ platform:iOS, id:D1, name:Zed Phone }\n\t\t{ platform:iOS Simulator, id:S1, OS:18.2, name:iPad Air }\n\t\t{ platform:iOS Simulator, id:S2, OS:18.2, name:iPhone 16 }\n";
    let listed = destinations_from_showdestinations(stdout, "");
    let picked = default_simulator_destination(&listed, None).unwrap();
    assert_eq!(picked, "platform=iOS Simulator,name=iPhone 16");
    assert!(validate_xcodebuild_destination(&picked).is_ok());
    let sims = vec![Simulator { name: "iPhone 15 Pro ".into(), udid: "2".into(), runtime: "iOS-18".into() }];
    let fallback = default_simulator_destination(&Vec::new(), Some(&sims)).unwrap();
    assert!(validate_xcodebuild_destination(&fallback).is_ok());
    let generic = destinations_from_showdestinations("{ platform:iOS Simulator, name:Any iOS Simulator Device }", "");
    let picked = default_simulator_destination(&generic, None).unwrap();
    assert!(validate_xcodebuild_destination(&picked).is_err());
}
