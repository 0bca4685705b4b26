use ios_runner_core::config::ProjectKind;
use ios_runner_core::detect::{
    detect_project, filter_schemes_for_project, find_xcode_file, pick_default_scheme,
    project_tasks_root, DetectError, DetectedProject,
};
use ios_runner_core::paths::{
    path_extension, path_file_name, path_file_stem, path_join, path_parent, relative_path,
};

fn project(path: &str) -> DetectedProject {
    DetectedProject {
        kind: ProjectKind::Workspace,
        path: path.to_string(),
        has_podfile: false,
        has_package_swift: false,
    }
}

fn strings(v: &[&str]) -> Vec<String> {
    v.iter().map(|s| s.to_string()).collect()
}

#[test]
fn find_xcodeproj_ignores_pods_and_embedded_workspace() {
    let root = "/tmp/ios-runner-detect-proj";
    let walked = strings(&[
        root,
        "/tmp/ios-runner-detect-proj/App.xcodeproj",
        "/tmp/ios-runner-detect-proj/App.xcodeproj/contents.xcworkspacedata",
        "/tmp/ios-runner-detect-proj/App.xcodeproj/project.xcworkspace",
    ]);
    assert!(find_xcode_file(&walked, "xcworkspace", true).is_none());
    let found = find_xcode_file(&walked, "xcodeproj", false).expect("xcodeproj");
    assert!(found.ends_with("App.xcodeproj"));
}

#[test]
fn find_workspace_skips_project_xcworkspace() {
    let walked = strings(&[
        "/tmp/ios-runner-detect-ws",
        "/tmp/ios-runner-detect-ws/App.xcworkspace",
        "/tmp/ios-runner-detect-ws/App.xcworkspace/contents.xcworkspacedata",
    ]);
    let found = find_xcode_file(&walked, "xcworkspace", true).expect("workspace");
    assert!(found.ends_with("App.xcworkspace"));
}

#[test]
fn filter_schemes_keeps_project_prefix() {
    let p = project("/tmp/ios-runner-detect-scheme-filter/Earphones.xcworkspace");
    let schemes = strings(&["AFNetworking", "Earphones", "EarphonesWidgetExtension"]);
    let filtered = filter_schemes_for_project(&schemes, &p);
    assert!(filtered.contains(&"Earphones".to_string()));
    assert!(filtered.contains(&"EarphonesWidgetExtension".to_string()));
    assert!(!filtered.contains(&"AFNetworking".to_string()));
}

#[test]
fn pick_default_scheme_prefers_workspace_name() {
    let p = project("/tmp/ios-runner-detect-scheme-default/App.xcworkspace");
    let schemes = strings(&["AppTests", "App", "Pods-App"]);
    assert_eq!(pick_default_scheme(&schemes, &p).as_deref(), Some("App"));
}

#[test]
fn default_scheme_skips_tests_and_pods() {
    let p = project("/w/Other.xcworkspace");
    let schemes = strings(&["Pods-Other", "CoreTests", "Core", "Extra"]);
    assert_eq!(filter_schemes_for_project(&schemes, &p), strings(&["CoreTests", "Core", "Extra"]));
    assert_eq!(pick_default_scheme(&schemes, &p).as_deref(), Some("Core"));
    let only_tests = strings(&["AUITests"]);
    assert_eq!(pick_default_scheme(&only_tests, &p).as_deref(), Some("AUITests"));
    assert_eq!(pick_default_scheme(&Vec::new(), &p), None);
}

#[test]
fn detect_prefers_workspace_and_longest_name() {
    let walked = strings(&[
        "/w",
        "/w/A.xcodeproj",
        "/w/Pods/Pods.xcodeproj",
        "/w/Short.xcworkspace",
        "/w/LongerName.xcworkspace",
    ]);
    let d = detect_project(false, true, &walked).unwrap();
    assert_eq!(d.kind, ProjectKind::Workspace);
    assert_eq!(d.path, "/w/LongerName.xcworkspace");
    assert!(d.has_package_swift);
    let only_proj = strings(&["/w", "/w/A.xcodeproj", "/w/Pods/Pods.xcodeproj"]);
    let e = detect_project(false, false, &only_proj).unwrap();
    assert_eq!(e.kind, ProjectKind::Project);
    assert_eq!(e.path, "/w/A.xcodeproj");
}

#[test]
fn detect_errors() {
    let only_proj = strings(&["/w", "/w/A.xcodeproj"]);
    assert_eq!(
        detect_project(true, false, &only_proj).unwrap_err(),
        DetectError::PodfileWithoutWorkspace
    );
    assert_eq!(detect_project(false, false, &strings(&["/w"])).unwrap_err(), DetectError::NoXcodeProject);
    assert!(DetectError::PodfileWithoutWorkspace.message().contains("pod install"));
}

#[test]
fn tasks_root_is_project_folder() {
    let p = project("/w/ios/App.xcworkspace");
    assert_eq!(project_tasks_root("/w", &p), "/w/ios");
    let bare = project("/");
    assert_eq!(project_tasks_root("/w", &bare), "/w");
}

#[test]
fn path_helpers_follow_std_path() {
    assert_eq!(path_file_name("/a/b.txt").as_deref(), Some("b.txt"));
    assert_eq!(path_file_name("/a/..").as_deref(), None);
    assert_eq!(path_file_stem("/a/.hidden").as_deref(), Some(".hidden"));
    assert_eq!(path_file_stem("/a/App.xcworkspace").as_deref(), Some("App"));
    assert_eq!(path_extension("/a/App.xcworkspace").as_deref(), Some("xcworkspace"));
    assert_eq!(path_extension("/a/App").as_deref(), None);
    assert_eq!(path_join("/a", "b"), "/a/b");
    assert_eq!(path_join("/a/", "b"), "/a/b");
    assert_eq!(path_join("/a", "/b"), "/b");
    assert_eq!(path_parent("/a/b").as_deref(), Some("/a"));
    assert_eq!(path_parent("/a").as_deref(), Some("/"));
    assert_eq!(path_parent("a").as_deref(), Some(""));
    assert_eq!(path_parent("/"), None);
    assert_eq!(relative_path("/w/app/App.xcodeproj", "/w/app"), "App.xcodeproj");
    assert_eq!(relative_path("/x/App.xcodeproj", "/w/app"), "/x/App.xcodeproj");
}
