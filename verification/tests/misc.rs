use ios_runner_core::config::ProjectKind;
use ios_runner_core::detect::{DetectError, DetectedProject};
use ios_runner_core::doctor::{doctor_report, DoctorFacts};
use ios_runner_core::extension::{
    arch_asset_suffix, bundled_cli_relative, cli_candidates, cli_installation_looks_valid,
    find_release_asset, pick_bundled_cli, release_tag, Arch,
};
use ios_runner_core::locale::{t, Lang};
use ios_runner_core::mcp::{
    answers, apply_tool_arguments, auto_setup_text, detect_tool_text, mcp_method, mcp_step, mcp_tool,
    mcp_request_step, mcp_tools, unknown_tool_text, McpAction, McpMethod, McpTool,
};
use ios_runner_core::config::RunnerConfig;
use ios_runner_core::setup::{ensure_step, EnsureAction, EnsureFacts, EnsureProgress, EnsureReport};
use ios_runner_core::paths::path_join;
use ios_runner_core::uninstall::{
    is_bootstrap_marker, uninstall_plan, UninstallOptions, UninstallReport, UninstallStep,
};

fn strings(v: &[&str]) -> Vec<String> {
    v.iter().map(|s| s.to_string()).collect()
}

fn facts() -> DoctorFacts {
    DoctorFacts {
        version: "0.3.0".into(),
        installed_cli: None,
        current_exe: Some("/bin/ios-runner".into()),
        legacy_global_tasks: false,
        global_tasks: true,
        xcodebuild_ok: true,
        xcrun_ok: true,
        simctl_ok: true,
        xcbeautify: false,
        podfile: true,
        pod_ok: true,
        pods_dir: false,
        project: Ok((ProjectKind::Workspace, "/w/App.xcworkspace".into())),
        config: Some(("App".into(), "platform=iOS Simulator,name=iPhone 16".into())),
    }
}

#[test]
fn doctor_report_lines() {
    let r = doctor_report(&facts(), Lang::En);
    assert!(r.ok);
    assert_eq!(r.lines[0], "iOS-Runner 0.3.0");
    assert_eq!(r.lines[1], "✓ CLI (current) /bin/ios-runner");
    assert_eq!(r.lines[2], "✓ Global Zed tasks");
    assert_eq!(r.lines[6], "⚠ xcbeautify not found (optional, brew install xcbeautify)");
    assert_eq!(r.lines[8], "⚠ Run `pod install` before building");
    assert_eq!(r.lines[9], "✓ Xcode workspace: /w/App.xcworkspace");
    assert_eq!(r.lines[10], "✓ Configured scheme=App · Simulator · iPhone 16");
    assert_eq!(r.lines.len(), 13);
    let mut bad = facts();
    bad.config = Some(("App".into(), "platform=iOS Simulator,name=placeholder".into()));
    bad.xcrun_ok = false;
    let r2 = doctor_report(&bad, Lang::En);
    assert!(!r2.ok);
    assert_eq!(r2.lines[4], "✗ xcrun not available or failed");
    assert_eq!(r2.lines.len(), 11);
}

#[test]
fn mcp_dispatch() {
    assert_eq!(mcp_method(Some("initialize")), McpMethod::Initialize);
    assert_eq!(mcp_method(None), McpMethod::Other);
    assert!(!answers(McpMethod::Initialized));
    assert!(answers(McpMethod::ToolsList));
    assert_eq!(mcp_tool(Some("ios_runner_run")), McpTool::Run);
    assert_eq!(mcp_tool(Some("x")), McpTool::Unknown);
    assert_eq!(mcp_tools().len(), 4);
    assert_eq!(unknown_tool_text(Some("x")), "Unknown tool: x");
}

#[test]
fn mcp_texts() {
    let p = DetectedProject { kind: ProjectKind::Workspace, path: "/w/A.xcworkspace".into(), has_podfile: true, has_package_swift: false };
    assert_eq!(detect_tool_text(&Ok(p)), "Detected /w/A.xcworkspace (CocoaPods)");
    assert!(detect_tool_text(&Err(DetectError::NoXcodeProject)).starts_with("Not an Xcode workspace: no .xcworkspace"));
    let r = EnsureReport {
        scheme: "App".into(),
        path: "A.xcworkspace".into(),
        destination: "d".into(),
        wrote_config: true,
        wrote_tasks: false,
        has_podfile: true,
        global_config: "/h/config.toml".into(),
    };
    assert_eq!(
        auto_setup_text(true, &Ok(r)),
        "iOS-Runner ready: scheme=App destination=d; saved global config /h/config.toml; Podfile detected: run「iOS-Runner: Pod Install」if needed"
    );
    assert_eq!(auto_setup_text(true, &Err("boom".into())), "Setup failed: boom");
    assert_eq!(auto_setup_text(false, &Err("boom".into())), "No Xcode project in this folder.");
}

#[test]
fn extension_cli_lookup() {
    assert_eq!(arch_asset_suffix(Arch::Aarch64).unwrap(), "aarch64-apple-darwin");
    assert_eq!(arch_asset_suffix(Arch::X86).unwrap_err(), "unsupported architecture: Architecture::X86");
    assert_eq!(bundled_cli_relative("x86_64-apple-darwin"), "bin/ios-runner-x86_64-apple-darwin");
    let c = cli_candidates("s");
    assert_eq!(c, strings(&["bin/ios-runner-s", "../bin/ios-runner-s", "../../bin/ios-runner-s"]));
    assert_eq!(pick_bundled_cli(&c, &vec![false, true, true]).unwrap(), "../bin/ios-runner-s");
    assert!(pick_bundled_cli(&c, &vec![false, false, false]).is_err());
    assert!(cli_installation_looks_valid(true, 2_000_000));
    assert!(!cli_installation_looks_valid(true, 500_000));
    assert!(!cli_installation_looks_valid(false, 2_000_000));
    assert_eq!(release_tag("0.3.0"), "v0.3.0");
    let names = strings(&["a", "ios-runner-s"]);
    assert_eq!(find_release_asset(&names, "ios-runner-s"), Ok(1));
    assert_eq!(find_release_asset(&names, "b").unwrap_err(), "release asset not found: b");
}

#[test]
fn uninstall_steps() {
    let steps = uninstall_plan(&UninstallOptions { keep_config: true, purge_derived_data: true }, "/h", "/h/.config/ios-runner");
    assert_eq!(steps.len(), 7);
    assert!(matches!(&steps[0], UninstallStep::RemoveFile(p) if p == "/h/.ios-runner/bin/ios-runner"));
    assert!(matches!(&steps[2], UninstallStep::RemovePath(p) if p == "/h/.ios-runner/DerivedData"));
    assert!(matches!(&steps[3], UninstallStep::KeepIfExists(p) if p == "/h/.config/ios-runner"));
    let d = UninstallOptions::default();
    let steps2 = uninstall_plan(&d, "/h", "/c");
    assert!(matches!(&steps2[2], UninstallStep::KeepIfExists(_)));
    assert!(matches!(&steps2[3], UninstallStep::RemovePath(p) if p == "/c"));
    assert!(is_bootstrap_marker(".bootstrap-123"));
    assert!(!is_bootstrap_marker("bin"));
    let mut r = UninstallReport::default();
    r.record_zed_tasks(None);
    r.record_zed_keymap(Some("/h/.config/zed/keymap.json"));
    assert_eq!(r.skipped, strings(&["~/.config/zed/tasks.json (no iOS-Runner tasks)"]));
    assert_eq!(r.removed, strings(&["/h/.config/zed/keymap.json"]));
}

#[test]
fn locale_and_text() {
    assert_eq!(t(Lang::En, "中", "en"), "en");
    assert_eq!(path_join("/h", "héllo"), "/h/héllo");
}

#[test]
fn mcp_requests_become_actions() {
    let (req, action) = mcp_request_step(
        r#"{"jsonrpc":"2.0","id":7,"method":"tools/call","params":{"name":"ios_runner_build","arguments":{"scheme":"App","verbose":true}}}"#,
    )
    .unwrap();
    assert_eq!(req.id.as_deref(), Some("7"));
    assert_eq!(action, McpAction::CallTool(McpTool::Build));
    assert_eq!(mcp_step(&req), action);
    assert_eq!(req.verbose, Some(true));
    let mut config = RunnerConfig {
        kind: ProjectKind::Project,
        path: "App.xcodeproj".into(),
        scheme: "Old".into(),
        configuration: "Debug".into(),
        destination: "platform=iOS Simulator,name=iPhone 16".into(),
        derived_data: "d".into(),
        xcbeautify: true,
        resolve_packages_before_build: true,
        bring_simulator_to_foreground: true,
        development_team: None,
        language: "en".into(),
    };
    apply_tool_arguments(&mut config, &req);
    assert_eq!(config.scheme, "App");
    assert_eq!(config.configuration, "Debug");
    let (_, note) = mcp_request_step(r#"{"method":"notifications/initialized"}"#).unwrap();
    assert_eq!(note, McpAction::Skip);
    let (init, a) = mcp_request_step(r#"{"id":"a","method":"initialize"}"#).unwrap();
    assert_eq!(init.id.as_deref(), Some("\"a\""));
    assert_eq!(a, McpAction::Initialize);
    assert!(mcp_request_step("not json").is_none());
    let tools = mcp_tools();
    assert!(tools[0].text_args.is_empty());
    assert_eq!(tools[2].text_args, vec!["scheme", "destination", "configuration"]);
    assert_eq!(tools[3].flag_args, vec!["verbose"]);
}

fn ensure_facts(saved: bool) -> EnsureFacts {
    EnsureFacts {
        saved,
        local_config: false,
        interactive: false,
        tasks_file_exists: false,
        tasks_text: None,
        tasks_forced: false,
        destination_valid: true,
        fallback_found: false,
    }
}

#[test]
fn ensure_steps_and_second_run() {
    let start = EnsureProgress {
        config_checked: false,
        tasks_checked: false,
        destination_checked: false,
        wrote_config: false,
        wrote_tasks: false,
    };
    let (a, p) = ensure_step(start, &ensure_facts(false));
    assert_eq!(a, EnsureAction::Configure { interactive: false });
    // By default no project tasks are written.
    let (a, _) = ensure_step(p, &ensure_facts(true));
    assert_eq!(a, EnsureAction::Finish { wrote_config: true, wrote_tasks: false });
    // A second run finds everything in place.
    let (a, _) = ensure_step(start, &ensure_facts(true));
    assert_eq!(a, EnsureAction::Finish { wrote_config: false, wrote_tasks: false });
    let mut forced = ensure_facts(true);
    forced.tasks_forced = true;
    let (a, p) = ensure_step(start, &forced);
    assert_eq!(a, EnsureAction::WriteTasks);
    let mut bad = ensure_facts(true);
    bad.destination_valid = false;
    bad.fallback_found = true;
    let (a, p) = ensure_step(p, &bad);
    assert_eq!(a, EnsureAction::RepairDestination);
    let (a, _) = ensure_step(p, &ensure_facts(true));
    assert_eq!(a, EnsureAction::Finish { wrote_config: true, wrote_tasks: true });
}
