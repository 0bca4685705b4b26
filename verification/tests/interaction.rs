use ios_runner_core::build_settings::LaunchArtifacts;
use ios_runner_core::config::{ProjectKind, RunnerConfig};
use ios_runner_core::destination::{DestinationKind, RunDestination};
use ios_runner_core::detect::DetectedProject;
use ios_runner_core::global_store::GlobalDefaults;
use ios_runner_core::locale::Lang;
use ios_runner_core::prompt::{
    clamp_default, confirm_answer, confirm_prompt, menu_lines, menu_prompt_text,
    only_option_notice, parse_usize_of, selection_from_answer,
    selection_from_answer_with_default, SelectionError,
};
use ios_runner_core::run::{
    build_plan, prepare_run, run_on_device, run_on_mac, run_on_simulator, BuildRunner, PrepareRun,
};
use ios_runner_core::setup::{
    apply_destination, configure_scheme_labels, configured_config, current_destination_index,
    default_destination_choice, default_scheme_index, ensure_output, first_app_scheme,
    interactive_config, print_configure_success, repair_saved_destination, run_after,
    EnsureOutput,
};
use ios_runner_core::terminal_ui::{
    color_enabled, message_line, print_project_context, section_lines, style,
    warn_xcbeautify_missing, MessageKind,
};
use ios_runner_core::text::chars_of;

fn strings(v: &[&str]) -> Vec<String> {
    v.iter().map(|s| s.to_string()).collect()
}

fn config(dest: &str) -> RunnerConfig {
    RunnerConfig {
        kind: ProjectKind::Workspace,
        path: "App.xcworkspace".into(),
        scheme: "App".into(),
        configuration: "Debug".into(),
        destination: dest.into(),
        derived_data: "/d".into(),
        xcbeautify: true,
        resolve_packages_before_build: false,
        bring_simulator_to_foreground: true,
        development_team: None,
        language: "en".into(),
    }
}

fn rd(kind: DestinationKind, name: &str, destination: &str) -> RunDestination {
    RunDestination { kind, name: name.into(), platform: "p".into(), destination: destination.into() }
}

#[test]
fn usize_parsing_matches_std() {
    for s in ["0", "42", "+7", "", "+", "-1", "1a", "18446744073709551615", "18446744073709551616", " 1"] {
        let v: Vec<char> = s.chars().collect();
        assert_eq!(parse_usize_of(&v), s.parse::<usize>().ok(), "input {s:?}");
    }
}

#[test]
fn menu_answers() {
    assert_eq!(selection_from_answer(0, "1"), Err(SelectionError::NoOptions));
    assert_eq!(selection_from_answer(1, "garbage"), Ok(0));
    assert_eq!(selection_from_answer(3, " 2\n"), Ok(1));
    assert_eq!(selection_from_answer(3, "0"), Err(SelectionError::OutOfRange));
    assert_eq!(selection_from_answer(3, "4"), Err(SelectionError::OutOfRange));
    assert_eq!(selection_from_answer(3, "two"), Err(SelectionError::InvalidNumber));
    assert_eq!(selection_from_answer_with_default(3, "\n", 9), Ok(2));
    assert_eq!(selection_from_answer_with_default(3, "", 1), Ok(1));
    assert_eq!(selection_from_answer_with_default(3, "3", 0), Ok(2));
    assert_eq!(clamp_default(0, 5), 0);
    assert_eq!(SelectionError::OutOfRange.message(Lang::En), "Number out of range");
}

#[test]
fn menu_text() {
    let opts = strings(&["A", "B"]);
    assert_eq!(menu_lines(&opts, None), strings(&["   1. A", "   2. B"]));
    assert_eq!(menu_lines(&opts, Some(1)), strings(&["     1. A", "  ▸  2. B"]));
    assert_eq!(menu_prompt_text(2, None, Lang::En), "Enter number [1-2]: ");
    assert_eq!(menu_prompt_text(12, Some(10), Lang::ZhCn), "请输入编号 [1-12，回车=11]：");
    assert_eq!(only_option_notice("Scheme", "App", Lang::En), "Scheme: App (only option)");
    let many: Vec<String> = (0..10).map(|i| format!("o{i}")).collect();
    assert_eq!(menu_lines(&many, None)[9], "  10. o9");
}

#[test]
fn confirm_answers() {
    assert!(confirm_answer("  YES \n", false));
    assert!(!confirm_answer("n", true));
    assert!(confirm_answer("", true));
    assert!(!confirm_answer("maybe", false));
    assert_eq!(confirm_prompt("Run now?", true), "Run now? [Y/n]：");
}

#[test]
fn setup_choices() {
    assert_eq!(configure_scheme_labels(&strings(&["Pods-A", "App"])), strings(&["App"]));
    assert_eq!(configure_scheme_labels(&strings(&["Pods-A"])), strings(&["Pods-A"]));
    let opts = strings(&["Core", "App"]);
    assert_eq!(default_scheme_index(&opts, Some("App")), 1);
    assert_eq!(default_scheme_index(&opts, Some("Zed")), 0);
    assert_eq!(default_scheme_index(&opts, None), 0);
    let dests = vec![rd(DestinationKind::Simulator, "S", "s"), rd(DestinationKind::Device, "D", "d")];
    assert_eq!(default_destination_choice(&dests), 1);
    assert_eq!(current_destination_index(&dests, &config("d")), 1);
    assert_eq!(current_destination_index(&dests, &config("zz")), 0);
    assert_eq!(run_after(true, true), Some(true));
    assert_eq!(run_after(false, true), Some(false));
    assert_eq!(run_after(false, false), None);
    assert_eq!(ensure_output(true, false, false), EnsureOutput::Silent);
    assert_eq!(ensure_output(true, true, false), EnsureOutput::Configured);
    assert_eq!(ensure_output(false, false, false), EnsureOutput::AlreadyConfigured);
    assert_eq!(first_app_scheme(&strings(&["Pods-X", "App"])).as_deref(), Some("App"));
    assert_eq!(first_app_scheme(&strings(&["Pods-X"])), None);
}

#[test]
fn picked_configs() {
    let p = DetectedProject { kind: ProjectKind::Workspace, path: "/w/App.xcworkspace".into(), has_podfile: false, has_package_swift: false };
    let picked = rd(DestinationKind::Device, "Phone", "platform=iOS,id=1,name=Phone");
    let defaults = GlobalDefaults { language: "en".into(), xcbeautify: false, resolve_packages_before_build: true, bring_simulator_to_foreground: true };
    let c = interactive_config(&p, "/w", "App", &picked, "/dd", &defaults, None);
    assert_eq!(c.path, "App.xcworkspace");
    assert!(!c.bring_simulator_to_foreground);
    assert!(!c.xcbeautify);
    assert_eq!(c.language, "en");
    let c2 = interactive_config(&p, "/w", "App", &picked, "/dd", &defaults, Some("zh-CN"));
    assert_eq!(c2.language, "zh-CN");
    let sim = rd(DestinationKind::Simulator, "iPhone", "platform=iOS Simulator,name=iPhone");
    let c3 = configured_config(&p, "/w", "App", &sim, Some("TEAM"));
    assert!(c3.bring_simulator_to_foreground);
    assert_eq!(c3.derived_data, ".ios-runner/DerivedData");
    assert_eq!(c3.development_team.as_deref(), Some("TEAM"));
    let lines = print_configure_success(&c3);
    assert_eq!(lines[4], "提示：模拟器无需签名");
}

#[test]
fn switching_and_repair() {
    let mut c = config("platform=iOS Simulator,name=A");
    apply_destination(&mut c, &rd(DestinationKind::Device, "P", "platform=iOS,id=1,name=P"));
    assert_eq!(c.destination, "platform=iOS,id=1,name=P");
    assert!(!c.bring_simulator_to_foreground);
    let mut bad = config("platform=iOS Simulator,name=placeholder");
    assert!(repair_saved_destination(&mut bad, Some("platform=iOS Simulator,name=B".into())));
    assert_eq!(bad.destination, "platform=iOS Simulator,name=B");
    let mut fine = config("platform=iOS Simulator,name=A");
    assert!(!repair_saved_destination(&mut fine, Some("x".into())));
    let mut none = config("");
    assert!(!repair_saved_destination(&mut none, None));
}

#[test]
fn terminal_styles() {
    assert_eq!(style("hi", "32", true), "\x1b[32mhi\x1b[0m");
    assert_eq!(style("hi", "32", false), "hi");
    assert_eq!(message_line(MessageKind::Warn, "w", true), "\x1b[33mw\x1b[0m");
    assert!(color_enabled(false, false, true));
    assert!(!color_enabled(true, false, true));
    let s = section_lines("Build", Some(""), false);
    assert_eq!(s.len(), 3);
    assert_eq!(s[1], "  Build");
    assert_eq!(chars_of(&s[0]).len(), 48);
    assert_eq!(section_lines("Build", Some("App"), false)[2], "  App");
    assert!(warn_xcbeautify_missing(true, false, Lang::En).is_some());
    assert!(warn_xcbeautify_missing(true, true, Lang::En).is_none());
    assert!(warn_xcbeautify_missing(false, false, Lang::En).is_none());
    let ctx = print_project_context(&config("platform=iOS Simulator,name=iPhone 16"), Lang::En);
    assert_eq!(ctx[0], "Kind : Workspace");
    assert_eq!(ctx[2], "Package manager : CocoaPods / Workspace");
    assert_eq!(ctx[5], "Destination : Simulator · iPhone 16");
}

#[test]
fn build_and_run_plans() {
    let c = config("platform=iOS,id=DEV1,name=Phone");
    let p = build_plan(&c, false, false, false, Lang::En);
    assert!(p.skip_message.is_none());
    assert_eq!(p.section_detail, "App · Device · Phone");
    assert!(p.resolve_note.is_none());
    assert!(matches!(p.runner, BuildRunner::Plain { notice: None, warning: Some(_) }));
    let piped = build_plan(&c, true, false, true, Lang::En);
    assert!(piped.skip_message.is_some());
    assert!(matches!(piped.runner, BuildRunner::Piped { .. }));
    assert!(matches!(build_plan(&c, false, true, true, Lang::En).runner, BuildRunner::Plain { notice: Some(_), warning: None }));
    assert!(matches!(prepare_run(false, true, Lang::En), PrepareRun::Build));
    assert!(matches!(prepare_run(true, false, Lang::En), PrepareRun::Rebuild { .. }));
    let a = LaunchArtifacts { app_path: "/d/App.app".into(), bundle_identifier: "com.x".into() };
    let d = run_on_device(&c, &a, Lang::En).unwrap();
    assert_eq!(d.device_id, "DEV1");
    assert_eq!(d.install_args, strings(&["devicectl", "device", "install", "app", "--device", "DEV1", "/d/App.app"]));
    assert_eq!(d.launch_args[5], "DEV1");
    assert!(run_on_device(&config("platform=iOS,name=Phone"), &a, Lang::En).is_err());
    let s = run_on_simulator(&config("platform=iOS Simulator,name=A"), "U1", &a, Lang::En);
    assert_eq!(s.install_args, strings(&["simctl", "install", "U1", "/d/App.app"]));
    assert_eq!(s.launch_note, "Launch com.x");
    let m = run_on_mac(&config("platform=macOS,name=My Mac"), &a, Lang::En);
    assert_eq!(m.note, "Open /d/App.app");
}
