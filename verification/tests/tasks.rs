use ios_runner_core::bootstrap::{lang_for_task_script, zed_task_preamble};
use ios_runner_core::global_tasks::{
    default_task_list, global_tasks_install_plan, kept_task_indices, task_entries_from_text, InstallItem, should_remove_task, task_uses_legacy_download,
    tasks_file_change, TaskEntry, TasksFileChange,
};
use ios_runner_core::keymap::{
    default_ios_runner_bindings, ios_runner_binding_keys, keymap_install, should_remove_binding,
    BindingAction, KeymapEntry, KeymapInstall,
};
use ios_runner_core::locale::{Lang};
use ios_runner_core::tasks::{
    global_keymap_task_label, project_task_list, project_tasks_file_has_global_duplicates,
    shell_task, shell_tasks_for_target, should_refresh_project_tasks, task_defs, task_label,
    task_label_for_def, tasks_json_has_ios_runner_tasks, TaskInstallTarget,
};

#[test]
fn init_task_label_zh() {
    let defs = task_defs();
    let def = defs
        .iter()
        .find(|d| d.subcommand == "ensure" && d.target == TaskInstallTarget::Global)
        .expect("ensure task");
    assert_eq!(task_label_for_def(def, Lang::ZhCn), "iOS-Runner: 初始化项目");
}

#[test]
fn detects_localized_tasks_json() {
    assert!(tasks_json_has_ios_runner_tasks(r#"[{"label":"iOS-Runner: 初始化项目"}]"#));
}

#[test]
fn project_tasks_exclude_global_duplicates() {
    let project = shell_tasks_for_target(TaskInstallTarget::Project, Lang::ZhCn);
    let labels: Vec<&str> = project.iter().map(|t| t.label.as_str()).collect();
    assert!(!labels.contains(&"iOS-Runner: 运行"));
    assert!(!labels.contains(&"iOS-Runner: 检查环境"));
    assert!(labels.iter().any(|l| l.contains("详细日志")));
}

#[test]
fn global_tasks_include_doctor() {
    let global = shell_tasks_for_target(TaskInstallTarget::Global, Lang::En);
    let labels: Vec<&str> = global.iter().map(|t| t.label.as_str()).collect();
    assert!(labels.contains(&"iOS-Runner: Doctor"));
}

#[test]
fn configure_task_uses_destination_language() {
    let defs = task_defs();
    let def = defs
        .iter()
        .find(|d| d.subcommand == "configure --no-run" && d.target == TaskInstallTarget::Global)
        .expect("configure task");
    assert_eq!(task_label_for_def(def, Lang::En), "iOS-Runner: Select Scheme & Destination");
    assert_eq!(task_label_for_def(def, Lang::ZhCn), "iOS-Runner: 选择 Scheme 与运行目标");
}

#[test]
fn tasks_json_with_legacy_download_is_not_current() {
    assert!(!tasks_json_has_ios_runner_tasks(
        r#"[{"label":"iOS-Runner: Run","args":["-c","curl -fsSL x"]}]"#
    ));
    assert!(!tasks_json_has_ios_runner_tasks("[]"));
}

#[test]
fn keymap_label_for_run() {
    assert_eq!(global_keymap_task_label("run", Lang::En).as_deref(), Some("iOS-Runner: Run"));
    assert_eq!(global_keymap_task_label("nope", Lang::En), None);
    assert_eq!(task_label("Build"), "iOS-Runner: Build");
}

#[test]
fn project_tasks_refresh_rules() {
    assert!(project_tasks_file_has_global_duplicates(r#"{"label": "iOS-Runner: Run"}"#));
    assert!(!project_tasks_file_has_global_duplicates(r#"{"label": "iOS-Runner: Pod Install"}"#));
    assert!(!should_refresh_project_tasks(false, false, None));
    assert!(should_refresh_project_tasks(false, true, None));
    assert!(should_refresh_project_tasks(true, true, None));
    assert!(!should_refresh_project_tasks(true, false, Some("[]")));
    assert!(should_refresh_project_tasks(true, false, Some(r#"{"label": "iOS-Runner: Doctor"}"#)));
}

#[test]
fn shell_task_runs_cli_in_worktree() {
    let t = shell_task("iOS-Runner: Run", "run");
    assert_eq!(t.label, "iOS-Runner: Run");
    assert_eq!(t.command, "/bin/zsh");
    assert_eq!(t.args[0], "-fc");
    assert!(t.args[1].starts_with(&zed_task_preamble(Lang::ZhCn)));
    assert!(t.args[1].contains("cd \"${ZED_WORKTREE_ROOT:.}\" && "));
    assert!(t.args[1].ends_with(" run"));
    assert!(!t.allow_concurrent_runs);
}

#[test]
fn project_list_adds_pod_install() {
    let with = project_task_list(Lang::En, true);
    let without = project_task_list(Lang::En, false);
    assert_eq!(with.len(), without.len() + 1);
    assert_eq!(with.last().unwrap().label, "iOS-Runner: Pod Install");
    assert!(with.last().unwrap().args[1].ends_with("pod install"));
}

#[test]
fn lang_for_tasks_prefers_env() {
    assert_eq!(lang_for_task_script(Some("en"), None, None), Lang::En);
    assert_eq!(lang_for_task_script(None, None, None), Lang::ZhCn);
}

#[test]
fn uninstall_removes_what_install_writes() {
    for t in default_task_list(Lang::En) {
        assert!(should_remove_task(Some(&t.label), Some(&t.args[1])));
    }
    let defaults = default_ios_runner_bindings(Lang::En);
    assert_eq!(defaults.len(), 4);
    let zh = default_ios_runner_bindings(Lang::ZhCn);
    assert_eq!(zh[3].key, "cmd-shift-u");
    assert_eq!(zh[3].task_name, "iOS-Runner: 初始化项目");
    for b in defaults {
        let action = BindingAction {
            action: Some("task::Spawn".into()),
            task_name: Some(b.task_name.clone()),
        };
        assert!(should_remove_binding(&b.key, &action));
    }
}

#[test]
fn legacy_task_scripts_are_recognised() {
    assert!(task_uses_legacy_download(Some("curl -fsSL https://x | sh")));
    assert!(task_uses_legacy_download(Some("echo 正在下载命令行工具")));
    assert!(!task_uses_legacy_download(Some("ios-runner run")));
    assert!(!task_uses_legacy_download(None));
    assert!(!should_remove_task(Some("My task"), None));
}

#[test]
fn tasks_file_changes() {
    assert_eq!(tasks_file_change(3, 3), TasksFileChange::Unchanged);
    assert_eq!(tasks_file_change(3, 0), TasksFileChange::Remove);
    assert_eq!(tasks_file_change(3, 1), TasksFileChange::Rewrite);
}

#[test]
fn keymap_binding_checks() {
    assert_eq!(ios_runner_binding_keys(), vec!["cmd-shift-r", "cmd-shift-b", "cmd-shift-i", "cmd-shift-u"]);
    let other = BindingAction { action: Some("editor::Save".into()), task_name: None };
    assert!(!should_remove_binding("cmd-s", &other));
    assert!(should_remove_binding("cmd-shift-r", &other));
}

#[test]
fn keymap_install_merges_into_workspace() {
    let entries = vec![
        KeymapEntry { workspace: false, binding_keys: Some(vec!["cmd-k".into()]) },
        KeymapEntry { workspace: true, binding_keys: Some(vec!["cmd-shift-b".into()]) },
    ];
    match keymap_install(&entries) {
        KeymapInstall::AddMissing { entry, keys } => {
            assert_eq!(entry, 1);
            assert_eq!(keys, vec!["cmd-shift-r", "cmd-shift-i", "cmd-shift-u"]);
        }
        other => panic!("unexpected {other:?}"),
    }
    let bare = vec![KeymapEntry { workspace: true, binding_keys: None }];
    assert!(matches!(keymap_install(&bare), KeymapInstall::SetBindings { entry: 0 }));
    assert!(matches!(keymap_install(&Vec::new()), KeymapInstall::AppendEntry));
}

fn entry(label: Option<&str>, script: Option<&str>) -> TaskEntry {
    TaskEntry { label: label.map(str::to_string), script: script.map(str::to_string) }
}

#[test]
fn install_replaces_our_tasks_and_uninstall_undoes_it() {
    let before = vec![
        entry(Some("My task"), Some("make")),
        entry(Some("iOS-Runner: Run"), Some("old script")),
        entry(Some("Fetch"), Some("curl -fsSL https://x | sh")),
        entry(None, None),
    ];
    assert_eq!(kept_task_indices(&before), vec![0, 3]);
    // The install keeps the others and appends ours.
    let mut installed: Vec<TaskEntry> = kept_task_indices(&before).into_iter().map(|i| before[i].clone()).collect();
    for t in default_task_list(Lang::En) {
        installed.push(entry(Some(&t.label), Some(&t.args[1])));
    }
    assert_eq!(installed.len(), 7);
    // Uninstalling then keeps exactly the tasks that were not ours.
    assert_eq!(kept_task_indices(&installed), vec![0, 1]);
    // A second install finds the same tasks to keep.
    let again: Vec<TaskEntry> = kept_task_indices(&installed).into_iter().map(|i| installed[i].clone()).collect();
    assert_eq!(again.len(), 2);
    assert_eq!(again[0].label.as_deref(), Some("My task"));
    assert_eq!(again[1].label, None);
    assert_eq!(tasks_file_change(installed.len(), 2), TasksFileChange::Rewrite);
}

#[test]
fn global_tasks_and_keys_follow_readme() {
    let labels: Vec<String> = default_task_list(Lang::En).into_iter().map(|t| t.label).collect();
    assert_eq!(
        labels,
        vec![
            "iOS-Runner: Doctor",
            "iOS-Runner: Initialize Project",
            "iOS-Runner: Run",
            "iOS-Runner: Select Scheme & Destination",
            "iOS-Runner: Build",
        ]
    );
    let select = &default_task_list(Lang::En)[3];
    assert!(select.args[1].ends_with("configure --no-run"));
    let bindings: Vec<(String, String)> =
        default_ios_runner_bindings(Lang::En).into_iter().map(|b| (b.key, b.task_name)).collect();
    assert!(bindings.contains(&("cmd-shift-u".to_string(), "iOS-Runner: Initialize Project".to_string())));
    assert!(bindings.contains(&("cmd-shift-i".to_string(), "iOS-Runner: Select Scheme & Destination".to_string())));
    let preamble = zed_task_preamble(Lang::En);
    assert!(preamble.starts_with("export PATH=\"$HOME/.ios-runner/bin:$PATH\""));
    assert!(preamble.contains("test -x \"$HOME/.ios-runner/bin/ios-runner\""));
    assert!(!preamble.contains("$IR"));
    assert_eq!(preamble.trim(), preamble);
}

#[test]
fn install_plan_from_tasks_json() {
    let text = r#"[{"label":"Mine","args":["-c","make"]},{"label":"iOS-Runner: Run","args":["-fc","old"]}]"#;
    let entries = task_entries_from_text(Some(text));
    assert_eq!(entries.len(), 2);
    assert_eq!(entries[0].script.as_deref(), Some("make"));
    let (_, plan) = global_tasks_install_plan(Some(text), Lang::En);
    assert_eq!(plan.len(), 6);
    assert!(matches!(plan[0], InstallItem::Keep(0)));
    match &plan[1] {
        InstallItem::Write(t) => assert_eq!(t.label, "iOS-Runner: Doctor"),
        _ => panic!("expected a task of ours"),
    }
    let (entries, plan) = global_tasks_install_plan(Some("not json"), Lang::En);
    assert!(entries.is_empty());
    assert_eq!(plan.len(), 5);
    let (_, plan) = global_tasks_install_plan(None, Lang::ZhCn);
    assert_eq!(plan.len(), 5);
}
