use ios_runner_core::diagnostics::{
    captured_log_text, device_locked_hint, devicectl_failure_hint, diagnose_build_output,
    diagnose_lowercased, ensure_device_ready, print_build_failure_diagnostics,
    report_devicectl_failure, DeviceLocked, LockState,
};
use ios_runner_core::locale::Lang;

#[test]
fn diagnose_matches_any_case() {
    let hints = diagnose_build_output("error: SIGNING for \"App\" requires a development team", Lang::En);
    assert_eq!(
        hints,
        vec!["Signing: select a Team in Xcode → Signing & Capabilities, or set development_team in config.toml"]
    );
    assert!(diagnose_lowercased("SIGNING", Lang::En).is_empty());
}

#[test]
fn diagnose_orders_hints() {
    let log = "ld: framework not found\nThe sandbox is not in sync with the Podfile.lock\nerror: expected ';'\n";
    let hints = diagnose_build_output(log, Lang::ZhCn);
    assert_eq!(
        hints,
        vec![
            "依赖问题：在工程目录运行 pod install",
            "编译错误：查看上方日志中的 error: 行",
            "链接错误：检查 Framework 依赖与签名设置",
        ]
    );
    assert!(diagnose_build_output("all good", Lang::En).is_empty());
}

#[test]
fn failure_lines_bullet_each_hint() {
    let lines = print_build_failure_diagnostics("Unable to find a destination matching", Lang::En);
    assert_eq!(lines.len(), 2);
    assert_eq!(lines[0], "Build failed — hints:");
    assert!(lines[1].starts_with("  • Invalid destination"));
    assert!(print_build_failure_diagnostics("fine", Lang::En).is_empty());
}

#[test]
fn captured_log_sections() {
    assert_eq!(captured_log_text("", "  ", Lang::En), "(no captured output)");
    assert_eq!(captured_log_text("", "", Lang::ZhCn), "(无捕获输出)");
    assert_eq!(captured_log_text("boom", "out", Lang::En), "--- stdout ---\nout\n--- stderr ---\nboom\n");
}

#[test]
fn devicectl_hints_in_priority_order() {
    let locked = devicectl_failure_hint("The device is LOCKED", "", Lang::En).unwrap();
    assert!(locked.starts_with("Device is locked"));
    let dev = devicectl_failure_hint("", "Developer Mode is disabled", Lang::En).unwrap();
    assert!(dev.starts_with("Enable Developer Mode"));
    let trust = devicectl_failure_hint("not trusted", "", Lang::ZhCn).unwrap();
    assert!(trust.starts_with("请在 iPhone 上信任此 Mac"));
    assert!(devicectl_failure_hint("network error", "", Lang::En).is_none());
}

#[test]
fn devicectl_failure_report() {
    let r = report_devicectl_failure("Install on device", "passcode required", "", Lang::En);
    assert!(r.warning.is_some());
    assert_eq!(r.error, "Install on device failed");
    let r2 = report_devicectl_failure("Install on device", "  boom  ", "", Lang::En);
    assert!(r2.warning.is_none());
    assert_eq!(r2.detail.as_deref(), Some("boom"));
    assert_eq!(r2.error, "Install on device failed (see output above)");
    let r3 = report_devicectl_failure("安装到真机", "", "", Lang::ZhCn);
    assert_eq!(r3.detail, None);
    assert_eq!(r3.error, "安装到真机 失败（详见上方输出）");
}

#[test]
fn lock_state_decides_readiness() {
    let locked = LockState { passcode_required: Some(true), unlocked_since_boot: Some(false) };
    assert_eq!(ensure_device_ready(Some(locked)), Err(DeviceLocked));
    let ok = LockState { passcode_required: Some(true), unlocked_since_boot: Some(true) };
    assert_eq!(ensure_device_ready(Some(ok)), Ok(()));
    assert_eq!(ensure_device_ready(None), Ok(()));
    assert_eq!(DeviceLocked.message(Lang::En), "Device is locked (enter passcode after boot)");
    assert!(device_locked_hint("ABC", Lang::En).starts_with("Device (ABC) must be unlocked"));
}
