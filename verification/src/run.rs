//! What building and running do, step by step: which tools are called with
//! which arguments, what is printed, and when a build is skipped.
use vstd::prelude::*;

use crate::build_settings::LaunchArtifacts;
use crate::config::{device_summary_view, RunnerConfig};
use crate::destination::{device_udid_from_destination, udid_in, NoDeviceId};
use crate::diagnostics::pick;
use crate::locale::{t, Lang};
use crate::text::{chars_of, owned, push_lit, str_views, string_of, split_char};
use crate::xcodebuild::{device_install_args, device_launch_args, simulator_launch_args};

verus! {

/// How the build is run.
pub enum BuildRunner {
    /// Piped through `xcbeautify`, announced by `notice`.
    Piped { notice: &'static str },
    /// Plain `xcodebuild` output, announced by `notice` when raw logs were
    /// asked for, else with `warning` when `xcbeautify` is enabled but missing.
    Plain { notice: Option<&'static str>, warning: Option<&'static str> },
}

/// The steps of `build` once the config is valid.
pub struct BuildPlan {
    /// Printed (as success) instead of building when the sources are unchanged.
    pub skip_message: Option<&'static str>,
    pub section_title: &'static str,
    pub section_detail: String,
    /// Printed before resolving packages, when they are resolved first.
    pub resolve_note: Option<&'static str>,
    pub runner: BuildRunner,
    /// Printed when the build succeeds.
    pub success: &'static str,
}

pub open spec fn skip_text(lang: Lang) -> Seq<char> {
    pick(
        lang,
        "✓ 源码未变化，跳过编译（设置 IOS_RUNNER_FORCE_BUILD=1 强制编译）"@,
        "✓ Sources unchanged, skipping build (set IOS_RUNNER_FORCE_BUILD=1 to force)"@,
    )
}

/// The build's steps: skipped when `fresh` (the freshness check ran and the
/// sources are unchanged); else a section titled by scheme and destination,
/// packages resolved first when the config says so, and `xcbeautify` used
/// when enabled, installed, and raw logs were not asked for.
pub fn build_plan(config: &RunnerConfig, fresh: bool, raw_logs: bool, xcbeautify_installed: bool, lang: Lang) -> (p: BuildPlan)
    ensures
        fresh ==> (p.skip_message matches Some(m) && m@ == skip_text(lang)),
        !fresh ==> p.skip_message is None,
        p.section_title@ == pick(lang, "编译"@, "Build"@),
        p.section_detail@ == config.scheme@ + " · "@ + device_summary_view(config.destination@, lang),
        config.resolve_packages_before_build ==> (p.resolve_note matches Some(n) && n@ == pick(
            lang,
            "解析 Swift Package…"@,
            "Resolving Swift packages…"@,
        )),
        !config.resolve_packages_before_build ==> p.resolve_note is None,
        (config.xcbeautify && xcbeautify_installed && !raw_logs) ==> (p.runner matches BuildRunner::Piped { notice } && notice@ == "xcodebuild → xcbeautify"@),
        !(config.xcbeautify && xcbeautify_installed && !raw_logs) ==> (p.runner matches BuildRunner::Plain { notice, warning } && (if raw_logs {
            notice matches Some(n) && n@ == pick(lang, "完整 xcodebuild 日志（IOS_RUNNER_RAW_LOG=1）"@, "Full xcodebuild log (IOS_RUNNER_RAW_LOG=1)"@) && warning is None
        } else {
            notice is None && (config.xcbeautify && !xcbeautify_installed <==> warning is Some)
        })),
        p.success@ == pick(lang, "✓ 编译成功"@, "✓ Build succeeded"@),
{
    let skip_message = if fresh {
        Some(
            t(
                lang,
                "✓ 源码未变化，跳过编译（设置 IOS_RUNNER_FORCE_BUILD=1 强制编译）",
                "✓ Sources unchanged, skipping build (set IOS_RUNNER_FORCE_BUILD=1 to force)",
            ),
        )
    } else {
        None
    };
    let mut detail = chars_of(config.scheme.as_str());
    push_lit(&mut detail, " · ");
    let summary = config.device_summary(lang);
    push_lit(&mut detail, summary.as_str());
    let resolve_note = if config.resolve_packages_before_build {
        Some(t(lang, "解析 Swift Package…", "Resolving Swift packages…"))
    } else {
        None
    };
    let runner = if config.xcbeautify && xcbeautify_installed && !raw_logs {
        BuildRunner::Piped { notice: t(lang, "xcodebuild → xcbeautify", "xcodebuild → xcbeautify") }
    } else if raw_logs {
        BuildRunner::Plain {
            notice: Some(
                t(
                    lang,
                    "完整 xcodebuild 日志（IOS_RUNNER_RAW_LOG=1）",
                    "Full xcodebuild log (IOS_RUNNER_RAW_LOG=1)",
                ),
            ),
            warning: None,
        }
    } else {
        BuildRunner::Plain {
            notice: None,
            warning: crate::terminal_ui::warn_xcbeautify_missing(
                config.xcbeautify,
                xcbeautify_installed,
                lang,
            ),
        }
    };
    BuildPlan {
        skip_message,
        section_title: t(lang, "编译", "Build"),
        section_detail: string_of(detail.as_slice()),
        resolve_note,
        runner,
        success: t(lang, "✓ 编译成功", "✓ Build succeeded"),
    }
}

/// The warning when resolving packages failed; the build goes on.
pub fn resolve_failure_warning(error: &str, lang: Lang) -> (s: String)
    ensures
        s@ == pick(
            lang,
            "Swift Package 解析失败（将继续编译）"@,
            "Swift package resolve failed (continuing build)"@,
        ) + ": "@ + error@,
{
    let mut r = chars_of(
        t(lang, "Swift Package 解析失败（将继续编译）", "Swift package resolve failed (continuing build)"),
    );
    push_lit(&mut r, ": ");
    push_lit(&mut r, error);
    string_of(r.as_slice())
}

/// Before running: build, or skip the build when the sources are unchanged
/// and the app is there, or rebuild (forcing it) when the app is missing.
pub enum PrepareRun {
    Build,
    Skip { message: &'static str },
    Rebuild { warning: &'static str },
}

/// The choice before running, from the freshness check (`fresh`, false when
/// it did not run) and whether the launch settings could be read.
pub fn prepare_run(fresh: bool, artifacts_found: bool, lang: Lang) -> (r: PrepareRun)
    ensures
        !fresh ==> r is Build,
        fresh && artifacts_found ==> (r matches PrepareRun::Skip { message } && message@ == pick(
            lang,
            "✓ 源码未变化，跳过编译"@,
            "✓ Sources unchanged, skipping build"@,
        )),
        fresh && !artifacts_found ==> (r matches PrepareRun::Rebuild { warning } && warning@ == pick(
            lang,
            "未找到 .app，将重新编译"@,
            ".app not found, rebuilding"@,
        )),
{
    if !fresh {
        PrepareRun::Build
    } else if artifacts_found {
        PrepareRun::Skip { message: t(lang, "✓ 源码未变化，跳过编译", "✓ Sources unchanged, skipping build") }
    } else {
        PrepareRun::Rebuild { warning: t(lang, "未找到 .app，将重新编译", ".app not found, rebuilding") }
    }
}

/// The steps of running on a device once the app is built.
pub struct DevicePlan {
    pub device_id: String,
    /// The banner and note before installing, and `devicectl`'s arguments.
    pub install_title: &'static str,
    pub install_detail: String,
    pub install_note: String,
    pub install_args: Vec<String>,
    /// The banner and note before launching, and `xcrun`'s arguments.
    pub log_title: &'static str,
    pub log_detail: &'static str,
    pub launch_note: String,
    pub launch_args: Vec<String>,
}

/// Running on the configured device: its id is read from the destination;
/// the app is installed with `devicectl`, then launched with its console.
pub fn run_on_device(config: &RunnerConfig, artifacts: &LaunchArtifacts, lang: Lang) -> (r: Result<DevicePlan, NoDeviceId>)
    ensures
        match udid_in(split_char(config.destination@, ',')) {
            None => r matches Err(e) && e.destination@ == config.destination@,
            Some(id) => r matches Ok(p) && {
                &&& p.device_id@ == id
                &&& p.install_title@ == pick(lang, "安装到真机"@, "Install on device"@)
                &&& p.install_detail@ == device_summary_view(config.destination@, lang)
                &&& p.install_note@ == pick(lang, "设备安装"@, "Installing on device"@) + " "@ + id
                &&& str_views(p.install_args@) == seq!["devicectl"@, "device"@, "install"@, "app"@, "--device"@, id, artifacts.app_path@]
                &&& p.log_title@ == pick(lang, "应用日志"@, "App log"@)
                &&& p.log_detail@ == pick(lang, "Ctrl+C 结束"@, "Ctrl+C to stop"@)
                &&& p.launch_note@ == pick(lang, "启动"@, "Launch"@) + " "@ + artifacts.bundle_identifier@
                &&& str_views(p.launch_args@) == seq![
                    "devicectl"@,
                    "device"@,
                    "process"@,
                    "launch"@,
                    "--device"@,
                    id,
                    "--console"@,
                    "--terminate-existing"@,
                    artifacts.bundle_identifier@,
                ]
            },
        },
{
    let device_id = match device_udid_from_destination(config.destination.as_str()) {
        Ok(id) => id,
        Err(e) => {
            return Err(e);
        },
    };
    let mut note = chars_of(t(lang, "设备安装", "Installing on device"));
    push_lit(&mut note, " ");
    push_lit(&mut note, device_id.as_str());
    let mut install_args: Vec<String> = Vec::new();
    install_args.push(owned("devicectl"));
    let rest = device_install_args(device_id.as_str(), artifacts.app_path.as_str());
    let mut i: usize = 0;
    while i < rest.len()
        invariant
            i <= rest@.len(),
            str_views(install_args@) == seq!["devicectl"@] + str_views(rest@).subrange(0, i as int),
        decreases rest@.len() - i,
    {
        let ghost before = str_views(install_args@);
        install_args.push(owned(rest[i].as_str()));
        assert(str_views(install_args@) =~= before.push(rest@[i as int]@));
        assert(str_views(rest@).subrange(0, i + 1) =~= str_views(rest@).subrange(0, i as int).push(rest@[i as int]@));
        i = i + 1;
    }
    assert(str_views(rest@).subrange(0, rest@.len() as int) =~= str_views(rest@));
    let mut launch = chars_of(t(lang, "启动", "Launch"));
    push_lit(&mut launch, " ");
    push_lit(&mut launch, artifacts.bundle_identifier.as_str());
    let launch_args = device_launch_args(device_id.as_str(), artifacts.bundle_identifier.as_str());
    let p = DevicePlan {
        install_title: t(lang, "安装到真机", "Install on device"),
        install_detail: config.device_summary(lang),
        install_note: string_of(note.as_slice()),
        install_args,
        log_title: t(lang, "应用日志", "App log"),
        log_detail: t(lang, "Ctrl+C 结束", "Ctrl+C to stop"),
        launch_note: string_of(launch.as_slice()),
        launch_args,
        device_id,
    };
    assert(str_views(p.install_args@) =~= seq!["devicectl"@, "device"@, "install"@, "app"@, "--device"@, p.device_id@, artifacts.app_path@]);
    Ok(p)
}

/// The warning after a failed launch on a device.
pub fn device_launch_hint(lang: Lang) -> (s: &'static str)
    ensures
        s@ == pick(
            lang,
            "若 iPhone 已锁屏，请先解锁并保持亮屏；确认已在手机上信任此 Mac，且已开启「开发者模式」。"@,
            "If the iPhone is locked, unlock it and keep the screen on; trust this Mac and enable Developer Mode."@,
        ),
{
    t(
        lang,
        "若 iPhone 已锁屏，请先解锁并保持亮屏；确认已在手机上信任此 Mac，且已开启「开发者模式」。",
        "If the iPhone is locked, unlock it and keep the screen on; trust this Mac and enable Developer Mode.",
    )
}

/// The steps of running on a simulator once its UDID is known and the app is built.
pub struct SimulatorPlan {
    pub boot_args: Vec<String>,
    /// Open the Simulator app (when the config asks for it).
    pub bring_to_front: bool,
    pub install_args: Vec<String>,
    pub log_title: &'static str,
    pub log_detail: &'static str,
    pub launch_note: String,
    pub launch_args: Vec<String>,
}

/// Running on a simulator: boot it (an already booted one is fine), open
/// Simulator when asked, install with `simctl`, launch with the console.
pub fn run_on_simulator(config: &RunnerConfig, udid: &str, artifacts: &LaunchArtifacts, lang: Lang) -> (p: SimulatorPlan)
    ensures
        str_views(p.boot_args@) == seq!["simctl"@, "boot"@, udid@],
        p.bring_to_front == config.bring_simulator_to_foreground,
        str_views(p.install_args@) == seq!["simctl"@, "install"@, udid@, artifacts.app_path@],
        p.log_title@ == pick(lang, "应用日志"@, "App log"@),
        p.log_detail@ == pick(
            lang,
            "点击 App 内按钮，输出会显示在下方 · Ctrl+C 结束日志（并停止 App）"@,
            "Tap buttons in the app to see output below · Ctrl+C stops logging (and the app)"@,
        ),
        p.launch_note@ == pick(lang, "启动"@, "Launch"@) + " "@ + artifacts.bundle_identifier@,
        str_views(p.launch_args@) == seq![
            "simctl"@,
            "launch"@,
            "--console-pty"@,
            "--terminate-running-process"@,
            udid@,
            artifacts.bundle_identifier@,
        ],
{
    let boot_args = vec![owned("simctl"), owned("boot"), owned(udid)];
    let install_args = vec![owned("simctl"), owned("install"), owned(udid), owned(artifacts.app_path.as_str())];
    let mut launch = chars_of(t(lang, "启动", "Launch"));
    push_lit(&mut launch, " ");
    push_lit(&mut launch, artifacts.bundle_identifier.as_str());
    let p = SimulatorPlan {
        boot_args,
        bring_to_front: config.bring_simulator_to_foreground,
        install_args,
        log_title: t(lang, "应用日志", "App log"),
        log_detail: t(
            lang,
            "点击 App 内按钮，输出会显示在下方 · Ctrl+C 结束日志（并停止 App）",
            "Tap buttons in the app to see output below · Ctrl+C stops logging (and the app)",
        ),
        launch_note: string_of(launch.as_slice()),
        launch_args: simulator_launch_args(udid, artifacts.bundle_identifier.as_str()),
    };
    assert(str_views(p.boot_args@) =~= seq!["simctl"@, "boot"@, udid@]);
    assert(str_views(p.install_args@) =~= seq!["simctl"@, "install"@, udid@, artifacts.app_path@]);
    p
}

/// The steps of opening a built Mac app.
pub struct MacPlan {
    pub title: &'static str,
    pub detail: String,
    pub note: String,
    pub success: &'static str,
}

pub fn run_on_mac(config: &RunnerConfig, artifacts: &LaunchArtifacts, lang: Lang) -> (p: MacPlan)
    ensures
        p.title@ == pick(lang, "启动 Mac 应用"@, "Launch Mac app"@),
        p.detail@ == device_summary_view(config.destination@, lang),
        p.note@ == pick(lang, "打开"@, "Open"@) + " "@ + artifacts.app_path@,
        p.success@ == pick(lang, "✓ 应用已启动"@, "✓ App launched"@),
{
    let mut note = chars_of(t(lang, "打开", "Open"));
    push_lit(&mut note, " ");
    push_lit(&mut note, artifacts.app_path.as_str());
    MacPlan {
        title: t(lang, "启动 Mac 应用", "Launch Mac app"),
        detail: config.device_summary(lang),
        note: string_of(note.as_slice()),
        success: t(lang, "✓ 应用已启动", "✓ App launched"),
    }
}

/// The error when `open` could not start the app.
pub fn open_failure_message(code: Option<i32>) -> (s: String)
    ensures
        s@ == "open failed (exit "@ + crate::xcodebuild::code_debug(code) + ")"@,
{
    let mut r = chars_of("open failed (exit ");
    push_lit(&mut r, crate::xcodebuild::exit_code_text(code).as_str());
    push_lit(&mut r, ")");
    string_of(r.as_slice())
}

/// The error when resolving packages before a build failed.
pub fn resolve_failure_message(code: Option<i32>) -> (s: String)
    ensures
        s@ == "resolvePackageDependencies failed (exit "@ + crate::xcodebuild::code_debug(code) + ")"@,
{
    let mut r = chars_of("resolvePackageDependencies failed (exit ");
    push_lit(&mut r, crate::xcodebuild::exit_code_text(code).as_str());
    push_lit(&mut r, ")");
    string_of(r.as_slice())
}

} // verus!
