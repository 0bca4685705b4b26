//! The report of `ios-runner doctor`, from the facts it gathers about the
//! machine and the project.
use vstd::prelude::*;

use crate::config::{device_summary_view, ProjectKind};
use crate::destination::{is_placeholder, is_placeholder_destination};
use crate::diagnostics::pick;
use crate::locale::{t, Lang};
use crate::text::{chars_of, owned, push_lit, str_views, string_of};

verus! {

/// What `doctor` found out.
pub struct DoctorFacts {
    /// The version of this CLI.
    pub version: String,
    /// `~/.ios-runner/bin/ios-runner`, when it is a file.
    pub installed_cli: Option<String>,
    /// The running executable, when it is known.
    pub current_exe: Option<String>,
    /// Zed's global `tasks.json` holds an older download script.
    pub legacy_global_tasks: bool,
    /// Zed's global `tasks.json` exists.
    pub global_tasks: bool,
    /// `xcodebuild -version`, `xcrun --version` and `xcrun simctl list devices` succeed.
    pub xcodebuild_ok: bool,
    pub xcrun_ok: bool,
    pub simctl_ok: bool,
    /// `xcbeautify --version` succeeds.
    pub xcbeautify: bool,
    /// The folder has a `Podfile`; then whether `pod --version` succeeds and
    /// whether a `Pods` folder exists.
    pub podfile: bool,
    pub pod_ok: bool,
    pub pods_dir: bool,
    /// The detected project (its kind and path), or the detection error.
    pub project: Result<(ProjectKind, String), String>,
    /// The saved scheme and destination, when a config is saved.
    pub config: Option<(String, String)>,
}

/// The report: the lines printed, and whether everything needed is there.
pub struct DoctorReport {
    pub lines: Vec<String>,
    pub ok: bool,
}

pub open spec fn cli_line(f: DoctorFacts) -> Seq<char> {
    match f.installed_cli {
        Some(p) => "✓ CLI "@ + p@,
        None => match f.current_exe {
            Some(e) => "✓ CLI (current) "@ + e@,
            None => "⚠ CLI not at ~/.ios-runner/bin/ios-runner — reload Zed extension or run install-self"@,
        },
    }
}

pub open spec fn tasks_line(f: DoctorFacts) -> Seq<char> {
    if f.legacy_global_tasks {
        "⚠ Global Zed tasks use legacy scripts — run: ios-runner install-zed-tasks"@
    } else if f.global_tasks {
        "✓ Global Zed tasks"@
    } else {
        "⚠ No global tasks — run: ios-runner install-zed-tasks"@
    }
}

pub open spec fn tool_line(name: Seq<char>, ok: bool) -> Seq<char> {
    if ok {
        "✓ "@ + name
    } else {
        "✗ "@ + name + " not available or failed"@
    }
}

pub open spec fn pods_lines(f: DoctorFacts) -> Seq<Seq<char>> {
    if f.podfile {
        seq![
            if f.pod_ok {
                "✓ CocoaPods (pod)"@
            } else {
                "⚠ Podfile present but `pod` not found"@
            },
        ] + (if !f.pods_dir {
            seq!["⚠ Run `pod install` before building"@]
        } else {
            Seq::empty()
        })
    } else {
        Seq::empty()
    }
}

pub open spec fn project_line(f: DoctorFacts) -> Seq<char> {
    match f.project {
        Ok((kind, path)) => "✓ Xcode "@ + (match kind {
            ProjectKind::Workspace => "workspace"@,
            ProjectKind::Project => "project"@,
        }) + ": "@ + path@,
        Err(e) => "✗ "@ + e@,
    }
}

pub open spec fn config_line(f: DoctorFacts, lang: Lang) -> Seq<char> {
    match f.config {
        Some((scheme, dest)) => if is_placeholder(dest@) {
            "⚠ "@ + pick(
                lang,
                "已保存的 destination 无效 — 请运行 ios-runner configure --run"@,
                "Saved destination is invalid — run ios-runner configure --run"@,
            )
        } else {
            "✓ "@ + pick(lang, "已配置 scheme="@, "Configured scheme="@) + scheme@ + " · "@
                + device_summary_view(dest@, lang)
        },
        None => "ℹ "@ + pick(
            lang,
            "此工程尚无配置 — 运行 ios-runner ensure"@,
            "No config for this project — run ios-runner ensure"@,
        ),
    }
}

/// Everything needed is there: the Xcode tools run, a project was found, and
/// a saved destination is not a placeholder.
pub open spec fn doctor_ok(f: DoctorFacts) -> bool {
    &&& f.xcodebuild_ok && f.xcrun_ok && f.simctl_ok
    &&& f.project is Ok
    &&& !(f.config matches Some((s, d)) && is_placeholder(d@))
}

/// The lines of the report, in the order printed; the closing hint only when
/// everything is there.
pub open spec fn doctor_lines(f: DoctorFacts, lang: Lang) -> Seq<Seq<char>> {
    seq![
        "iOS-Runner "@ + f.version@,
        cli_line(f),
        tasks_line(f),
        tool_line("xcodebuild"@, f.xcodebuild_ok),
        tool_line("xcrun"@, f.xcrun_ok),
        tool_line("xcrun"@, f.simctl_ok),
        if f.xcbeautify {
            "✓ xcbeautify"@
        } else {
            "⚠ xcbeautify not found (optional, brew install xcbeautify)"@
        },
    ] + pods_lines(f) + seq![project_line(f), config_line(f, lang)] + (if doctor_ok(f) {
        seq!["\nNext: ios-runner configure   (pick scheme & simulator)"@, "      ios-runner init --pick"@]
    } else {
        Seq::empty()
    })
}

fn line2(a: &str, b: &str) -> (s: String)
    ensures
        s@ == a@ + b@,
{
    let mut r = chars_of(a);
    push_lit(&mut r, b);
    string_of(r.as_slice())
}

fn push_line(lines: &mut Vec<String>, s: String)
    ensures
        str_views(final(lines)@) == str_views(old(lines)@).push(s@),
{
    let ghost before = str_views(lines@);
    lines.push(s);
    assert(str_views(lines@) =~= before.push(s@));
}

fn tool_check(lines: &mut Vec<String>, name: &str, ok: bool)
    ensures
        str_views(final(lines)@) == str_views(old(lines)@).push(tool_line(name@, ok)),
{
    if ok {
        push_line(lines, line2("✓ ", name));
    } else {
        let mut r = chars_of("✗ ");
        push_lit(&mut r, name);
        push_lit(&mut r, " not available or failed");
        push_line(lines, string_of(r.as_slice()));
    }
}

fn cli_text(f: &DoctorFacts) -> (s: String)
    ensures
        s@ == cli_line(*f),
{
    match &f.installed_cli {
        Some(p) => line2("✓ CLI ", p.as_str()),
        None => match &f.current_exe {
            Some(e) => line2("✓ CLI (current) ", e.as_str()),
            None => owned(
                "⚠ CLI not at ~/.ios-runner/bin/ios-runner — reload Zed extension or run install-self",
            ),
        },
    }
}

fn tasks_text(f: &DoctorFacts) -> (s: String)
    ensures
        s@ == tasks_line(*f),
{
    if f.legacy_global_tasks {
        owned("⚠ Global Zed tasks use legacy scripts — run: ios-runner install-zed-tasks")
    } else if f.global_tasks {
        owned("✓ Global Zed tasks")
    } else {
        owned("⚠ No global tasks — run: ios-runner install-zed-tasks")
    }
}

fn project_text(f: &DoctorFacts) -> (s: String)
    ensures
        s@ == project_line(*f),
{
    match &f.project {
        Ok((kind, path)) => {
            let mut r = chars_of("✓ Xcode ");
            push_lit(
                &mut r,
                match kind {
                    ProjectKind::Workspace => "workspace",
                    ProjectKind::Project => "project",
                },
            );
            push_lit(&mut r, ": ");
            push_lit(&mut r, path.as_str());
            string_of(r.as_slice())
        },
        Err(e) => line2("✗ ", e.as_str()),
    }
}

fn config_text(f: &DoctorFacts, lang: Lang) -> (s: String)
    ensures
        s@ == config_line(*f, lang),
{
    match &f.config {
        Some((scheme, dest)) => {
            if is_placeholder_destination(dest.as_str()) {
                line2(
                    "⚠ ",
                    t(
                        lang,
                        "已保存的 destination 无效 — 请运行 ios-runner configure --run",
                        "Saved destination is invalid — run ios-runner configure --run",
                    ),
                )
            } else {
                let mut r = chars_of("✓ ");
                push_lit(&mut r, t(lang, "已配置 scheme=", "Configured scheme="));
                push_lit(&mut r, scheme.as_str());
                push_lit(&mut r, " · ");
                let summary = crate::config::destination_summary(dest.as_str(), lang);
                push_lit(&mut r, summary.as_str());
                string_of(r.as_slice())
            }
        },
        None => line2(
            "ℹ ",
            t(
                lang,
                "此工程尚无配置 — 运行 ios-runner ensure",
                "No config for this project — run ios-runner ensure",
            ),
        ),
    }
}

fn pods_texts(lines: &mut Vec<String>, f: &DoctorFacts)
    ensures
        str_views(final(lines)@) == str_views(old(lines)@) + pods_lines(*f),
{
    let ghost head = str_views(lines@);
    if f.podfile {
        if f.pod_ok {
            push_line(lines, owned("✓ CocoaPods (pod)"));
        } else {
            push_line(lines, owned("⚠ Podfile present but `pod` not found"));
        }
        if !f.pods_dir {
            push_line(lines, owned("⚠ Run `pod install` before building"));
        }
    }
    assert(str_views(lines@) =~= head + pods_lines(*f));
}

/// The report of `doctor`; it fails ("doctor found issues") when `ok` is false.
pub fn doctor_report(f: &DoctorFacts, lang: Lang) -> (r: DoctorReport)
    ensures
        str_views(r.lines@) == doctor_lines(*f, lang),
        r.ok == doctor_ok(*f),
{
    let mut lines: Vec<String> = Vec::new();
    push_line(&mut lines, line2("iOS-Runner ", f.version.as_str()));
    push_line(&mut lines, cli_text(f));
    push_line(&mut lines, tasks_text(f));
    tool_check(&mut lines, "xcodebuild", f.xcodebuild_ok);
    tool_check(&mut lines, "xcrun", f.xcrun_ok);
    tool_check(&mut lines, "xcrun", f.simctl_ok);
    if f.xcbeautify {
        push_line(&mut lines, owned("✓ xcbeautify"));
    } else {
        push_line(&mut lines, owned("⚠ xcbeautify not found (optional, brew install xcbeautify)"));
    }
    let ghost first = str_views(lines@);
    pods_texts(&mut lines, f);
    push_line(&mut lines, project_text(f));
    push_line(&mut lines, config_text(f, lang));
    let placeholder = match &f.config {
        Some((_, dest)) => is_placeholder_destination(dest.as_str()),
        None => false,
    };
    let ok = f.xcodebuild_ok && f.xcrun_ok && f.simctl_ok && f.project.is_ok() && !placeholder;
    let ghost before_tail = str_views(lines@);
    if ok {
        push_line(&mut lines, owned("\nNext: ios-runner configure   (pick scheme & simulator)"));
        push_line(&mut lines, owned("      ios-runner init --pick"));
    }
    assert(str_views(lines@) =~= doctor_lines(*f, lang));
    DoctorReport { lines, ok }
}

} // verus!
