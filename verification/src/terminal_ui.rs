//! How messages look on the terminal: colours, section banners, and the
//! project summary printed before a build or run.
use vstd::prelude::*;

use crate::config::{device_summary_view, ProjectKind, RunnerConfig};
use crate::diagnostics::pick;
use crate::locale::{t, Lang};
use crate::text::{chars_of, contains_lit, contains_sub, owned, push_all, push_lit, str_views, string_of};

verus! {

/// Colour is used unless `NO_COLOR` or `IOS_RUNNER_NO_COLOR` is set, and only
/// on a terminal.
pub fn color_enabled(no_color_set: bool, ios_runner_no_color_set: bool, stderr_is_terminal: bool) -> (b:
    bool)
    ensures
        b == (!no_color_set && !ios_runner_no_color_set && stderr_is_terminal),
{
    !no_color_set && !ios_runner_no_color_set && stderr_is_terminal
}

pub open spec fn styled(text: Seq<char>, code: Seq<char>, color: bool) -> Seq<char> {
    if color {
        "\x1b["@ + code + "m"@ + text + "\x1b[0m"@
    } else {
        text
    }
}

/// `text` in the ANSI style `code` when colour is on.
pub fn style(text: &str, code: &str, color: bool) -> (s: String)
    ensures
        s@ == styled(text@, code@, color),
{
    if color {
        let mut r: Vec<char> = Vec::new();
        push_lit(&mut r, "\x1b[");
        push_lit(&mut r, code);
        push_lit(&mut r, "m");
        push_lit(&mut r, text);
        push_lit(&mut r, "\x1b[0m");
        string_of(r.as_slice())
    } else {
        owned(text)
    }
}

/// The kinds of one-line messages.
#[derive(Debug, Clone, Copy, PartialEq, Eq, Structural)]
pub enum MessageKind {
    Info,
    Success,
    Warn,
}

pub open spec fn kind_code(k: MessageKind) -> Seq<char> {
    match k {
        MessageKind::Info => "90"@,
        MessageKind::Success => "32"@,
        MessageKind::Warn => "33"@,
    }
}

/// A message as printed: grey for details, green for success, yellow for warnings.
pub fn message_line(kind: MessageKind, msg: &str, color: bool) -> (s: String)
    ensures
        s@ == styled(msg@, kind_code(kind), color),
{
    let code = match kind {
        MessageKind::Info => "90",
        MessageKind::Success => "32",
        MessageKind::Warn => "33",
    };
    style(msg, code, color)
}

/// The rule of a section banner: 48 box-drawing dashes.
pub open spec fn rule() -> Seq<char> {
    Seq::new(48, |i: int| '─')
}

fn rule_line() -> (r: Vec<char>)
    ensures
        r@ == rule(),
{
    let mut r: Vec<char> = Vec::new();
    let mut i: usize = 0;
    while i < 48
        invariant
            i <= 48,
            r@ == Seq::new(i as nat, |k: int| '─'),
        decreases 48 - i,
    {
        r.push('─');
        i = i + 1;
        assert(r@ =~= Seq::new(i as nat, |k: int| '─'));
    }
    r
}

/// A section banner: a rule, the indented title, the indented detail when it
/// is not empty, and a rule.
pub open spec fn section_view(title: Seq<char>, detail: Option<Seq<char>>, color: bool) -> Seq<
    Seq<char>,
> {
    let line = styled(rule(), "36"@, color);
    seq![line, styled("  "@ + title, "1;36"@, color)] + (match detail {
        Some(d) => if d.len() > 0 {
            seq!["  "@ + d]
        } else {
            Seq::empty()
        },
        None => Seq::empty(),
    }) + seq![line]
}

pub fn section_lines(title: &str, detail: Option<&str>, color: bool) -> (lines: Vec<String>)
    ensures
        str_views(lines@) == section_view(title@, crate::bootstrap::opt_text(detail), color),
{
    let r = rule_line();
    let rs = string_of(r.as_slice());
    let line = style(rs.as_str(), "36", color);
    let mut head = chars_of("  ");
    push_lit(&mut head, title);
    let hs = string_of(head.as_slice());
    let mut lines: Vec<String> = Vec::new();
    lines.push(owned(line.as_str()));
    lines.push(style(hs.as_str(), "1;36", color));
    match detail {
        Some(d) => {
            if !d.is_empty() {
                let mut dl = chars_of("  ");
                push_lit(&mut dl, d);
                lines.push(string_of(dl.as_slice()));
            }
        },
        None => {},
    }
    lines.push(line);
    assert(str_views(lines@) =~= section_view(title@, crate::bootstrap::opt_text(detail), color));
    lines
}

pub open spec fn labelled(label: Seq<char>, value: Seq<char>) -> Seq<char> {
    label + " : "@ + value
}

fn labelled_line(label: &str, value: &str) -> (s: String)
    ensures
        s@ == labelled(label@, value@),
{
    let mut r = chars_of(label);
    push_lit(&mut r, " : ");
    push_lit(&mut r, value);
    string_of(r.as_slice())
}

/// The summary before a build or run: kind, path, package manager, scheme,
/// configuration and destination, one per line.
pub open spec fn project_context(c: crate::config::RunnerConfigView, lang: Lang) -> Seq<Seq<char>> {
    let kind = match c.kind {
        ProjectKind::Workspace => "Workspace"@,
        ProjectKind::Project => "Project"@,
    };
    let pm = if contains_sub(c.path, "xcworkspace"@) {
        "CocoaPods / Workspace"@
    } else {
        "Xcode Project"@
    };
    seq![
        labelled(pick(lang, "类型"@, "Kind"@), kind),
        labelled(pick(lang, "路径"@, "Path"@), c.path),
        labelled(pick(lang, "包管理"@, "Package manager"@), pm),
        labelled("Scheme"@, c.scheme),
        labelled("Configuration"@, c.configuration),
        labelled(pick(lang, "运行目标"@, "Destination"@), device_summary_view(c.destination, lang)),
    ]
}

/// The title of the project summary.
pub fn project_context_title(lang: Lang) -> (s: &'static str)
    ensures
        s@ == pick(lang, "当前工程"@, "Current project"@),
{
    t(lang, "当前工程", "Current project")
}

/// The detail lines printed under the project summary's title.
pub fn print_project_context(config: &RunnerConfig, lang: Lang) -> (lines: Vec<String>)
    ensures
        str_views(lines@) == project_context(config@, lang),
{
    let kind = match config.kind {
        ProjectKind::Workspace => t(lang, "Workspace", "Workspace"),
        ProjectKind::Project => t(lang, "Project", "Project"),
    };
    let pm = if contains_lit(chars_of(config.path.as_str()).as_slice(), "xcworkspace") {
        t(lang, "CocoaPods / Workspace", "CocoaPods / Workspace")
    } else {
        t(lang, "Xcode Project", "Xcode Project")
    };
    let summary = config.device_summary(lang);
    let mut lines: Vec<String> = Vec::new();
    lines.push(labelled_line(t(lang, "类型", "Kind"), kind));
    lines.push(labelled_line(t(lang, "路径", "Path"), config.path.as_str()));
    lines.push(labelled_line(t(lang, "包管理", "Package manager"), pm));
    lines.push(labelled_line("Scheme", config.scheme.as_str()));
    lines.push(labelled_line("Configuration", config.configuration.as_str()));
    lines.push(labelled_line(t(lang, "运行目标", "Destination"), summary.as_str()));
    assert(str_views(lines@) =~= project_context(config@, lang));
    lines
}

/// The warning when `xcbeautify` is enabled in the config but not installed.
pub fn warn_xcbeautify_missing(enabled_in_config: bool, installed: bool, lang: Lang) -> (r: Option<
    &'static str,
>)
    ensures
        match r {
            Some(s) => enabled_in_config && !installed && s@ == pick(
                lang,
                "xcbeautify 未安装，回退到原始 xcodebuild 输出。安装: brew install xcbeautify"@,
                "xcbeautify not installed, falling back to raw xcodebuild output. Install: brew install xcbeautify"@,
            ),
            None => !enabled_in_config || installed,
        },
{
    if !enabled_in_config || installed {
        return None;
    }
    Some(
        t(
            lang,
            "xcbeautify 未安装，回退到原始 xcodebuild 输出。安装: brew install xcbeautify",
            "xcbeautify not installed, falling back to raw xcodebuild output. Install: brew install xcbeautify",
        ),
    )
}

} // verus!
