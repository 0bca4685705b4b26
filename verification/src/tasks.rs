//! Zed task definitions: labels, shell scripts and the task files' contents.
use vstd::prelude::*;

use crate::bootstrap::{preamble_view, zed_task_preamble, CLI_PATH_SHELL};
use crate::locale::Lang;
use crate::text::{chars_of, contains_lit, contains_sub, eq_lit, owned, push_lit, str_views, string_of};

verus! {

/// Prefix for all Zed task labels (`iOS-Runner: …`).
pub const TASK_LABEL_PREFIX: &'static str = "iOS-Runner:";

#[derive(Debug, Clone, Copy, PartialEq, Eq, Structural)]
pub enum TaskInstallTarget {
    Global,
    Project,
}

#[derive(Debug, Clone, Copy)]
pub struct TaskDef {
    pub subcommand: &'static str,
    pub target: TaskInstallTarget,
    pub label_zh: &'static str,
    pub label_en: &'static str,
}

pub struct TaskDefView {
    pub subcommand: Seq<char>,
    pub target: TaskInstallTarget,
    pub label_zh: Seq<char>,
    pub label_en: Seq<char>,
}

impl View for TaskDef {
    type V = TaskDefView;

    open spec fn view(&self) -> TaskDefView {
        TaskDefView {
            subcommand: self.subcommand@,
            target: self.target,
            label_zh: self.label_zh@,
            label_en: self.label_en@,
        }
    }
}

pub open spec fn def_view(
    subcommand: &str,
    target: TaskInstallTarget,
    label_zh: &str,
    label_en: &str,
) -> TaskDefView {
    TaskDefView { subcommand: subcommand@, target, label_zh: label_zh@, label_en: label_en@ }
}

/// The task table: global tasks first, then project-only extras.
pub open spec fn task_table() -> Seq<TaskDefView> {
    seq![
        def_view("doctor", TaskInstallTarget::Global, "检查环境", "Doctor"),
        def_view("ensure", TaskInstallTarget::Global, "初始化项目", "Initialize Project"),
        def_view("run", TaskInstallTarget::Global, "运行", "Run"),
        def_view(
            "configure --no-run",
            TaskInstallTarget::Global,
            "选择 Scheme 与运行目标",
            "Select Scheme & Destination",
        ),
        def_view("build", TaskInstallTarget::Global, "编译", "Build"),
        def_view(
            "configure --no-run",
            TaskInstallTarget::Project,
            "仅选择（不运行）",
            "Select Only (no run)",
        ),
        def_view("build --verbose", TaskInstallTarget::Project, "编译（详细日志）", "Build (verbose)"),
        def_view(
            "resolve-packages",
            TaskInstallTarget::Project,
            "解析 Swift Packages",
            "Resolve Swift Packages",
        ),
    ]
}

pub open spec fn def_views(v: Seq<TaskDef>) -> Seq<TaskDefView> {
    v.map_values(|d: TaskDef| d@)
}

fn task_def(
    subcommand: &'static str,
    target: TaskInstallTarget,
    label_zh: &'static str,
    label_en: &'static str,
) -> (d: TaskDef)
    ensures
        d@ == def_view(subcommand, target, label_zh, label_en),
{
    TaskDef { subcommand, target, label_zh, label_en }
}

/// Single source of truth for Zed task labels and CLI subcommands.
pub fn task_defs() -> (v: Vec<TaskDef>)
    ensures
        def_views(v@) == task_table(),
{
    let mut v: Vec<TaskDef> = Vec::new();
    v.push(task_def("doctor", TaskInstallTarget::Global, "检查环境", "Doctor"));
    v.push(task_def("ensure", TaskInstallTarget::Global, "初始化项目", "Initialize Project"));
    v.push(task_def("run", TaskInstallTarget::Global, "运行", "Run"));
    v.push(
        task_def(
            "configure --no-run",
            TaskInstallTarget::Global,
            "选择 Scheme 与运行目标",
            "Select Scheme & Destination",
        ),
    );
    v.push(task_def("build", TaskInstallTarget::Global, "编译", "Build"));
    v.push(
        task_def(
            "configure --no-run",
            TaskInstallTarget::Project,
            "仅选择（不运行）",
            "Select Only (no run)",
        ),
    );
    v.push(
        task_def("build --verbose", TaskInstallTarget::Project, "编译（详细日志）", "Build (verbose)"),
    );
    v.push(
        task_def(
            "resolve-packages",
            TaskInstallTarget::Project,
            "解析 Swift Packages",
            "Resolve Swift Packages",
        ),
    );
    assert(def_views(v@) =~= task_table());
    v
}

pub open spec fn label_of(suffix: Seq<char>) -> Seq<char> {
    TASK_LABEL_PREFIX@ + " "@ + suffix
}

/// `iOS-Runner: <suffix>`.
pub fn task_label(suffix: &str) -> (s: String)
    ensures
        s@ == label_of(suffix@),
{
    let mut r = chars_of(TASK_LABEL_PREFIX);
    push_lit(&mut r, " ");
    push_lit(&mut r, suffix);
    string_of(r.as_slice())
}

pub open spec fn def_label(d: TaskDefView, lang: Lang) -> Seq<char> {
    label_of(
        match lang {
            Lang::ZhCn => d.label_zh,
            Lang::En => d.label_en,
        },
    )
}

/// The label of a task in the given language.
pub fn task_label_for_def(def: &TaskDef, lang: Lang) -> (s: String)
    ensures
        s@ == def_label(def@, lang),
{
    let suffix = match lang {
        Lang::ZhCn => def.label_zh,
        Lang::En => def.label_en,
    };
    task_label(suffix)
}

/// The index of the first global task that runs `subcommand`.
pub open spec fn global_def_index(table: Seq<TaskDefView>, subcommand: Seq<char>) -> Option<int> {
    if exists|i: int|
        0 <= i < table.len() && table[i].target == TaskInstallTarget::Global && table[i].subcommand
            == subcommand {
        Some(
            choose|i: int|
                0 <= i < table.len() && table[i].target == TaskInstallTarget::Global
                    && table[i].subcommand == subcommand && forall|j: int|
                    0 <= j < i ==> !(table[j].target == TaskInstallTarget::Global
                        && table[j].subcommand == subcommand),
        )
    } else {
        None
    }
}

/// Label for a global task used in `~/.config/zed/keymap.json` (`task::Spawn`).
pub fn global_keymap_task_label(subcommand: &str, lang: Lang) -> (r: Option<String>)
    ensures
        match global_def_index(task_table(), subcommand@) {
            Some(i) => r matches Some(s) && s@ == def_label(task_table()[i], lang),
            None => r is None,
        },
{
    let defs = task_defs();
    let ghost table = task_table();
    let sub = chars_of(subcommand);
    let mut i: usize = 0;
    while i < defs.len()
        invariant
            def_views(defs@) == table,
            table == task_table(),
            sub@ == subcommand@,
            i <= defs@.len(),
            forall|j: int|
                0 <= j < i ==> !(table[j].target == TaskInstallTarget::Global && table[j].subcommand
                    == subcommand@),
        decreases defs@.len() - i,
    {
        let d = &defs[i];
        assert(table[i as int] == d@);
        if d.target == TaskInstallTarget::Global && crate::text::eq(
            chars_of(d.subcommand).as_slice(),
            sub.as_slice(),
        ) {
            let ghost w = i as int;
            let ghost c = choose|k: int|
                0 <= k < table.len() && table[k].target == TaskInstallTarget::Global
                    && table[k].subcommand == subcommand@ && forall|j: int|
                    0 <= j < k ==> !(table[j].target == TaskInstallTarget::Global
                        && table[j].subcommand == subcommand@);
            assert(0 <= w < table.len() && table[w].target == TaskInstallTarget::Global
                && table[w].subcommand == subcommand@);
            assert(c == w) by {
                if c < w {
                    assert(!(table[c].target == TaskInstallTarget::Global && table[c].subcommand
                        == subcommand@));
                }
                if w < c {
                    assert(!(table[w].target == TaskInstallTarget::Global && table[w].subcommand
                        == subcommand@));
                }
            }
            return Some(task_label_for_def(d, lang));
        }
        i = i + 1;
    }
    None
}

/// `tasks.json` text holds a current iOS-Runner task set: one of the known
/// labels, and none of the legacy download scripts.
pub open spec fn has_current_tasks(text: Seq<char>) -> bool {
    &&& !contains_sub(text, "curl -fsSL"@)
    &&& !contains_sub(text, "$ir_bin"@)
    &&& {
        ||| contains_sub(text, "iOS-Runner: Doctor"@)
        ||| contains_sub(text, "iOS-Runner: 检查环境"@)
        ||| contains_sub(text, "iOS-Runner: Run"@)
        ||| contains_sub(text, "iOS-Runner: 运行"@)
        ||| contains_sub(text, "iOS-Runner: Initialize Project"@)
        ||| contains_sub(text, "iOS-Runner: 初始化项目"@)
        ||| contains_sub(text, "iOS-Runner: Setup Project"@)
    }
}

/// True when `tasks.json` contains a current iOS-Runner task set (any supported label).
pub fn tasks_json_has_ios_runner_tasks(text: &str) -> (b: bool)
    ensures
        b == has_current_tasks(text@),
{
    let v = chars_of(text);
    let t = v.as_slice();
    if contains_lit(t, "curl -fsSL") || contains_lit(t, "$ir_bin") {
        return false;
    }
    contains_lit(t, "iOS-Runner: Doctor") || contains_lit(t, "iOS-Runner: 检查环境")
        || contains_lit(t, "iOS-Runner: Run") || contains_lit(t, "iOS-Runner: 运行")
        || contains_lit(t, "iOS-Runner: Initialize Project") || contains_lit(
        t,
        "iOS-Runner: 初始化项目",
    ) || contains_lit(t, "iOS-Runner: Setup Project")
}

/// Labels that belong in global tasks only appear in a project `tasks.json`.
pub open spec fn has_global_duplicates(text: Seq<char>) -> bool {
    ||| contains_sub(text, "\"label\": \"iOS-Runner: 运行\""@)
    ||| contains_sub(text, "\"label\": \"iOS-Runner: Run\""@)
    ||| contains_sub(text, "\"label\": \"iOS-Runner: 检查环境\""@)
    ||| contains_sub(text, "\"label\": \"iOS-Runner: Doctor\""@)
    ||| contains_sub(text, "\"label\": \"iOS-Runner: 编译\""@)
    ||| contains_sub(text, "\"label\": \"iOS-Runner: Build\""@)
    ||| contains_sub(text, "\"label\": \"iOS-Runner: 初始化项目\""@)
    ||| contains_sub(text, "\"label\": \"iOS-Runner: 选择 Scheme 与设备\""@)
    ||| contains_sub(text, "\"label\": \"iOS-Runner: 选择 Scheme 与运行目标\""@)
    ||| contains_sub(text, "\"label\": \"iOS-Runner: Select Scheme & Destination\""@)
}

/// Labels that belong in global tasks only — if present in `.zed/tasks.json`, refresh project file.
pub fn project_tasks_file_has_global_duplicates(text: &str) -> (b: bool)
    ensures
        b == has_global_duplicates(text@),
{
    let v = chars_of(text);
    let t = v.as_slice();
    contains_lit(t, "\"label\": \"iOS-Runner: 运行\"") || contains_lit(
        t,
        "\"label\": \"iOS-Runner: Run\"",
    ) || contains_lit(t, "\"label\": \"iOS-Runner: 检查环境\"") || contains_lit(
        t,
        "\"label\": \"iOS-Runner: Doctor\"",
    ) || contains_lit(t, "\"label\": \"iOS-Runner: 编译\"") || contains_lit(
        t,
        "\"label\": \"iOS-Runner: Build\"",
    ) || contains_lit(t, "\"label\": \"iOS-Runner: 初始化项目\"") || contains_lit(
        t,
        "\"label\": \"iOS-Runner: 选择 Scheme 与设备\"",
    ) || contains_lit(t, "\"label\": \"iOS-Runner: 选择 Scheme 与运行目标\"") || contains_lit(
        t,
        "\"label\": \"iOS-Runner: Select Scheme & Destination\"",
    )
}

/// Whether `.zed/tasks.json` should be written: only when the user asks for
/// project tasks (`IOS_RUNNER_WRITE_PROJECT_TASKS`), or to rewrite an existing
/// file whose text (when it could be read) duplicates global tasks. By default
/// the project folder is left alone.
pub fn should_refresh_project_tasks(file_exists: bool, forced: bool, text: Option<&str>) -> (b: bool)
    ensures
        b == (forced || (file_exists && (text matches Some(t) && has_global_duplicates(t@)))),
{
    if forced {
        return true;
    }
    if !file_exists {
        return false;
    }
    match text {
        Some(t) => project_tasks_file_has_global_duplicates(t),
        None => false,
    }
}

pub open spec fn task_body_view(subcommand: Seq<char>) -> Seq<char> {
    if subcommand == "ensure"@ {
        CLI_PATH_SHELL@ + " ensure"@
    } else {
        CLI_PATH_SHELL@ + " ensure --quiet && "@ + CLI_PATH_SHELL@ + " "@ + subcommand
    }
}

/// The command a task runs: `ensure` alone, or `ensure --quiet` then the subcommand.
pub fn task_body(subcommand: &str) -> (s: String)
    ensures
        s@ == task_body_view(subcommand@),
{
    let mut r = chars_of(CLI_PATH_SHELL);
    if eq_lit(chars_of(subcommand).as_slice(), "ensure") {
        push_lit(&mut r, " ensure");
    } else {
        push_lit(&mut r, " ensure --quiet && ");
        push_lit(&mut r, CLI_PATH_SHELL);
        push_lit(&mut r, " ");
        push_lit(&mut r, subcommand);
    }
    string_of(r.as_slice())
}

/// A Zed task entry (an object of `tasks.json`).
#[derive(Debug, Clone)]
pub struct ZedTask {
    pub label: String,
    pub command: String,
    pub args: Vec<String>,
    pub allow_concurrent_runs: bool,
    pub reveal: String,
    pub hide: String,
    pub save: String,
    pub use_new_terminal: bool,
    /// `shell.with_arguments.program`
    pub shell_program: String,
    /// `shell.with_arguments.args`
    pub shell_args: Vec<String>,
    pub show_command: bool,
    pub show_summary: bool,
}

/// A task runs `script` with a non-login zsh in the shared terminal, one run
/// at a time, without Zed's command echo and summary.
pub open spec fn runs_script(t: ZedTask, label: Seq<char>, script: Seq<char>) -> bool {
    &&& t.label@ == label
    &&& t.command@ == "/bin/zsh"@
    &&& str_views(t.args@) == seq!["-fc"@, script]
    &&& !t.allow_concurrent_runs
    &&& t.reveal@ == "always"@
    &&& t.hide@ == "never"@
    &&& t.save@ == "all"@
    &&& !t.use_new_terminal
    &&& t.shell_program@ == "/bin/zsh"@
    &&& str_views(t.shell_args@) == seq!["-f"@]
    &&& !t.show_command
    &&& !t.show_summary
}

/// The task that runs `script` under `label`.
pub fn zed_task(label: &str, script: &str) -> (t: ZedTask)
    ensures
        runs_script(t, label@, script@),
{
    let mut args: Vec<String> = Vec::new();
    args.push(owned("-fc"));
    args.push(owned(script));
    let mut shell_args: Vec<String> = Vec::new();
    shell_args.push(owned("-f"));
    let t = ZedTask {
        label: owned(label),
        command: owned("/bin/zsh"),
        args,
        allow_concurrent_runs: false,
        reveal: owned("always"),
        hide: owned("never"),
        save: owned("all"),
        use_new_terminal: false,
        shell_program: owned("/bin/zsh"),
        shell_args,
        show_command: false,
        show_summary: false,
    };
    assert(str_views(t.args@) =~= seq!["-fc"@, script@]);
    assert(str_views(t.shell_args@) =~= seq!["-f"@]);
    t
}

/// The script of a task: the preamble, then `cd` to the worktree and `command`.
pub open spec fn script_view(lang: Lang, command: Seq<char>) -> Seq<char> {
    preamble_view(lang) + "\ncd \"${ZED_WORKTREE_ROOT:.}\" && "@ + command
}

fn task_script(lang: Lang, command: &str) -> (s: String)
    ensures
        s@ == script_view(lang, command@),
{
    let p = zed_task_preamble(lang);
    let mut r = chars_of(p.as_str());
    push_lit(&mut r, "\ncd \"${ZED_WORKTREE_ROOT:.}\" && ");
    push_lit(&mut r, command);
    string_of(r.as_slice())
}

/// The task labelled `label` that runs the CLI `subcommand`.
pub fn shell_task_with_lang(label: &str, subcommand: &str, lang: Lang) -> (t: ZedTask)
    ensures
        runs_script(t, label@, script_view(lang, task_body_view(subcommand@))),
{
    let body = task_body(subcommand);
    let script = task_script(lang, body.as_str());
    zed_task(label, script.as_str())
}

/// Run in Zed's terminal panel (Chinese preamble).
pub fn shell_task(label: &str, subcommand: &str) -> (t: ZedTask)
    ensures
        runs_script(t, label@, script_view(Lang::ZhCn, task_body_view(subcommand@))),
{
    shell_task_with_lang(label, subcommand, Lang::ZhCn)
}

/// The tasks of `target`, in table order.
pub open spec fn target_defs(table: Seq<TaskDefView>, target: TaskInstallTarget) -> Seq<TaskDefView>
    decreases table.len(),
{
    if table.len() == 0 {
        Seq::empty()
    } else if table.last().target == target {
        target_defs(table.drop_last(), target).push(table.last())
    } else {
        target_defs(table.drop_last(), target)
    }
}

/// The tasks of one install target: each table entry of that target, labelled
/// in `lang`, running its subcommand.
pub fn shell_tasks_for_target(target: TaskInstallTarget, lang: Lang) -> (v: Vec<ZedTask>)
    ensures
        v@.len() == target_defs(task_table(), target).len(),
        forall|i: int|
            0 <= i < v@.len() ==> runs_script(
                #[trigger] v@[i],
                def_label(target_defs(task_table(), target)[i], lang),
                script_view(lang, task_body_view(target_defs(task_table(), target)[i].subcommand)),
            ),
{
    let defs = task_defs();
    let ghost table = task_table();
    let mut out: Vec<ZedTask> = Vec::new();
    let mut i: usize = 0;
    assert(table.subrange(0, 0).len() == 0);
    while i < defs.len()
        invariant
            def_views(defs@) == table,
            table == task_table(),
            i <= defs@.len(),
            out@.len() == target_defs(table.subrange(0, i as int), target).len(),
            forall|k: int|
                0 <= k < out@.len() ==> runs_script(
                    #[trigger] out@[k],
                    def_label(target_defs(table.subrange(0, i as int), target)[k], lang),
                    script_view(
                        lang,
                        task_body_view(target_defs(table.subrange(0, i as int), target)[k].subcommand),
                    ),
                ),
        decreases defs@.len() - i,
    {
        let ghost pre = table.subrange(0, i as int);
        let ghost next = table.subrange(0, i + 1);
        assert(next.drop_last() =~= pre);
        assert(next.last() == defs@[i as int]@);
        let d = &defs[i];
        if d.target == target {
            let label = task_label_for_def(d, lang);
            let t = shell_task_with_lang(label.as_str(), d.subcommand, lang);
            out.push(t);
        }
        i = i + 1;
    }
    assert(table.subrange(0, defs@.len() as int) =~= table);
    out
}

/// The project `tasks.json`: the project-only tasks, plus `pod install` for
/// CocoaPods projects.
pub fn project_task_list(lang: Lang, has_podfile: bool) -> (v: Vec<ZedTask>)
    ensures
        v@.len() == target_defs(task_table(), TaskInstallTarget::Project).len() + (if has_podfile {
            1int
        } else {
            0int
        }),
        forall|i: int|
            0 <= i < target_defs(task_table(), TaskInstallTarget::Project).len() ==> runs_script(
                #[trigger] v@[i],
                def_label(target_defs(task_table(), TaskInstallTarget::Project)[i], lang),
                script_view(
                    lang,
                    task_body_view(
                        target_defs(task_table(), TaskInstallTarget::Project)[i].subcommand,
                    ),
                ),
            ),
        has_podfile ==> runs_script(
            v@.last(),
            "iOS-Runner: Pod Install"@,
            script_view(lang, "pod install"@),
        ),
{
    let mut tasks = shell_tasks_for_target(TaskInstallTarget::Project, lang);
    if has_podfile {
        let script = task_script(lang, "pod install");
        tasks.push(zed_task("iOS-Runner: Pod Install", script.as_str()));
    }
    tasks
}

/// Every task label the library writes begins with `iOS-Runner:`, the
/// prefix by which the uninstall and the duplicate checks know our tasks.
pub proof fn law_task_labels_carry_prefix(d: TaskDefView, lang: Lang)
    ensures
        crate::text::has_prefix(def_label(d, lang), TASK_LABEL_PREFIX@),
{
    let l = def_label(d, lang);
    assert(l.subrange(0, TASK_LABEL_PREFIX@.len() as int) =~= TASK_LABEL_PREFIX@);
}

/// The project's own tasks never repeat a global task: in either language,
/// no project task carries the label of a global one.
pub proof fn law_project_tasks_not_global(lang: Lang, i: int, j: int)
    requires
        0 <= i < target_defs(task_table(), TaskInstallTarget::Project).len(),
        0 <= j < target_defs(task_table(), TaskInstallTarget::Global).len(),
    ensures
        def_label(target_defs(task_table(), TaskInstallTarget::Project)[i], lang) != def_label(
            target_defs(task_table(), TaskInstallTarget::Global)[j],
            lang,
        ),
{
    let t = task_table();
    reveal_with_fuel(target_defs, 9);
    let p = target_defs(t, TaskInstallTarget::Project);
    let g = target_defs(t, TaskInstallTarget::Global);
    assert(p =~= seq![t[5], t[6], t[7]]);
    assert(g =~= seq![t[0], t[1], t[2], t[3], t[4]]);
    reveal_strlit("检查环境");
    reveal_strlit("初始化项目");
    reveal_strlit("运行");
    reveal_strlit("选择 Scheme 与运行目标");
    reveal_strlit("编译");
    reveal_strlit("仅选择（不运行）");
    reveal_strlit("编译（详细日志）");
    reveal_strlit("解析 Swift Packages");
    reveal_strlit("Doctor");
    reveal_strlit("Initialize Project");
    reveal_strlit("Run");
    reveal_strlit("Select Scheme & Destination");
    reveal_strlit("Build");
    reveal_strlit("Select Only (no run)");
    reveal_strlit("Build (verbose)");
    reveal_strlit("Resolve Swift Packages");
    let a = def_label(p[i], lang);
    let b = def_label(g[j], lang);
    assert(a.len() != b.len());
}

} // verus!
