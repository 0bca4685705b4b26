//! The iOS-Runner tasks of Zed's global `tasks.json`: which entries are ours
//! (current or left by older versions) and which are written.
use vstd::prelude::*;

use crate::locale::Lang;
use crate::tasks::{
    def_label, runs_script, script_view, shell_tasks_for_target, target_defs, task_body_view,
    task_table, TaskDefView, TaskInstallTarget, ZedTask,
};
use crate::text::{chars_of, contains_lit, contains_sub, has_prefix, opt_view, starts_with_lit};

verus! {

/// A task script of an older version, which downloaded the CLI itself.
pub open spec fn legacy_script(s: Seq<char>) -> bool {
    ||| contains_sub(s, "正在下载命令行工具"@)
    ||| contains_sub(s, "Downloading CLI"@)
    ||| contains_sub(s, "curl -fsSL"@)
    ||| contains_sub(s, "$ir_bin"@)
    ||| contains_sub(s, "$IOS_RUNNER"@)
    ||| contains_sub(s, "if [ ! -x"@)
    ||| contains_sub(s, "${HOME}/.ios-runner"@)
    ||| contains_sub(s, "~/.ios-runner/bin/ios-runner"@)
}

/// Detect legacy task scripts that curl-download the CLI (superseded by the
/// extension bundle install); `script` is the task's second argument when it
/// is a string.
pub fn task_uses_legacy_download(script: Option<&str>) -> (b: bool)
    ensures
        b == legacy_script(
            match script {
                Some(s) => s@,
                None => Seq::empty(),
            },
        ),
{
    let v = match script {
        Some(s) => chars_of(s),
        None => Vec::new(),
    };
    let s = v.as_slice();
    contains_lit(s, "正在下载命令行工具") || contains_lit(s, "Downloading CLI") || contains_lit(
        s,
        "curl -fsSL",
    ) || contains_lit(s, "$ir_bin") || contains_lit(s, "$IOS_RUNNER") || contains_lit(
        s,
        "if [ ! -x",
    ) || contains_lit(s, "${HOME}/.ios-runner") || contains_lit(s, "~/.ios-runner/bin/ios-runner")
}

/// What the install and uninstall read of an entry of the global
/// `tasks.json`: its `label`, and its script (second argument), when they are
/// strings.
#[derive(Debug, Clone)]
pub struct TaskEntry {
    pub label: Option<String>,
    pub script: Option<String>,
}

pub struct TaskEntryView {
    pub label: Option<Seq<char>>,
    pub script: Option<Seq<char>>,
}

impl View for TaskEntry {
    type V = TaskEntryView;

    open spec fn view(&self) -> TaskEntryView {
        TaskEntryView { label: opt_view(self.label), script: opt_view(self.script) }
    }
}

pub open spec fn entry_views(v: Seq<TaskEntry>) -> Seq<TaskEntryView> {
    v.map_values(|e: TaskEntry| e@)
}

pub open spec fn str_opt(o: Option<&str>) -> Option<Seq<char>> {
    match o {
        Some(s) => Some(s@),
        None => None,
    }
}

/// A global task is ours: its label starts with `iOS-Runner:` or its script
/// is a legacy download script.
pub open spec fn is_ours(e: TaskEntryView) -> bool {
    ||| (e.label matches Some(l) && has_prefix(l, "iOS-Runner:"@))
    ||| legacy_script(
        match e.script {
            Some(s) => s,
            None => Seq::empty(),
        },
    )
}

/// A global task is ours: its label starts with `iOS-Runner:` or its script
/// is a legacy download script.
pub fn should_remove_task(label: Option<&str>, script: Option<&str>) -> (b: bool)
    ensures
        b == is_ours(TaskEntryView { label: str_opt(label), script: str_opt(script) }),
{
    let ours = match label {
        Some(l) => starts_with_lit(chars_of(l).as_slice(), "iOS-Runner:"),
        None => false,
    };
    ours || task_uses_legacy_download(script)
}

/// The positions of the entries that are not ours, in order.
pub open spec fn kept(s: Seq<TaskEntryView>) -> Seq<int>
    decreases s.len(),
{
    if s.len() == 0 {
        Seq::empty()
    } else if is_ours(s.last()) {
        kept(s.drop_last())
    } else {
        kept(s.drop_last()).push(s.len() - 1)
    }
}

/// The entries that are not ours, in order.
pub open spec fn without_ours(s: Seq<TaskEntryView>) -> Seq<TaskEntryView>
    decreases s.len(),
{
    if s.len() == 0 {
        Seq::empty()
    } else if is_ours(s.last()) {
        without_ours(s.drop_last())
    } else {
        without_ours(s.drop_last()).push(s.last())
    }
}

pub open spec fn pick_entries(s: Seq<TaskEntryView>, idx: Seq<int>) -> Seq<TaskEntryView> {
    idx.map_values(|i: int| s[i])
}

proof fn lemma_kept_picks(s: Seq<TaskEntryView>)
    ensures
        forall|k: int| 0 <= k < kept(s).len() ==> 0 <= #[trigger] kept(s)[k] < s.len(),
        pick_entries(s, kept(s)) == without_ours(s),
    decreases s.len(),
{
    if s.len() > 0 {
        let t = s.drop_last();
        lemma_kept_picks(t);
        assert(forall|k: int| 0 <= k < t.len() ==> t[k] == s[k]);
        if is_ours(s.last()) {
            assert(pick_entries(s, kept(t)) =~= pick_entries(t, kept(t)));
        } else {
            assert(pick_entries(s, kept(t).push(s.len() - 1)) =~= pick_entries(t, kept(t)).push(
                s.last(),
            ));
        }
    }
}

/// The positions of the entries of the global `tasks.json` that are not
/// ours: what the uninstall keeps and the install keeps before adding ours.
pub fn kept_task_indices(entries: &Vec<TaskEntry>) -> (r: Vec<usize>)
    ensures
        r@.map_values(|i: usize| i as int) == kept(entry_views(entries@)),
        forall|k: int| 0 <= k < r@.len() ==> r@[k] < entries@.len(),
{
    let ghost s = entry_views(entries@);
    let mut r: Vec<usize> = Vec::new();
    let mut i: usize = 0;
    while i < entries.len()
        invariant
            s == entry_views(entries@),
            i <= entries@.len(),
            r@.map_values(|j: usize| j as int) == kept(s.subrange(0, i as int)),
            forall|k: int| 0 <= k < r@.len() ==> r@[k] < i,
        decreases entries@.len() - i,
    {
        let ghost pre = s.subrange(0, i as int);
        let ghost next = s.subrange(0, i + 1);
        assert(next.drop_last() =~= pre);
        assert(next.last() == entries@[i as int]@);
        let e = &entries[i];
        let label = match &e.label {
            Some(l) => Some(l.as_str()),
            None => None,
        };
        let script = match &e.script {
            Some(x) => Some(x.as_str()),
            None => None,
        };
        if !should_remove_task(label, script) {
            let ghost before = r@;
            r.push(i);
            assert(r@.map_values(|j: usize| j as int) =~= before.map_values(|j: usize| j as int).push(
                i as int,
            ));
        }
        i = i + 1;
    }
    assert(s.subrange(0, entries@.len() as int) =~= s);
    r
}

/// The global tasks: the Global rows of the task table, in table order.
pub open spec fn global_defs() -> Seq<TaskDefView> {
    target_defs(task_table(), TaskInstallTarget::Global)
}

/// Default Zed tasks (work in any iOS project via `$ZED_WORKTREE_ROOT`): Doctor,
/// Initialize Project, Run, Select Scheme & Destination (save only) and Build,
/// labelled in `lang`.
pub fn default_task_list(lang: Lang) -> (v: Vec<ZedTask>)
    ensures
        v@.len() == global_defs().len(),
        forall|i: int|
            0 <= i < v@.len() ==> runs_script(
                #[trigger] v@[i],
                def_label(global_defs()[i], lang),
                script_view(lang, task_body_view(global_defs()[i].subcommand)),
            ),
{
    shell_tasks_for_target(TaskInstallTarget::Global, lang)
}

/// What the uninstall does with the global `tasks.json`.
#[derive(Debug, Clone, Copy, PartialEq, Eq, Structural)]
pub enum TasksFileChange {
    /// Nothing of ours was there.
    Unchanged,
    /// Only ours were there: the file goes.
    Remove,
    /// Write back the tasks that are left.
    Rewrite,
}

/// The change after dropping our tasks: `before` tasks, `after` left.
pub fn tasks_file_change(before: usize, after: usize) -> (c: TasksFileChange)
    ensures
        c == (if after == before {
            TasksFileChange::Unchanged
        } else if after == 0 {
            TasksFileChange::Remove
        } else {
            TasksFileChange::Rewrite
        }),
{
    if after == before {
        TasksFileChange::Unchanged
    } else if after == 0 {
        TasksFileChange::Remove
    } else {
        TasksFileChange::Rewrite
    }
}

/// A project's `.zed/tasks.json` that still holds a download script of an
/// older version (the install warns about it).
pub fn project_tasks_use_legacy_scripts(text: &str) -> (b: bool)
    ensures
        b == (contains_sub(text@, "正在下载命令行工具"@) || contains_sub(text@, "curl -fsSL"@)
            || contains_sub(text@, "$ir_bin"@) || contains_sub(text@, "$IOS_RUNNER"@)),
{
    let v = chars_of(text);
    let s = v.as_slice();
    contains_lit(s, "正在下载命令行工具") || contains_lit(s, "curl -fsSL") || contains_lit(s, "$ir_bin")
        || contains_lit(s, "$IOS_RUNNER")
}

/// The entries that the install writes, as the install and uninstall read them.
pub open spec fn default_entries(lang: Lang) -> Seq<TaskEntryView> {
    global_defs().map_values(
        |d: TaskDefView|
            TaskEntryView {
                label: Some(def_label(d, lang)),
                script: Some(script_view(lang, task_body_view(d.subcommand))),
            },
    )
}

/// The global tasks after the install: the entries that were not ours, then ours.
pub open spec fn after_install(s: Seq<TaskEntryView>, lang: Lang) -> Seq<TaskEntryView> {
    without_ours(s) + default_entries(lang)
}

proof fn lemma_default_labels_ours(i: int, lang: Lang)
    requires
        0 <= i < global_defs().len(),
    ensures
        has_prefix(def_label(global_defs()[i], lang), "iOS-Runner:"@),
{
    crate::tasks::law_task_labels_carry_prefix(global_defs()[i], lang);
    assert(crate::tasks::TASK_LABEL_PREFIX@ == "iOS-Runner:"@);
}

proof fn lemma_without_ours_all_ours(s: Seq<TaskEntryView>)
    requires
        forall|i: int| 0 <= i < s.len() ==> is_ours(#[trigger] s[i]),
    ensures
        without_ours(s) == Seq::<TaskEntryView>::empty(),
    decreases s.len(),
{
    if s.len() > 0 {
        let t = s.drop_last();
        assert(forall|i: int| 0 <= i < t.len() ==> t[i] == s[i]);
        assert(is_ours(s[s.len() - 1]));
        lemma_without_ours_all_ours(t);
    }
}

proof fn lemma_defaults_ours(lang: Lang)
    ensures
        without_ours(default_entries(lang)) == Seq::<TaskEntryView>::empty(),
{
    let d = default_entries(lang);
    assert forall|i: int| 0 <= i < d.len() implies is_ours(#[trigger] d[i]) by {
        lemma_default_labels_ours(i, lang);
    }
    lemma_without_ours_all_ours(d);
}

proof fn lemma_without_ours_concat(a: Seq<TaskEntryView>, b: Seq<TaskEntryView>)
    ensures
        without_ours(a + b) == without_ours(a) + without_ours(b),
    decreases b.len(),
{
    if b.len() == 0 {
        assert(a + b =~= a);
        assert(without_ours(a) + without_ours(b) =~= without_ours(a));
    } else {
        lemma_without_ours_concat(a, b.drop_last());
        assert((a + b).drop_last() =~= a + b.drop_last());
        assert((a + b).last() == b.last());
        if !is_ours(b.last()) {
            assert(without_ours(a) + without_ours(b.drop_last()).push(b.last()) =~= (without_ours(a)
                + without_ours(b.drop_last())).push(b.last()));
        }
    }
}

proof fn lemma_without_ours_twice(s: Seq<TaskEntryView>)
    ensures
        without_ours(without_ours(s)) == without_ours(s),
    decreases s.len(),
{
    if s.len() > 0 {
        lemma_without_ours_twice(s.drop_last());
        if !is_ours(s.last()) {
            let w = without_ours(s.drop_last()).push(s.last());
            assert(w.drop_last() =~= without_ours(s.drop_last()));
        }
    }
}

/// Uninstalling after an install takes away exactly what the install wrote:
/// the tasks left are those that were not ours before it.
pub proof fn law_uninstall_undoes_install(s: Seq<TaskEntryView>, lang: Lang)
    ensures
        without_ours(after_install(s, lang)) == without_ours(s),
{
    lemma_without_ours_concat(without_ours(s), default_entries(lang));
    lemma_defaults_ours(lang);
    lemma_without_ours_twice(s);
    assert(without_ours(s) + Seq::<TaskEntryView>::empty() =~= without_ours(s));
}

/// Installing again writes what the first install wrote: the install
/// replaces earlier iOS-Runner tasks instead of adding copies.
pub proof fn law_install_is_idempotent(s: Seq<TaskEntryView>, lang: Lang)
    ensures
        after_install(after_install(s, lang), lang) == after_install(s, lang),
{
    law_uninstall_undoes_install(s, lang);
}

/// The entries of a global `tasks.json` text, as `serde_json` reads its array
/// of task objects; `None` when the text is not such an array.
pub uninterp spec fn task_entries_of(text: Seq<char>) -> Option<Seq<TaskEntryView>>;

/// `serde_json::from_str::<Vec<serde_json::Value>>`, each task object taken as
/// its `label` and its second `args` element when they are strings: the result
/// is `task_entries_of` the text. The JSON grammar behind it is not stated.
#[verifier::external_body]
fn parse_task_entries(text: &str) -> (r: Option<Vec<TaskEntry>>)
    ensures
        match r {
            Some(v) => task_entries_of(text@) == Some(entry_views(v@)),
            None => task_entries_of(text@) is None,
        },
{
    let tasks: Vec<serde_json::Value> = serde_json::from_str(text).ok()?;
    Some(tasks.iter().map(|t| TaskEntry {
        label: t.get("label").and_then(|l| l.as_str()).map(str::to_string),
        script: t.get("args").and_then(|a| a.get(1)).and_then(|v| v.as_str()).map(str::to_string),
    }).collect())
}

/// The entries of the global `tasks.json`: none when it is missing or cannot
/// be read as an array of tasks.
pub open spec fn entries_in(text: Option<Seq<char>>) -> Seq<TaskEntryView> {
    match text {
        Some(t) => match task_entries_of(t) {
            Some(v) => v,
            None => Seq::empty(),
        },
        None => Seq::empty(),
    }
}

/// The entries of a global `tasks.json` text (none when it is not an array of tasks).
pub fn task_entries_from_text(text: Option<&str>) -> (v: Vec<TaskEntry>)
    ensures
        entry_views(v@) == entries_in(str_opt(text)),
{
    match text {
        Some(t) => match parse_task_entries(t) {
            Some(v) => v,
            None => Vec::new(),
        },
        None => Vec::new(),
    }
}

/// One task of the `tasks.json` that the install writes: an entry that was
/// there (by its position), or one of ours.
pub enum InstallItem {
    Keep(usize),
    Write(ZedTask),
}

/// What an item of the install holds, as the install and uninstall read it.
pub open spec fn item_view(entries: Seq<TaskEntryView>, it: InstallItem) -> TaskEntryView {
    match it {
        InstallItem::Keep(i) => entries[i as int],
        InstallItem::Write(t) => TaskEntryView { label: Some(t.label@), script: Some(t.args@[1]@) },
    }
}

pub open spec fn plan_view(entries: Seq<TaskEntryView>, p: Seq<InstallItem>) -> Seq<TaskEntryView> {
    p.map_values(|it: InstallItem| item_view(entries, it))
}

/// The tasks the install writes over `entries`: those that are not ours, in
/// order and unchanged, then ours in `lang` — `after_install` of the entries.
pub fn installed_task_plan(entries: &Vec<TaskEntry>, lang: Lang) -> (p: Vec<InstallItem>)
    ensures
        plan_view(entry_views(entries@), p@) == after_install(entry_views(entries@), lang),
        forall|k: int| 0 <= k < p@.len() ==> (#[trigger] p@[k] matches InstallItem::Keep(i) ==> i
            < entries@.len()),
{
    let ghost s = entry_views(entries@);
    let keep = kept_task_indices(entries);
    proof {
        lemma_kept_picks(s);
    }
    let mut p: Vec<InstallItem> = Vec::new();
    let mut k: usize = 0;
    while k < keep.len()
        invariant
            s == entry_views(entries@),
            keep@.map_values(|i: usize| i as int) == kept(s),
            forall|j: int| 0 <= j < keep@.len() ==> keep@[j] < entries@.len(),
            pick_entries(s, kept(s)) == without_ours(s),
            k <= keep@.len(),
            p@.len() == k,
            forall|j: int| 0 <= j < k ==> (#[trigger] p@[j]) == InstallItem::Keep(keep@[j]),
        decreases keep@.len() - k,
    {
        p.push(InstallItem::Keep(keep[k]));
        k = k + 1;
    }
    assert(plan_view(s, p@) =~= without_ours(s)) by {
        assert(kept(s).len() == keep@.len());
        assert forall|j: int| 0 <= j < p@.len() implies plan_view(s, p@)[j] == without_ours(s)[j] by {
            assert(kept(s)[j] == keep@[j] as int);
            assert(pick_entries(s, kept(s))[j] == s[kept(s)[j]]);
        }
    }
    let ghost before = p@;
    let mut tasks = default_task_list(lang);
    let ghost all = tasks@;
    let n = tasks.len();
    let mut w: usize = 0;
    while w < n
        invariant
            s == entry_views(entries@),
            n == all.len(),
            all.len() == global_defs().len(),
            forall|i: int|
                0 <= i < all.len() ==> runs_script(
                    #[trigger] all[i],
                    def_label(global_defs()[i], lang),
                    script_view(lang, task_body_view(global_defs()[i].subcommand)),
                ),
            w <= n,
            tasks@ == all.subrange(w as int, n as int),
            p@.len() == before.len() + w,
            p@.subrange(0, before.len() as int) == before,
            forall|j: int| 0 <= j < before.len() ==> (#[trigger] before[j] matches InstallItem::Keep(i) ==> i
                < entries@.len()),
            forall|j: int| 0 <= j < w ==> (#[trigger] p@[before.len() + j]) == InstallItem::Write(all[j]),
        decreases n - w,
    {
        let t = tasks.remove(0);
        assert(t == all[w as int]);
        p.push(InstallItem::Write(t));
        assert(p@.subrange(0, before.len() as int) =~= before);
        w = w + 1;
        assert(tasks@ =~= all.subrange(w as int, n as int));
    }
    assert(plan_view(s, p@) =~= without_ours(s) + default_entries(lang)) by {
        assert forall|j: int| 0 <= j < p@.len() implies plan_view(s, p@)[j] == (without_ours(s)
            + default_entries(lang))[j] by {
            if j < before.len() {
                assert(p@[j] == before[j]);
                assert(plan_view(s, before)[j] == without_ours(s)[j]);
            } else {
                let i = j - before.len();
                assert(p@[before.len() + i] == InstallItem::Write(all[i]));
                assert(runs_script(all[i], def_label(global_defs()[i], lang), script_view(lang, task_body_view(global_defs()[i].subcommand))));
                assert(crate::text::str_views(all[i].args@) == seq!["-fc"@, script_view(lang, task_body_view(global_defs()[i].subcommand))]);
                assert(crate::text::str_views(all[i].args@)[1] == all[i].args@[1]@);
            }
        }
    }
    assert forall|k: int| 0 <= k < p@.len() implies (#[trigger] p@[k] matches InstallItem::Keep(i)
        ==> i < entries@.len()) by {
        if k < before.len() {
            assert(p@[k] == before[k]);
        } else {
            assert(p@[before.len() + (k - before.len())] == InstallItem::Write(all[k - before.len()]));
        }
    }
    p
}

/// The install over the text of the global `tasks.json` (`None` when there is
/// no such file): the plan of `installed_task_plan` over its entries.
pub fn global_tasks_install_plan(text: Option<&str>, lang: Lang) -> (r: (Vec<TaskEntry>, Vec<InstallItem>))
    ensures
        entry_views(r.0@) == entries_in(str_opt(text)),
        plan_view(entries_in(str_opt(text)), r.1@) == after_install(entries_in(str_opt(text)), lang),
        forall|k: int| 0 <= k < r.1@.len() ==> (#[trigger] r.1@[k] matches InstallItem::Keep(i) ==> i
            < r.0@.len()),
{
    let entries = task_entries_from_text(text);
    let plan = installed_task_plan(&entries, lang);
    (entries, plan)
}

} // verus!
