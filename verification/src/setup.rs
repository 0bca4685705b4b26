//! The choices made while setting up a project: the menus' defaults, the
//! config that the pickers produce, switching destination, and repairing a
//! saved destination.
use vstd::prelude::*;

use crate::config::{ProjectKind, RunnerConfig, RunnerConfigView};
use crate::destination::{
    dest_views, destination_problem, first_where, kind_pred, lemma_first_where_bounds,
    position_where, validate_xcodebuild_destination, DestinationKind, DestinationView, Query,
    RunDestination,
};
use crate::detect::DetectedProject;
use crate::global_store::{GlobalDefaults, GlobalDefaultsView};
use crate::paths::relative_to;
use crate::text::{chars_of, contains_lit, contains_sub, eq, has_prefix, owned, starts_with_lit, str_views, string_of};

verus! {

/// The schemes offered by `configure`: those not starting with `Pods-`, or
/// all of them when every one does.
pub open spec fn configure_schemes(schemes: Seq<Seq<char>>) -> Seq<Seq<char>> {
    let kept = schemes.filter(|s: Seq<char>| !has_prefix(s, "Pods-"@));
    if kept.len() == 0 {
        schemes
    } else {
        kept
    }
}

pub fn configure_scheme_labels(schemes: &Vec<String>) -> (r: Vec<String>)
    ensures
        str_views(r@) == configure_schemes(str_views(schemes@)),
{
    let ghost sv = str_views(schemes@);
    let mut kept: Vec<String> = Vec::new();
    let mut i: usize = 0;
    proof {
        reveal(Seq::filter);
    }
    assert(sv.subrange(0, 0).filter(|s: Seq<char>| !has_prefix(s, "Pods-"@)) =~= Seq::<
        Seq<char>,
    >::empty());
    while i < schemes.len()
        invariant
            sv == str_views(schemes@),
            i <= schemes@.len(),
            str_views(kept@) == sv.subrange(0, i as int).filter(
                |s: Seq<char>| !has_prefix(s, "Pods-"@),
            ),
        decreases schemes@.len() - i,
    {
        let ghost next = sv.subrange(0, i + 1);
        assert(next.drop_last() =~= sv.subrange(0, i as int));
        assert(next.last() == schemes@[i as int]@);
        proof {
            reveal(Seq::filter);
        }
        if !starts_with_lit(chars_of(schemes[i].as_str()).as_slice(), "Pods-") {
            let ghost before = str_views(kept@);
            kept.push(owned(schemes[i].as_str()));
            assert(str_views(kept@) =~= before.push(sv[i as int]));
        }
        i = i + 1;
    }
    assert(sv.subrange(0, sv.len() as int) =~= sv);
    if kept.len() == 0 {
        let mut all: Vec<String> = Vec::new();
        let mut k: usize = 0;
        while k < schemes.len()
            invariant
                sv == str_views(schemes@),
                k <= schemes@.len(),
                str_views(all@) == sv.subrange(0, k as int),
            decreases schemes@.len() - k,
        {
            let ghost before = str_views(all@);
            all.push(owned(schemes[k].as_str()));
            assert(str_views(all@) =~= before.push(sv[k as int]));
            assert(sv.subrange(0, k + 1) =~= sv.subrange(0, k as int).push(sv[k as int]));
            k = k + 1;
        }
        all
    } else {
        kept
    }
}

/// The first index whose text is `x`.
pub open spec fn index_of(s: Seq<Seq<char>>, x: Seq<char>) -> Option<int> {
    if s.contains(x) {
        Some(choose|i: int| 0 <= i < s.len() && s[i] == x && forall|j: int| 0 <= j < i ==> s[j] != x)
    } else {
        None
    }
}

fn position_of(v: &Vec<String>, x: &str) -> (r: Option<usize>)
    ensures
        match r {
            Some(i) => i < v@.len() && index_of(str_views(v@), x@) == Some(i as int),
            None => index_of(str_views(v@), x@) is None,
        },
{
    let ghost s = str_views(v@);
    let xv = chars_of(x);
    let mut i: usize = 0;
    while i < v.len()
        invariant
            s == str_views(v@),
            xv@ == x@,
            i <= v@.len(),
            forall|j: int| 0 <= j < i ==> s[j] != x@,
        decreases v@.len() - i,
    {
        assert(s[i as int] == v@[i as int]@);
        if eq(chars_of(v[i].as_str()).as_slice(), xv.as_slice()) {
            let ghost c = choose|k: int|
                0 <= k < s.len() && s[k] == x@ && forall|j: int| 0 <= j < k ==> s[j] != x@;
            assert(s.contains(x@));
            assert(c == i) by {
                if c < i {
                    assert(s[c] != x@);
                }
                if i < c {
                    assert(s[i as int] != x@);
                }
            }
            return Some(i);
        }
        i = i + 1;
    }
    None
}

/// The scheme highlighted in the first-time menu: the default scheme, else
/// the first option, else the empty name; its index among the options, or 0.
pub open spec fn default_scheme_choice(options: Seq<Seq<char>>, picked: Option<Seq<char>>) -> nat {
    let want = match picked {
        Some(p) => p,
        None => if options.len() > 0 {
            options[0]
        } else {
            Seq::empty()
        },
    };
    match index_of(options, want) {
        Some(i) => i as nat,
        None => 0,
    }
}

pub fn default_scheme_index(options: &Vec<String>, picked: Option<&str>) -> (i: usize)
    ensures
        i == default_scheme_choice(str_views(options@), crate::bootstrap::opt_text(picked)),
{
    let want = match picked {
        Some(p) => owned(p),
        None => if options.len() > 0 {
            assert(str_views(options@)[0] == options@[0]@);
            owned(options[0].as_str())
        } else {
            owned("")
        },
    };
    match position_of(options, want.as_str()) {
        Some(i) => i,
        None => 0,
    }
}

/// The destination highlighted in the first-time menu: the first device, else the first.
pub fn default_destination_choice(destinations: &Vec<RunDestination>) -> (i: usize)
    ensures
        i == match first_where(dest_views(destinations@), kind_pred(DestinationKind::Device)) {
            Some(k) => k,
            None => 0,
        },
{
    match position_where(destinations, &Query::Kind(DestinationKind::Device)) {
        Some(i) => i,
        None => 0,
    }
}

/// The config chosen in the first-time menus: the picked scheme and
/// destination, the global defaults' switches, the simulator brought to the
/// front only for a simulator, `IOS_RUNNER_LANG` or the default language.
pub open spec fn interactive_config_view(
    kind: ProjectKind,
    rel_path: Seq<char>,
    scheme: Seq<char>,
    picked: DestinationView,
    derived: Seq<char>,
    defaults: GlobalDefaultsView,
    env_lang: Option<Seq<char>>,
) -> RunnerConfigView {
    RunnerConfigView {
        kind,
        path: rel_path,
        scheme,
        configuration: "Debug"@,
        destination: picked.destination,
        derived_data: derived,
        xcbeautify: defaults.xcbeautify,
        resolve_packages_before_build: defaults.resolve_packages_before_build,
        bring_simulator_to_foreground: picked.kind == DestinationKind::Simulator,
        development_team: None,
        language: match env_lang {
            Some(l) => l,
            None => defaults.language,
        },
    }
}

pub fn interactive_config(
    project: &DetectedProject,
    root: &str,
    scheme: &str,
    picked: &RunDestination,
    derived: &str,
    defaults: &GlobalDefaults,
    env_lang: Option<&str>,
) -> (c: RunnerConfig)
    ensures
        c@ == interactive_config_view(
            project.kind,
            relative_to(project.path@, root@),
            scheme@,
            picked@,
            derived@,
            defaults@,
            crate::bootstrap::opt_text(env_lang),
        ),
{
    RunnerConfig {
        kind: project.kind,
        path: crate::paths::relative_path(project.path.as_str(), root),
        scheme: owned(scheme),
        configuration: crate::config::default_configuration(),
        destination: owned(picked.destination.as_str()),
        derived_data: owned(derived),
        xcbeautify: defaults.xcbeautify,
        resolve_packages_before_build: defaults.resolve_packages_before_build,
        bring_simulator_to_foreground: picked.kind == DestinationKind::Simulator,
        development_team: None,
        language: match env_lang {
            Some(l) => owned(l),
            None => owned(defaults.language.as_str()),
        },
    }
}

/// The config saved by `configure`: the picked scheme and destination, the
/// project-local derived data folder, `xcbeautify` and package resolution on,
/// the simulator brought to the front only for a simulator, the team of the
/// config saved before, and the default language.
pub open spec fn configured_view(
    kind: ProjectKind,
    rel_path: Seq<char>,
    scheme: Seq<char>,
    picked: DestinationView,
    team: Option<Seq<char>>,
) -> RunnerConfigView {
    RunnerConfigView {
        kind,
        path: rel_path,
        scheme,
        configuration: "Debug"@,
        destination: picked.destination,
        derived_data: ".ios-runner/DerivedData"@,
        xcbeautify: true,
        resolve_packages_before_build: true,
        bring_simulator_to_foreground: picked.kind == DestinationKind::Simulator,
        development_team: team,
        language: "zh-CN"@,
    }
}

pub fn configured_config(
    project: &DetectedProject,
    root: &str,
    scheme: &str,
    picked: &RunDestination,
    previous_team: Option<&str>,
) -> (c: RunnerConfig)
    ensures
        c@ == configured_view(
            project.kind,
            relative_to(project.path@, root@),
            scheme@,
            picked@,
            crate::bootstrap::opt_text(previous_team),
        ),
{
    RunnerConfig {
        kind: project.kind,
        path: crate::paths::relative_path(project.path.as_str(), root),
        scheme: owned(scheme),
        configuration: crate::config::default_configuration(),
        destination: owned(picked.destination.as_str()),
        derived_data: crate::config::default_derived_data(),
        xcbeautify: true,
        resolve_packages_before_build: true,
        bring_simulator_to_foreground: picked.kind == DestinationKind::Simulator,
        development_team: match previous_team {
            Some(t) => Some(owned(t)),
            None => None,
        },
        language: crate::config::default_language(),
    }
}

/// `configure --run` runs, `--no-run` does not, neither asks.
pub fn run_after(run: bool, no_run: bool) -> (r: Option<bool>)
    ensures
        r == (if run {
            Some(true)
        } else if no_run {
            Some(false)
        } else {
            None
        }),
{
    if run {
        Some(true)
    } else if no_run {
        Some(false)
    } else {
        None
    }
}

/// The lines printed after `configure` saved a config.
pub open spec fn configure_success(c: RunnerConfigView) -> Seq<Seq<char>> {
    seq![
        "✓ 配置已保存（下次直接 Run 即可，无需重选）"@,
        "  Scheme ："@ + c.scheme,
        "  目标   ："@ + crate::config::device_summary_view(c.destination, crate::locale::Lang::ZhCn),
        "  工程   ："@ + c.path,
        if contains_sub(c.destination, "Simulator"@) {
            "提示：模拟器无需签名"@
        } else {
            "提示：真机需在 Xcode → Signing 中选择 Team"@
        },
    ]
}

pub fn print_configure_success(config: &RunnerConfig) -> (lines: Vec<String>)
    ensures
        str_views(lines@) == configure_success(config@),
{
    let mut lines: Vec<String> = Vec::new();
    lines.push(owned("✓ 配置已保存（下次直接 Run 即可，无需重选）"));
    let mut a = chars_of("  Scheme ：");
    crate::text::push_lit(&mut a, config.scheme.as_str());
    lines.push(string_of(a.as_slice()));
    let mut b = chars_of("  目标   ：");
    let summary = config.device_summary(crate::locale::Lang::ZhCn);
    crate::text::push_lit(&mut b, summary.as_str());
    lines.push(string_of(b.as_slice()));
    let mut c = chars_of("  工程   ：");
    crate::text::push_lit(&mut c, config.path.as_str());
    lines.push(string_of(c.as_slice()));
    if contains_lit(chars_of(config.destination.as_str()).as_slice(), "Simulator") {
        lines.push(owned("提示：模拟器无需签名"));
    } else {
        lines.push(owned("提示：真机需在 Xcode → Signing 中选择 Team"));
    }
    assert(str_views(lines@) =~= configure_success(config@));
    lines
}

/// The destination highlighted when switching: the saved one, else the first.
pub fn current_destination_index(destinations: &Vec<RunDestination>, config: &RunnerConfig) -> (i:
    usize)
    ensures
        i == match first_where(
            dest_views(destinations@),
            crate::destination::destination_pred(config.destination@),
        ) {
            Some(k) => k,
            None => 0,
        },
{
    match position_where(destinations, &Query::Destination(chars_of(config.destination.as_str()))) {
        Some(i) => i,
        None => 0,
    }
}

/// Switching to a picked destination: it is saved, and the simulator is
/// brought to the front only for a simulator; nothing else changes.
pub fn apply_destination(config: &mut RunnerConfig, picked: &RunDestination)
    ensures
        final(config)@ == (RunnerConfigView {
            destination: picked.destination@,
            bring_simulator_to_foreground: picked.kind == DestinationKind::Simulator,
            ..old(config)@
        }),
{
    config.destination = owned(picked.destination.as_str());
    config.bring_simulator_to_foreground = picked.kind == DestinationKind::Simulator;
}

/// A saved destination that fails validation is replaced by `fallback` when
/// there is one (the default simulator); says whether it was replaced.
pub fn repair_saved_destination(config: &mut RunnerConfig, fallback: Option<String>) -> (repaired:
    bool)
    ensures
        repaired == (destination_problem(old(config).destination@) is Some && fallback is Some),
        repaired ==> final(config)@ == (RunnerConfigView {
            destination: fallback.unwrap()@,
            ..old(config)@
        }),
        !repaired ==> final(config)@ == old(config)@,
{
    if validate_xcodebuild_destination(config.destination.as_str()).is_err() {
        match fallback {
            Some(d) => {
                config.destination = d;
                true
            },
            None => false,
        }
    } else {
        false
    }
}

/// What `ensure` reports about the project it set up.
#[derive(Debug, Clone)]
pub struct EnsureReport {
    pub scheme: String,
    pub path: String,
    pub destination: String,
    pub wrote_config: bool,
    pub wrote_tasks: bool,
    pub has_podfile: bool,
    pub global_config: String,
}

/// What `ensure` prints.
#[derive(Debug, Clone, Copy, PartialEq, Eq, Structural)]
pub enum EnsureOutput {
    /// `--quiet` and nothing was written.
    Silent,
    /// A config or tasks were written.
    Configured,
    /// Everything was already in place.
    AlreadyConfigured,
}

pub fn ensure_output(quiet: bool, wrote_config: bool, wrote_tasks: bool) -> (o: EnsureOutput)
    ensures
        o == (if quiet && !wrote_config && !wrote_tasks {
            EnsureOutput::Silent
        } else if wrote_config || wrote_tasks {
            EnsureOutput::Configured
        } else {
            EnsureOutput::AlreadyConfigured
        }),
{
    if quiet && !wrote_config && !wrote_tasks {
        EnsureOutput::Silent
    } else if wrote_config || wrote_tasks {
        EnsureOutput::Configured
    } else {
        EnsureOutput::AlreadyConfigured
    }
}

/// What `ensure` has found out so far about the project folder.
pub struct EnsureFacts {
    /// The global store holds a config for the project.
    pub saved: bool,
    /// A legacy project-local config can be read.
    pub local_config: bool,
    /// stdin and stderr are terminals.
    pub interactive: bool,
    /// The project's `.zed/tasks.json` exists, and its text when it could be read.
    pub tasks_file_exists: bool,
    pub tasks_text: Option<String>,
    /// `IOS_RUNNER_WRITE_PROJECT_TASKS` asks for project tasks.
    pub tasks_forced: bool,
    /// The saved destination passes the check before the build.
    pub destination_valid: bool,
    /// A default simulator destination could be found.
    pub fallback_found: bool,
}

pub struct EnsureFactsView {
    pub saved: bool,
    pub local_config: bool,
    pub interactive: bool,
    pub tasks_file_exists: bool,
    pub tasks_text: Option<Seq<char>>,
    pub tasks_forced: bool,
    pub destination_valid: bool,
    pub fallback_found: bool,
}

impl View for EnsureFacts {
    type V = EnsureFactsView;

    open spec fn view(&self) -> EnsureFactsView {
        EnsureFactsView {
            saved: self.saved,
            local_config: self.local_config,
            interactive: self.interactive,
            tasks_file_exists: self.tasks_file_exists,
            tasks_text: crate::text::opt_view(self.tasks_text),
            tasks_forced: self.tasks_forced,
            destination_valid: self.destination_valid,
            fallback_found: self.fallback_found,
        }
    }
}

/// How far `ensure` has come: which of its three checks (the config, the
/// project tasks, the destination) are done, and what it wrote.
#[derive(Debug, Clone, Copy, PartialEq, Eq, Structural)]
pub struct EnsureProgress {
    pub config_checked: bool,
    pub tasks_checked: bool,
    pub destination_checked: bool,
    pub wrote_config: bool,
    pub wrote_tasks: bool,
}

/// What `ensure` does next.
#[derive(Debug, Clone, Copy, PartialEq, Eq, Structural)]
pub enum EnsureAction {
    /// Save the legacy project-local config to the global store.
    ImportLocal,
    /// Create and save a config (with the pickers when interactive).
    Configure { interactive: bool },
    /// Write the project's `.zed/tasks.json`.
    WriteTasks,
    /// Save the default simulator in place of the invalid destination.
    RepairDestination,
    /// Done; report what was written.
    Finish { wrote_config: bool, wrote_tasks: bool },
}

/// `ensure` before its first step.
pub open spec fn ensure_start() -> EnsureProgress {
    EnsureProgress {
        config_checked: false,
        tasks_checked: false,
        destination_checked: false,
        wrote_config: false,
        wrote_tasks: false,
    }
}

/// The project tasks are written only when asked for, or to rewrite an
/// existing file that duplicates global tasks.
pub open spec fn tasks_refresh(f: EnsureFactsView) -> bool {
    f.tasks_forced || (f.tasks_file_exists && (f.tasks_text matches Some(t)
        && crate::tasks::has_global_duplicates(t)))
}

pub open spec fn destination_step(p: EnsureProgress, f: EnsureFactsView) -> (EnsureAction, EnsureProgress) {
    if !p.destination_checked && !f.destination_valid && f.fallback_found {
        (
            EnsureAction::RepairDestination,
            EnsureProgress { destination_checked: true, wrote_config: true, ..p },
        )
    } else {
        let q = EnsureProgress { destination_checked: true, ..p };
        (EnsureAction::Finish { wrote_config: q.wrote_config, wrote_tasks: q.wrote_tasks }, q)
    }
}

pub open spec fn tasks_step(p: EnsureProgress, f: EnsureFactsView) -> (EnsureAction, EnsureProgress) {
    if !p.tasks_checked && tasks_refresh(f) {
        (
            EnsureAction::WriteTasks,
            EnsureProgress {
                tasks_checked: true,
                wrote_tasks: p.wrote_tasks || !f.tasks_file_exists,
                ..p
            },
        )
    } else {
        destination_step(EnsureProgress { tasks_checked: true, ..p }, f)
    }
}

/// The next step of `ensure` from `p` and the facts as they now stand: a
/// missing config is imported from the project or created, then the project
/// tasks are written when asked for, then an invalid destination is
/// replaced by the default simulator; then `ensure` reports what it wrote.
pub open spec fn ensure_next(p: EnsureProgress, f: EnsureFactsView) -> (EnsureAction, EnsureProgress) {
    if !p.config_checked && !f.saved {
        let q = EnsureProgress { config_checked: true, wrote_config: true, ..p };
        if f.local_config {
            (EnsureAction::ImportLocal, q)
        } else {
            (EnsureAction::Configure { interactive: f.interactive }, q)
        }
    } else {
        tasks_step(EnsureProgress { config_checked: true, ..p }, f)
    }
}

/// The next step of `ensure`, and its progress after that step.
pub fn ensure_step(p: EnsureProgress, f: &EnsureFacts) -> (r: (EnsureAction, EnsureProgress))
    ensures
        r == ensure_next(p, f@),
{
    if !p.config_checked && !f.saved {
        let q = EnsureProgress { config_checked: true, wrote_config: true, ..p };
        if f.local_config {
            return (EnsureAction::ImportLocal, q);
        } else {
            return (EnsureAction::Configure { interactive: f.interactive }, q);
        }
    }
    let p = EnsureProgress { config_checked: true, ..p };
    let text = match &f.tasks_text {
        Some(t) => Some(t.as_str()),
        None => None,
    };
    if !p.tasks_checked && crate::tasks::should_refresh_project_tasks(
        f.tasks_file_exists,
        f.tasks_forced,
        text,
    ) {
        return (
            EnsureAction::WriteTasks,
            EnsureProgress {
                tasks_checked: true,
                wrote_tasks: p.wrote_tasks || !f.tasks_file_exists,
                ..p
            },
        );
    }
    let p = EnsureProgress { tasks_checked: true, ..p };
    if !p.destination_checked && !f.destination_valid && f.fallback_found {
        return (
            EnsureAction::RepairDestination,
            EnsureProgress { destination_checked: true, wrote_config: true, ..p },
        );
    }
    let q = EnsureProgress { destination_checked: true, ..p };
    (EnsureAction::Finish { wrote_config: q.wrote_config, wrote_tasks: q.wrote_tasks }, q)
}

/// The facts after a first `ensure` whose steps went through: the config is
/// saved; the project tasks file, if written, holds `written`; the
/// destination is valid if it was or could be repaired (the default simulator
/// passes the check, as `law_default_simulator_is_valid` shows).
pub open spec fn facts_after(f: EnsureFactsView, written: Seq<char>) -> EnsureFactsView {
    EnsureFactsView {
        saved: true,
        tasks_file_exists: f.tasks_file_exists || tasks_refresh(f),
        tasks_text: if tasks_refresh(f) {
            Some(written)
        } else {
            f.tasks_text
        },
        destination_valid: f.destination_valid || f.fallback_found,
        ..f
    }
}

/// Running `ensure` again writes nothing: when project tasks are not asked
/// for and the tasks it writes duplicate no global task, the second run's
/// first step already reports that nothing was written.
pub proof fn law_ensure_is_idempotent(f: EnsureFactsView, written: Seq<char>)
    requires
        !f.tasks_forced,
        !crate::tasks::has_global_duplicates(written),
    ensures
        ensure_next(ensure_start(), facts_after(f, written)).0 == (EnsureAction::Finish {
            wrote_config: false,
            wrote_tasks: false,
        }),
{
}

/// The scheme listed for `list destinations` when no config is saved: the
/// first that does not start with `Pods-`.
pub fn first_app_scheme(schemes: &Vec<String>) -> (r: Option<String>)
    ensures
        match r {
            Some(s) => exists|i: int|
                0 <= i < schemes@.len() && schemes@[i]@ == s@ && !has_prefix(s@, "Pods-"@)
                    && forall|j: int| 0 <= j < i ==> has_prefix(#[trigger] schemes@[j]@, "Pods-"@),
            None => forall|j: int| 0 <= j < schemes@.len() ==> has_prefix(#[trigger] schemes@[j]@, "Pods-"@),
        },
{
    let mut i: usize = 0;
    while i < schemes.len()
        invariant
            i <= schemes@.len(),
            forall|j: int| 0 <= j < i ==> has_prefix(#[trigger] schemes@[j]@, "Pods-"@),
        decreases schemes@.len() - i,
    {
        if !starts_with_lit(chars_of(schemes[i].as_str()).as_slice(), "Pods-") {
            let r = owned(schemes[i].as_str());
            assert(schemes@[i as int]@ == r@);
            return Some(r);
        }
        i = i + 1;
    }
    None
}

/// The label `doctor` prints for a project kind.
pub fn kind_label(kind: ProjectKind) -> (s: &'static str)
    ensures
        s@ == match kind {
            ProjectKind::Workspace => "workspace"@,
            ProjectKind::Project => "project"@,
        },
{
    match kind {
        ProjectKind::Workspace => "workspace",
        ProjectKind::Project => "project",
    }
}

} // verus!
