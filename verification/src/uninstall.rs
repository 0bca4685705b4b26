//! What the uninstall removes and keeps, and how its report is kept.
use vstd::prelude::*;

use crate::bootstrap::INSTALL_DIR;
use crate::paths::{joined, path_join};
use crate::text::{chars_of, owned, starts_with_lit, has_prefix, str_views};

verus! {

#[derive(Debug, Clone, Copy)]
pub struct UninstallOptions {
    /// Keep `~/.config/ios-runner/` (project run settings).
    pub keep_config: bool,
    /// Also delete `~/.ios-runner/DerivedData/` (build cache).
    pub purge_derived_data: bool,
}

impl Default for UninstallOptions {
    fn default() -> (o: Self)
        ensures
            !o.keep_config && !o.purge_derived_data,
    {
        UninstallOptions { keep_config: false, purge_derived_data: false }
    }
}

#[derive(Debug, Clone)]
pub struct UninstallReport {
    pub removed: Vec<String>,
    pub skipped: Vec<String>,
}

impl Default for UninstallReport {
    fn default() -> (r: Self)
        ensures
            r.removed@.len() == 0,
            r.skipped@.len() == 0,
    {
        UninstallReport { removed: Vec::new(), skipped: Vec::new() }
    }
}

/// One step of the uninstall, on paths under the home folder.
#[derive(Debug, Clone)]
pub enum UninstallStep {
    /// Remove the path when it is a file.
    RemoveFile(String),
    /// Remove the entries of this folder whose names begin with `.bootstrap-`.
    RemoveBootstrapMarkers(String),
    /// Remove the file or folder when it exists.
    RemovePath(String),
    /// Report the path as kept when it exists.
    KeepIfExists(String),
    /// Remove our tasks from Zed's global `tasks.json`.
    UninstallZedTasks,
    /// Remove our bindings from Zed's `keymap.json`.
    UninstallZedKeymap,
    /// Remove the folder when it is empty.
    PruneIfEmpty(String),
}

pub enum StepView {
    RemoveFile(Seq<char>),
    RemoveBootstrapMarkers(Seq<char>),
    RemovePath(Seq<char>),
    KeepIfExists(Seq<char>),
    UninstallZedTasks,
    UninstallZedKeymap,
    PruneIfEmpty(Seq<char>),
}

pub open spec fn step_view(s: UninstallStep) -> StepView {
    match s {
        UninstallStep::RemoveFile(p) => StepView::RemoveFile(p@),
        UninstallStep::RemoveBootstrapMarkers(p) => StepView::RemoveBootstrapMarkers(p@),
        UninstallStep::RemovePath(p) => StepView::RemovePath(p@),
        UninstallStep::KeepIfExists(p) => StepView::KeepIfExists(p@),
        UninstallStep::UninstallZedTasks => StepView::UninstallZedTasks,
        UninstallStep::UninstallZedKeymap => StepView::UninstallZedKeymap,
        UninstallStep::PruneIfEmpty(p) => StepView::PruneIfEmpty(p@),
    }
}

/// The steps, in order: the installed CLI, the bootstrap markers, the build
/// cache (removed or kept), the global config (removed or kept), the Zed tasks
/// and keymap, and `~/.ios-runner` when it is left empty.
pub open spec fn plan(options: UninstallOptions, home: Seq<char>, config_dir: Seq<char>) -> Seq<StepView> {
    let derived = joined(home, ".ios-runner/DerivedData"@);
    seq![
        StepView::RemoveFile(joined(joined(home, INSTALL_DIR@), "ios-runner"@)),
        StepView::RemoveBootstrapMarkers(joined(home, ".ios-runner"@)),
        if options.purge_derived_data {
            StepView::RemovePath(derived)
        } else {
            StepView::KeepIfExists(derived)
        },
        if !options.keep_config {
            StepView::RemovePath(config_dir)
        } else {
            StepView::KeepIfExists(config_dir)
        },
        StepView::UninstallZedTasks,
        StepView::UninstallZedKeymap,
        StepView::PruneIfEmpty(joined(home, ".ios-runner"@)),
    ]
}

/// The steps of the uninstall for the home folder `home`, whose global config
/// folder is `config_dir`.
pub fn uninstall_plan(options: &UninstallOptions, home: &str, config_dir: &str) -> (steps: Vec<
    UninstallStep,
>)
    ensures
        steps@.map_values(|s: UninstallStep| step_view(s)) == plan(*options, home@, config_dir@),
{
    let bin = path_join(home, INSTALL_DIR);
    let mut steps: Vec<UninstallStep> = Vec::new();
    steps.push(UninstallStep::RemoveFile(path_join(bin.as_str(), "ios-runner")));
    steps.push(UninstallStep::RemoveBootstrapMarkers(path_join(home, ".ios-runner")));
    let derived = path_join(home, ".ios-runner/DerivedData");
    if options.purge_derived_data {
        steps.push(UninstallStep::RemovePath(derived));
    } else {
        steps.push(UninstallStep::KeepIfExists(derived));
    }
    if !options.keep_config {
        steps.push(UninstallStep::RemovePath(owned(config_dir)));
    } else {
        steps.push(UninstallStep::KeepIfExists(owned(config_dir)));
    }
    steps.push(UninstallStep::UninstallZedTasks);
    steps.push(UninstallStep::UninstallZedKeymap);
    steps.push(UninstallStep::PruneIfEmpty(path_join(home, ".ios-runner")));
    assert(steps@.map_values(|s: UninstallStep| step_view(s)) =~= plan(
        *options,
        home@,
        config_dir@,
    ));
    steps
}

/// A bootstrap marker left by an older installer.
pub fn is_bootstrap_marker(name: &str) -> (b: bool)
    ensures
        b == has_prefix(name@, ".bootstrap-"@),
{
    starts_with_lit(chars_of(name).as_slice(), ".bootstrap-")
}

impl UninstallReport {
    pub fn record_removed(&mut self, path: &str)
        ensures
            str_views(final(self).removed@) == str_views(old(self).removed@).push(path@),
            final(self).skipped@ == old(self).skipped@,
    {
        let ghost before = str_views(self.removed@);
        self.removed.push(owned(path));
        assert(str_views(self.removed@) =~= before.push(path@));
    }

    pub fn record_skipped(&mut self, path: &str)
        ensures
            str_views(final(self).skipped@) == str_views(old(self).skipped@).push(path@),
            final(self).removed@ == old(self).removed@,
    {
        let ghost before = str_views(self.skipped@);
        self.skipped.push(owned(path));
        assert(str_views(self.skipped@) =~= before.push(path@));
    }

    /// The Zed tasks step: the rewritten file as removed, or a note that no
    /// task of ours was there.
    pub fn record_zed_tasks(&mut self, rewritten: Option<&str>)
        ensures
            match rewritten {
                Some(p) => str_views(final(self).removed@) == str_views(old(self).removed@).push(
                    p@,
                ) && final(self).skipped@ == old(self).skipped@,
                None => str_views(final(self).skipped@) == str_views(old(self).skipped@).push(
                    "~/.config/zed/tasks.json (no iOS-Runner tasks)"@,
                ) && final(self).removed@ == old(self).removed@,
            },
    {
        match rewritten {
            Some(p) => self.record_removed(p),
            None => self.record_skipped("~/.config/zed/tasks.json (no iOS-Runner tasks)"),
        }
    }

    /// The keymap step: the rewritten file as removed, or a note that no
    /// binding of ours was there.
    pub fn record_zed_keymap(&mut self, rewritten: Option<&str>)
        ensures
            match rewritten {
                Some(p) => str_views(final(self).removed@) == str_views(old(self).removed@).push(
                    p@,
                ) && final(self).skipped@ == old(self).skipped@,
                None => str_views(final(self).skipped@) == str_views(old(self).skipped@).push(
                    "~/.config/zed/keymap.json (no iOS-Runner bindings)"@,
                ) && final(self).removed@ == old(self).removed@,
            },
    {
        match rewritten {
            Some(p) => self.record_removed(p),
            None => self.record_skipped("~/.config/zed/keymap.json (no iOS-Runner bindings)"),
        }
    }
}

} // verus!
