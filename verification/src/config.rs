//! The per-project run settings (`RunnerConfig`) and their repair.
use vstd::prelude::*;

use crate::destination::{display_name, normalized, InvalidDestination};
use crate::global_store::GlobalDefaults;
use crate::locale::{t, Lang};
use crate::paths::joined;
use crate::text::{
    chars_of, contains_lit, contains_sub, ends_with_lit, has_suffix, push_lit, string_of,
    trimmed,
};

verus! {

#[derive(Debug, Clone, Copy, PartialEq, Eq, Structural)]
pub enum ProjectKind {
    Workspace,
    Project,
}

#[derive(Debug, Clone)]
pub struct RunnerConfig {
    pub kind: ProjectKind,
    pub path: String,
    pub scheme: String,
    pub configuration: String,
    pub destination: String,
    pub derived_data: String,
    pub xcbeautify: bool,
    pub resolve_packages_before_build: bool,
    pub bring_simulator_to_foreground: bool,
    /// Apple Developer Team ID (required for physical device builds).
    pub development_team: Option<String>,
    /// Terminal messages: `zh-CN` (default) or `en`. Override with env `IOS_RUNNER_LANG`.
    pub language: String,
}

pub struct RunnerConfigView {
    pub kind: ProjectKind,
    pub path: Seq<char>,
    pub scheme: Seq<char>,
    pub configuration: Seq<char>,
    pub destination: Seq<char>,
    pub derived_data: Seq<char>,
    pub xcbeautify: bool,
    pub resolve_packages_before_build: bool,
    pub bring_simulator_to_foreground: bool,
    pub development_team: Option<Seq<char>>,
    pub language: Seq<char>,
}

impl View for RunnerConfig {
    type V = RunnerConfigView;

    open spec fn view(&self) -> RunnerConfigView {
        RunnerConfigView {
            kind: self.kind,
            path: self.path@,
            scheme: self.scheme@,
            configuration: self.configuration@,
            destination: self.destination@,
            derived_data: self.derived_data@,
            xcbeautify: self.xcbeautify,
            resolve_packages_before_build: self.resolve_packages_before_build,
            bring_simulator_to_foreground: self.bring_simulator_to_foreground,
            development_team: crate::text::opt_view(self.development_team),
            language: self.language@,
        }
    }
}

/// File name of the project-local config.
pub const CONFIG_FILE_NAME: &'static str = ".ios-runner.toml";

/// File name of the project-local config written by older versions.
pub const LEGACY_CONFIG_FILE_NAME: &'static str = ".xcode-pilot.toml";

pub fn default_language() -> (s: String)
    ensures
        s@ == "zh-CN"@,
{
    string_of(chars_of("zh-CN").as_slice())
}

pub fn default_resolve_packages() -> (b: bool)
    ensures
        b,
{
    true
}

pub fn default_true() -> (b: bool)
    ensures
        b,
{
    true
}

pub fn default_configuration() -> (s: String)
    ensures
        s@ == "Debug"@,
{
    string_of(chars_of("Debug").as_slice())
}

pub fn default_derived_data() -> (s: String)
    ensures
        s@ == ".ios-runner/DerivedData"@,
{
    string_of(chars_of(".ios-runner/DerivedData").as_slice())
}

/// Removes `suf` from the end of `s` as many times as it occurs there
/// (`str::trim_end_matches`).
pub open spec fn trim_end_all(s: Seq<char>, suf: Seq<char>) -> Seq<char>
    decreases s.len(),
{
    if suf.len() > 0 && has_suffix(s, suf) {
        trim_end_all(s.subrange(0, s.len() - suf.len()), suf)
    } else {
        s
    }
}

/// A project path written as the workspace embedded in a project.
pub open spec fn embedded_workspace(path: Seq<char>) -> bool {
    has_suffix(path, ".xcodeproj/project.xcworkspace"@)
}

/// The repaired form of a config written by an older version: the project
/// instead of its embedded workspace, and a `key=value` destination.
pub open spec fn normalized_config(c: RunnerConfigView) -> RunnerConfigView {
    let c1 = if embedded_workspace(c.path) {
        RunnerConfigView {
            path: trim_end_all(c.path, "/project.xcworkspace"@),
            kind: ProjectKind::Project,
            ..c
        }
    } else {
        c
    };
    match normalized(c1.destination) {
        Some(d) => RunnerConfigView { destination: d, ..c1 },
        None => c1,
    }
}

fn trim_end_matches_lit(v: Vec<char>, lit: &str) -> (r: Vec<char>)
    ensures
        r@ == trim_end_all(v@, lit@),
{
    let l = chars_of(lit);
    if l.len() == 0 {
        return v;
    }
    let mut cur = v;
    while ends_with_lit(cur.as_slice(), lit)
        invariant
            l@ == lit@,
            l@.len() > 0,
            trim_end_all(v@, lit@) == trim_end_all(cur@, lit@),
        decreases cur@.len(),
    {
        let n = cur.len() - l.len();
        cur = crate::text::slice_of(cur.as_slice(), 0, n);
    }
    cur
}

pub open spec fn summary_name(d: Seq<char>) -> Seq<char> {
    match display_name(d) {
        Some(n) => n,
        None => "?"@,
    }
}

pub open spec fn device_summary_view(d: Seq<char>, lang: Lang) -> Seq<char> {
    if contains_sub(d, "macOS"@) {
        "Mac"@ + " · "@ + summary_name(d)
    } else if contains_sub(d, "Simulator"@) {
        (match lang {
            Lang::ZhCn => "模拟器"@,
            Lang::En => "Simulator"@,
        }) + " · "@ + summary_name(d)
    } else {
        (match lang {
            Lang::ZhCn => "真机"@,
            Lang::En => "Device"@,
        }) + " · "@ + summary_name(d)
    }
}

/// The summary of a destination string (see `RunnerConfig::device_summary`).
pub fn destination_summary(destination: &str, lang: Lang) -> (s: String)
    ensures
        s@ == device_summary_view(destination@, lang),
{
    let name = match crate::destination::destination_display_name(destination) {
        Some(n) => n,
        None => string_of(chars_of("?").as_slice()),
    };
    let d = chars_of(destination);
    let mut r: Vec<char> = Vec::new();
    if contains_lit(d.as_slice(), "macOS") {
        push_lit(&mut r, t(lang, "Mac", "Mac"));
    } else if contains_lit(d.as_slice(), "Simulator") {
        push_lit(&mut r, t(lang, "模拟器", "Simulator"));
    } else {
        push_lit(&mut r, t(lang, "真机", "Device"));
    }
    push_lit(&mut r, " · ");
    push_lit(&mut r, name.as_str());
    string_of(r.as_slice())
}

/// Why a config cannot be used to build.
#[derive(Debug, Clone)]
pub enum ConfigError {
    /// The project file the config names does not exist (its full path).
    MissingProject(String),
    InvalidDestination(InvalidDestination),
}

impl RunnerConfig {
    /// A copy with the same value.
    pub fn duplicate(&self) -> (r: RunnerConfig)
        ensures
            r@ == self@,
    {
        RunnerConfig {
            kind: self.kind,
            path: self.path.clone(),
            scheme: self.scheme.clone(),
            configuration: self.configuration.clone(),
            destination: self.destination.clone(),
            derived_data: self.derived_data.clone(),
            xcbeautify: self.xcbeautify,
            resolve_packages_before_build: self.resolve_packages_before_build,
            bring_simulator_to_foreground: self.bring_simulator_to_foreground,
            development_team: match &self.development_team {
                Some(t) => Some(t.clone()),
                None => None,
            },
            language: self.language.clone(),
        }
    }

    /// Fix legacy paths / destinations written by older ios-runner versions.
    pub fn normalize(&mut self)
        ensures
            final(self)@ == normalized_config(old(self)@),
    {
        let p = chars_of(self.path.as_str());
        if ends_with_lit(p.as_slice(), ".xcodeproj/project.xcworkspace") {
            let trimmed_path = trim_end_matches_lit(p, "/project.xcworkspace");
            self.path = string_of(trimmed_path.as_slice());
            self.kind = ProjectKind::Project;
        }
        match crate::destination::normalize_xcodebuild_destination(self.destination.as_str()) {
            Some(fixed) => {
                self.destination = fixed;
            },
            None => {},
        }
    }

    /// `Mac · name`, `Simulator · name` or `Device · name` (localized).
    pub fn device_summary(&self, lang: Lang) -> (s: String)
        ensures
            s@ == device_summary_view(self.destination@, lang),
    {
        destination_summary(self.destination.as_str(), lang)
    }

    /// Fill unset fields from global defaults (after loading a project entry).
    pub fn merge_defaults(&mut self, defaults: &GlobalDefaults)
        ensures
            final(self)@ == (if trimmed(old(self)@.language).len() == 0 {
                RunnerConfigView { language: defaults.language@, ..old(self)@ }
            } else {
                old(self)@
            }),
    {
        if crate::text::trim(chars_of(self.language.as_str()).as_slice()).len() == 0 {
            self.language = defaults.language.clone();
        }
    }

    /// The project file under `root`.
    pub fn project_path(&self, root: &str) -> (p: String)
        ensures
            p@ == joined(root@, self.path@),
    {
        crate::paths::path_join(root, self.path.as_str())
    }

    /// Where `xcodebuild` keeps build products for this project.
    pub fn derived_data_path(&self) -> (p: String)
        ensures
            p@ == self.derived_data@,
    {
        self.derived_data.clone()
    }

    /// Checks that the project file exists (as the caller found it) and that the
    /// destination can be handed to `xcodebuild`.
    pub fn validate(&self, root: &str, project_exists: bool) -> (r: Result<(), ConfigError>)
        ensures
            match r {
                Ok(()) => project_exists && crate::destination::destination_problem(
                    self.destination@,
                ) is None,
                Err(ConfigError::MissingProject(p)) => !project_exists && p@ == joined(
                    root@,
                    self.path@,
                ),
                Err(ConfigError::InvalidDestination(e)) => project_exists
                    && crate::destination::destination_problem(self.destination@) == Some(
                    e.reason,
                ) && e.destination@ == self.destination@,
            },
    {
        if !project_exists {
            return Err(ConfigError::MissingProject(self.project_path(root)));
        }
        match crate::destination::validate_xcodebuild_destination(self.destination.as_str()) {
            Ok(()) => Ok(()),
            Err(e) => Err(ConfigError::InvalidDestination(e)),
        }
    }
}

impl ConfigError {
    pub fn message(&self, lang: Lang) -> (s: String)
        ensures
            match self {
                ConfigError::MissingProject(p) => s@ == "project path does not exist: "@ + p@,
                ConfigError::InvalidDestination(e) => s@
                    == crate::destination::invalid_destination_message(
                    lang,
                    e.reason,
                    e.destination@,
                ),
            },
    {
        match self {
            ConfigError::MissingProject(p) => {
                let mut r: Vec<char> = Vec::new();
                push_lit(&mut r, "project path does not exist: ");
                push_lit(&mut r, p.as_str());
                string_of(r.as_slice())
            },
            ConfigError::InvalidDestination(e) => e.message(lang),
        }
    }
}

/// Which project-local config file to read, given which of them exist.
#[derive(Debug, Clone, Copy, PartialEq, Eq, Structural)]
pub enum LocalConfigFile {
    Current,
    Legacy,
}

/// The project-local config file to read: `.ios-runner.toml`, else the legacy
/// `.xcode-pilot.toml`; `None` when neither exists.
pub fn local_config_path(primary_exists: bool, legacy_exists: bool) -> (r: Option<LocalConfigFile>)
    ensures
        match r {
            Some(LocalConfigFile::Current) => primary_exists,
            Some(LocalConfigFile::Legacy) => !primary_exists && legacy_exists,
            None => !primary_exists && !legacy_exists,
        },
{
    if primary_exists {
        Some(LocalConfigFile::Current)
    } else if legacy_exists {
        Some(LocalConfigFile::Legacy)
    } else {
        None
    }
}

/// The message when a project has no local config.
pub fn missing_local_config_message(lang: Lang) -> (s: &'static str)
    ensures
        s@ == (match lang {
            Lang::ZhCn => "缺少 .ios-runner.toml"@,
            Lang::En => "missing .ios-runner.toml"@,
        }),
{
    t(lang, "缺少 .ios-runner.toml", "missing .ios-runner.toml")
}

proof fn lemma_trim_end_all_drops_suffix(s: Seq<char>, suf: Seq<char>)
    requires
        suf.len() > 0,
    ensures
        !has_suffix(trim_end_all(s, suf), suf),
    decreases s.len(),
{
    if has_suffix(s, suf) {
        lemma_trim_end_all_drops_suffix(s.subrange(0, s.len() - suf.len()), suf);
    }
}

/// Repairing a config twice is repairing it once: the repaired project path
/// no longer names an embedded workspace, and a repaired destination is
/// already in repaired form.
pub proof fn law_config_repair_idempotent(c: RunnerConfigView)
    ensures
        normalized_config(normalized_config(c)) == normalized_config(c),
{
    reveal_strlit("/project.xcworkspace");
    reveal_strlit(".xcodeproj/project.xcworkspace");
    let suf = "/project.xcworkspace"@;
    let long = ".xcodeproj/project.xcworkspace"@;
    let once = normalized_config(c);
    if embedded_workspace(c.path) {
        lemma_trim_end_all_drops_suffix(c.path, suf);
    }
    assert(!embedded_workspace(once.path)) by {
        let p = once.path;
        if embedded_workspace(p) {
            assert(p.subrange(p.len() - 20, p.len() as int) =~= p.subrange(
                p.len() - 30,
                p.len() as int,
            ).subrange(10, 30));
            assert(long.subrange(10, 30) =~= suf);
            if !embedded_workspace(c.path) {
                assert(p == c.path);
            }
            assert(has_suffix(p, suf));
        }
    }
    crate::destination::law_repaired_destination_is_valid(c.destination);
}

} // verus!
