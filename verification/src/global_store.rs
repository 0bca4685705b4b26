//! The global store `~/.config/ios-runner/config.toml`: defaults, one entry
//! per project root, and the stable cache-folder name of a project.
use vstd::prelude::*;

use crate::config::{normalized_config, RunnerConfig, RunnerConfigView};
use crate::locale::Lang;
use crate::paths::{file_name, joined, path_join};
use crate::text::{ascii_lower_seq, chars_of, push_all, push_lit, string_of, trimmed};

verus! {

#[derive(Debug, Clone)]
pub struct GlobalDefaults {
    pub language: String,
    pub xcbeautify: bool,
    pub resolve_packages_before_build: bool,
    pub bring_simulator_to_foreground: bool,
}

pub struct GlobalDefaultsView {
    pub language: Seq<char>,
    pub xcbeautify: bool,
    pub resolve_packages_before_build: bool,
    pub bring_simulator_to_foreground: bool,
}

impl View for GlobalDefaults {
    type V = GlobalDefaultsView;

    open spec fn view(&self) -> GlobalDefaultsView {
        GlobalDefaultsView {
            language: self.language@,
            xcbeautify: self.xcbeautify,
            resolve_packages_before_build: self.resolve_packages_before_build,
            bring_simulator_to_foreground: self.bring_simulator_to_foreground,
        }
    }
}

impl Default for GlobalDefaults {
    /// Empty language and every switch off, as when no global file exists yet.
    fn default() -> (d: GlobalDefaults)
        ensures
            d.language@ == Seq::<char>::empty(),
            !d.xcbeautify,
            !d.resolve_packages_before_build,
            !d.bring_simulator_to_foreground,
    {
        GlobalDefaults {
            language: String::new(),
            xcbeautify: false,
            resolve_packages_before_build: false,
            bring_simulator_to_foreground: false,
        }
    }
}

impl GlobalDefaults {
    /// The defaults a freshly written `[defaults]` table holds.
    pub fn with_serde_defaults() -> (d: GlobalDefaults)
        ensures
            d.language@ == "zh-CN"@,
            d.xcbeautify,
            d.resolve_packages_before_build,
            d.bring_simulator_to_foreground,
    {
        GlobalDefaults {
            language: crate::config::default_language(),
            xcbeautify: crate::config::default_true(),
            resolve_packages_before_build: crate::config::default_resolve_packages(),
            bring_simulator_to_foreground: crate::config::default_true(),
        }
    }
}

/// The config saved for one project root (an absolute, canonical path).
#[derive(Debug, Clone)]
pub struct ProjectEntry {
    pub root: String,
    pub config: RunnerConfig,
}

/// The whole global store. `projects` holds one entry per root; the file on
/// disk keeps them as a table sorted by root.
#[derive(Debug, Clone)]
pub struct GlobalConfigFile {
    pub defaults: GlobalDefaults,
    pub projects: Vec<ProjectEntry>,
}

impl Default for GlobalConfigFile {
    fn default() -> (f: GlobalConfigFile)
        ensures
            f.defaults.language@ == Seq::<char>::empty(),
            !f.defaults.xcbeautify,
            !f.defaults.resolve_packages_before_build,
            !f.defaults.bring_simulator_to_foreground,
            f.projects@.len() == 0,
    {
        GlobalConfigFile { defaults: GlobalDefaults::default(), projects: Vec::new() }
    }
}

/// The config stored for `root`: that of the first entry with this root.
pub open spec fn lookup(entries: Seq<ProjectEntry>, root: Seq<char>) -> Option<RunnerConfigView>
    decreases entries.len(),
{
    if entries.len() == 0 {
        None
    } else if entries[0].root@ == root {
        Some(entries[0].config@)
    } else {
        lookup(entries.subrange(1, entries.len() as int), root)
    }
}

/// A blank default language becomes `zh-CN`.
pub fn normalize_defaults(defaults: &mut GlobalDefaults)
    ensures
        final(defaults).language@ == (if trimmed(old(defaults).language@).len() == 0 {
            "zh-CN"@
        } else {
            old(defaults).language@
        }),
        final(defaults).xcbeautify == old(defaults).xcbeautify,
        final(defaults).resolve_packages_before_build == old(
            defaults,
        ).resolve_packages_before_build,
        final(defaults).bring_simulator_to_foreground == old(
            defaults,
        ).bring_simulator_to_foreground,
{
    if crate::text::trim(chars_of(defaults.language.as_str()).as_slice()).len() == 0 {
        defaults.language = crate::config::default_language();
    }
}

/// The root and config of each entry.
pub open spec fn entry_views(s: Seq<ProjectEntry>) -> Seq<(Seq<char>, RunnerConfigView)> {
    s.map_values(|e: ProjectEntry| (e.root@, e.config@))
}

/// Replaces the whole store with `file`, its blank default language first
/// set to `zh-CN` (the caller holds the file lock).
pub fn save_global_file(store: &mut GlobalConfigFile, file: &GlobalConfigFile)
    ensures
        entry_views(final(store).projects@) == entry_views(file.projects@),
        final(store).defaults.language@ == (if trimmed(file.defaults.language@).len() == 0 {
            "zh-CN"@
        } else {
            file.defaults.language@
        }),
        final(store).defaults.xcbeautify == file.defaults.xcbeautify,
        final(store).defaults.resolve_packages_before_build
            == file.defaults.resolve_packages_before_build,
        final(store).defaults.bring_simulator_to_foreground
            == file.defaults.bring_simulator_to_foreground,
{
    let mut defaults = GlobalDefaults {
        language: string_of(chars_of(file.defaults.language.as_str()).as_slice()),
        xcbeautify: file.defaults.xcbeautify,
        resolve_packages_before_build: file.defaults.resolve_packages_before_build,
        bring_simulator_to_foreground: file.defaults.bring_simulator_to_foreground,
    };
    normalize_defaults(&mut defaults);
    let mut projects: Vec<ProjectEntry> = Vec::new();
    let mut i: usize = 0;
    while i < file.projects.len()
        invariant
            i <= file.projects@.len(),
            entry_views(projects@) == entry_views(file.projects@.subrange(0, i as int)),
        decreases file.projects@.len() - i,
    {
        let ghost before = entry_views(projects@);
        projects.push(ProjectEntry {
            root: file.projects[i].root.clone(),
            config: file.projects[i].config.duplicate(),
        });
        assert(entry_views(projects@) =~= before.push((file.projects@[i as int].root@, file.projects@[i as int].config@)));
        assert(entry_views(file.projects@.subrange(0, i + 1)) =~= entry_views(file.projects@.subrange(0, i as int)).push((file.projects@[i as int].root@, file.projects@[i as int].config@)));
        i = i + 1;
    }
    assert(file.projects@.subrange(0, file.projects@.len() as int) =~= file.projects@);
    store.defaults = defaults;
    store.projects = projects;
}

/// The position of the first entry for `root`.
pub fn find_project(entries: &Vec<ProjectEntry>, root: &str) -> (r: Option<usize>)
    ensures
        match r {
            Some(i) => i < entries@.len() && entries@[i as int].root@ == root@ && lookup(
                entries@,
                root@,
            ) == Some(entries@[i as int].config@) && forall|k: int|
                0 <= k < i ==> entries@[k].root@ != root@,
            None => lookup(entries@, root@) is None,
        },
{
    let key = chars_of(root);
    let mut i: usize = 0;
    assert(entries@.subrange(0, entries@.len() as int) =~= entries@);
    while i < entries.len()
        invariant
            key@ == root@,
            i <= entries@.len(),
            lookup(entries@, root@) == lookup(entries@.subrange(i as int, entries@.len() as int), root@),
            forall|k: int| 0 <= k < i ==> entries@[k].root@ != root@,
        decreases entries@.len() - i,
    {
        let ghost rest = entries@.subrange(i as int, entries@.len() as int);
        assert(rest[0] == entries@[i as int]);
        assert(rest.subrange(1, rest.len() as int) =~= entries@.subrange(i + 1, entries@.len() as int));
        if crate::text::eq(chars_of(entries[i].root.as_str()).as_slice(), key.as_slice()) {
            return Some(i);
        }
        i = i + 1;
    }
    None
}

/// No two entries share a root (the file keeps the projects as a table keyed
/// by root).
pub open spec fn unique_roots(s: Seq<ProjectEntry>) -> bool {
    forall|i: int, j: int| 0 <= i < j < s.len() ==> s[i].root@ != s[j].root@
}

proof fn lemma_lookup_none(s: Seq<ProjectEntry>, root: Seq<char>)
    requires
        lookup(s, root) is None,
    ensures
        forall|k: int| 0 <= k < s.len() ==> s[k].root@ != root,
    decreases s.len(),
{
    if s.len() > 0 {
        let s1 = s.subrange(1, s.len() as int);
        lemma_lookup_none(s1, root);
        assert forall|k: int| 0 <= k < s.len() implies s[k].root@ != root by {
            if k > 0 {
                assert(s[k] == s1[k - 1]);
            }
        }
    }
}

/// Stores `config` for `root`, replacing the entry of that root if there is
/// one; a store with one entry per root keeps one entry per root.
pub fn insert_project(entries: &mut Vec<ProjectEntry>, root: &str, config: RunnerConfig)
    ensures
        lookup(final(entries)@, root@) == Some(config@),
        forall|other: Seq<char>| other != root@ ==> lookup(final(entries)@, other) == lookup(
            old(entries)@,
            other,
        ),
        unique_roots(old(entries)@) ==> unique_roots(final(entries)@),
{
    let ghost before = entries@;
    match find_project(entries, root) {
        Some(i) => {
            let entry = ProjectEntry { root: entries[i].root.clone(), config };
            entries.set(i, entry);
            proof {
                assert(forall|k: int| 0 <= k < entries@.len() ==> entries@[k].root@ == before[k].root@);
                lemma_lookup_after_set(before, i as int, entry, root@, root@);
                assert forall|other: Seq<char>| other != root@ implies lookup(entries@, other)
                    == lookup(before, other) by {
                    lemma_lookup_after_set(before, i as int, entry, root@, other);
                }
            }
        },
        None => {
            let entry = ProjectEntry { root: string_of(chars_of(root).as_slice()), config };
            entries.push(entry);
            proof {
                lemma_lookup_none(before, root@);
                assert(forall|k: int| 0 <= k < before.len() ==> entries@[k] == before[k]);
                lemma_lookup_after_push(before, entry, root@);
                assert forall|other: Seq<char>| other != root@ implies lookup(entries@, other)
                    == lookup(before, other) by {
                    lemma_lookup_after_push(before, entry, other);
                }
            }
        },
    }
}

proof fn lemma_lookup_after_set(s: Seq<ProjectEntry>, i: int, e: ProjectEntry, root: Seq<char>, other: Seq<char>)
    requires
        0 <= i < s.len(),
        s[i].root@ == root,
        e.root@ == root,
        forall|k: int| 0 <= k < i ==> s[k].root@ != root,
    ensures
        other == root ==> lookup(s.update(i, e), other) == Some(e.config@),
        other != root ==> lookup(s.update(i, e), other) == lookup(s, other),
    decreases s.len(),
{
    let t = s.update(i, e);
    if i == 0 {
        assert(t.subrange(1, t.len() as int) =~= s.subrange(1, s.len() as int));
    } else {
        let s1 = s.subrange(1, s.len() as int);
        assert(t.subrange(1, t.len() as int) =~= s1.update(i - 1, e));
        lemma_lookup_after_set(s1, i - 1, e, root, other);
    }
}

proof fn lemma_lookup_after_push(s: Seq<ProjectEntry>, e: ProjectEntry, other: Seq<char>)
    requires
        lookup(s, e.root@) is None,
    ensures
        other == e.root@ ==> lookup(s.push(e), other) == Some(e.config@),
        other != e.root@ ==> lookup(s.push(e), other) == lookup(s, other),
    decreases s.len(),
{
    let t = s.push(e);
    if s.len() > 0 {
        let s1 = s.subrange(1, s.len() as int);
        assert(t.subrange(1, t.len() as int) =~= s1.push(e));
        lemma_lookup_after_push(s1, e, other);
    } else {
        assert(t.subrange(1, t.len() as int) =~= Seq::<ProjectEntry>::empty());
        assert(lookup(Seq::<ProjectEntry>::empty(), other) is None);
    }
}

/// FNV-1a 64-bit of `bytes`.
pub open spec fn fnv1a64_spec(bytes: Seq<u8>) -> u64
    decreases bytes.len(),
{
    if bytes.len() == 0 {
        0xcbf29ce484222325u64
    } else {
        (fnv1a64_spec(bytes.drop_last()) ^ (bytes.last() as u64)).wrapping_mul(0x100000001b3u64)
    }
}

/// FNV-1a 64-bit — stable across Rust versions (unlike `DefaultHasher`).
pub fn fnv1a64(bytes: &[u8]) -> (h: u64)
    ensures
        h == fnv1a64_spec(bytes@),
{
    let mut hash: u64 = 0xcbf29ce484222325;
    let mut i: usize = 0;
    while i < bytes.len()
        invariant
            i <= bytes@.len(),
            hash == fnv1a64_spec(bytes@.subrange(0, i as int)),
        decreases bytes@.len() - i,
    {
        assert(bytes@.subrange(0, i + 1).drop_last() =~= bytes@.subrange(0, i as int));
        hash = hash ^ (bytes[i] as u64);
        hash = hash.wrapping_mul(0x100000001b3);
        i = i + 1;
    }
    assert(bytes@.subrange(0, bytes@.len() as int) =~= bytes@);
    hash
}

pub open spec fn hex_char(d: nat) -> char {
    if d < 10 {
        (('0' as u32) + d) as char
    } else {
        (('a' as u32) + d - 10) as char
    }
}

/// The last `n` lowercase hexadecimal digits of `x`, zero-padded.
pub open spec fn hex_digits(x: nat, n: nat) -> Seq<char>
    decreases n,
{
    if n == 0 {
        Seq::empty()
    } else {
        hex_digits(x / 16, (n - 1) as nat).push(hex_char(x % 16))
    }
}

fn hex_digit_char(d: u64) -> (c: char)
    requires
        d < 16,
    ensures
        c == hex_char(d as nat),
{
    if d < 10 {
        ((48u8 + d as u8) as char)
    } else {
        ((87u8 + d as u8) as char)
    }
}

fn hex_digits_of(x: u64, n: usize) -> (r: Vec<char>)
    ensures
        r@ == hex_digits(x as nat, n as nat),
    decreases n,
{
    if n == 0 {
        Vec::new()
    } else {
        let mut r = hex_digits_of(x / 16, n - 1);
        r.push(hex_digit_char(x % 16));
        r
    }
}

/// `<file name>-<16 hex digits of the FNV-1a hash of the path's bytes>`.
pub open spec fn cache_id(root: Seq<char>) -> Seq<char> {
    let name = match file_name(root) {
        Some(n) => n,
        None => "project"@,
    };
    name + "-"@ + hex_digits(fnv1a64_spec(vstd::utf8::encode_utf8(root)) as nat, 16)
}

/// Stable cache folder name under `~/.ios-runner/DerivedData/` for a
/// canonical project root.
pub fn project_cache_id(root: &str) -> (id: String)
    ensures
        id@ == cache_id(root@),
{
    let name = match crate::paths::path_file_name(root) {
        Some(n) => n,
        None => string_of(chars_of("project").as_slice()),
    };
    let hash = fnv1a64(root.as_bytes());
    let mut r = chars_of(name.as_str());
    push_lit(&mut r, "-");
    let digits = hex_digits_of(hash, 16);
    push_all(&mut r, digits.as_slice());
    string_of(r.as_slice())
}

/// `dirs::home_dir`, as text. The home directory comes from the environment,
/// so the contract claims nothing of the value; `None` when it is unknown.
#[verifier::external_body]
fn home_dir() -> (r: Option<String>) {
    dirs::home_dir().map(|p| p.to_string_lossy().into_owned())
}

/// `<home>/.config/ios-runner`.
pub fn config_dir_in(home: &str) -> (p: String)
    ensures
        p@ == joined(home@, ".config/ios-runner"@),
{
    path_join(home, ".config/ios-runner")
}

/// `~/.config/ios-runner`, when the home directory is known.
pub fn config_dir() -> (r: Option<String>)
    ensures
        r matches Some(p) ==> exists|h: Seq<char>| p@ == joined(h, ".config/ios-runner"@),
{
    match home_dir() {
        Some(h) => Some(config_dir_in(h.as_str())),
        None => None,
    }
}

/// `<home>/.config/ios-runner/config.toml`.
pub fn config_file_path_in(home: &str) -> (p: String)
    ensures
        p@ == joined(joined(home@, ".config/ios-runner"@), "config.toml"@),
{
    path_join(config_dir_in(home).as_str(), "config.toml")
}

/// `~/.config/ios-runner/config.toml`, when the home directory is known.
pub fn config_file_path() -> (r: Option<String>)
    ensures
        r matches Some(p) ==> exists|h: Seq<char>| p@ == joined(
            joined(h, ".config/ios-runner"@),
            "config.toml"@,
        ),
{
    match home_dir() {
        Some(h) => Some(config_file_path_in(h.as_str())),
        None => None,
    }
}

/// `<home>/.ios-runner/DerivedData/<cache id of root>`.
pub fn global_derived_data_path_in(home: &str, root: &str) -> (p: String)
    ensures
        p@ == joined(joined(home@, ".ios-runner/DerivedData"@), cache_id(root@)),
{
    let base = path_join(home, ".ios-runner/DerivedData");
    let id = project_cache_id(root);
    path_join(base.as_str(), id.as_str())
}

/// The per-project build cache under the home directory, when it is known.
pub fn global_derived_data_path(root: &str) -> (r: Option<String>)
    ensures
        r matches Some(p) ==> exists|h: Seq<char>| p@ == joined(
            joined(h, ".ios-runner/DerivedData"@),
            cache_id(root@),
        ),
{
    match home_dir() {
        Some(h) => Some(global_derived_data_path_in(h.as_str(), root)),
        None => None,
    }
}

/// `<home>/.config/zed`.
pub fn zed_config_dir_in(home: &str) -> (p: String)
    ensures
        p@ == joined(home@, ".config/zed"@),
{
    path_join(home, ".config/zed")
}

/// `~/.config/zed`, when the home directory is known.
pub fn zed_config_dir() -> (r: Option<String>)
    ensures
        r matches Some(p) ==> exists|h: Seq<char>| p@ == joined(h, ".config/zed"@),
{
    match home_dir() {
        Some(h) => Some(zed_config_dir_in(h.as_str())),
        None => None,
    }
}

/// An environment switch such as `IOS_RUNNER_LOCAL_CONFIG`: on for `1` and,
/// in any ASCII case, `true`.
pub open spec fn flag_on(value: Option<Seq<char>>) -> bool {
    match value {
        Some(v) => v == "1"@ || ascii_lower_seq(v) == "true"@,
        None => false,
    }
}

pub fn env_flag_enabled(value: Option<&str>) -> (b: bool)
    ensures
        b == flag_on(match value {
            Some(v) => Some(v@),
            None => None,
        }),
{
    match value {
        Some(v) => {
            let c = chars_of(v);
            let l = crate::text::to_ascii_lower(c.as_slice());
            crate::text::eq_lit(c.as_slice(), "1") || crate::text::eq_lit(l.as_slice(), "true")
        },
        None => false,
    }
}

/// `IOS_RUNNER_WRITE_PROJECT_TASKS`: also write `.zed/tasks.json` in the project.
pub fn should_write_project_tasks(value: Option<&str>) -> (b: bool)
    ensures
        b == flag_on(match value {
            Some(v) => Some(v@),
            None => None,
        }),
{
    env_flag_enabled(value)
}

/// `IOS_RUNNER_LOCAL_CONFIG`: also write `.ios-runner.toml` in the project.
pub fn should_write_local_config(value: Option<&str>) -> (b: bool)
    ensures
        b == flag_on(match value {
            Some(v) => Some(v@),
            None => None,
        }),
{
    env_flag_enabled(value)
}

/// A loaded entry after `finish_loaded_config`: the project's build cache,
/// the default language if it has none, and the legacy repairs.
pub open spec fn finished(c: RunnerConfigView, derived: Seq<char>, default_language: Seq<char>) -> RunnerConfigView {
    let c1 = RunnerConfigView { derived_data: derived, ..c };
    let c2 = if trimmed(c1.language).len() == 0 {
        RunnerConfigView { language: default_language, ..c1 }
    } else {
        c1
    };
    normalized_config(c2)
}

/// Completes a loaded entry: build cache path, default language, legacy repairs.
pub fn finish_loaded_config(config: RunnerConfig, derived: &str, defaults: &GlobalDefaults) -> (r: RunnerConfig)
    ensures
        r@ == finished(config@, derived@, defaults.language@),
{
    let mut c = config;
    c.derived_data = string_of(chars_of(derived).as_slice());
    c.merge_defaults(defaults);
    c.normalize();
    c
}

/// No config is saved for the project, globally or in the project.
#[derive(Debug, Clone, Copy, PartialEq, Eq, Structural)]
pub enum LoadError {
    NotConfigured,
}

pub fn not_configured_message(lang: Lang) -> (s: &'static str)
    ensures
        s@ == (match lang {
            Lang::ZhCn => "未找到此工程的 iOS-Runner 配置。请运行: ios-runner ensure 或 ios-runner configure"@,
            Lang::En => "No iOS-Runner config for this project. Run: ios-runner ensure or ios-runner configure"@,
        }),
{
    crate::locale::t(
        lang,
        "未找到此工程的 iOS-Runner 配置。请运行: ios-runner ensure 或 ios-runner configure",
        "No iOS-Runner config for this project. Run: ios-runner ensure or ios-runner configure",
    )
}

/// The config of the project at `root_key`: its entry in the global store,
/// else the legacy project-local config (`local`, as read by the caller),
/// completed with the project's build cache `derived`.
pub fn load_config(file: &GlobalConfigFile, root_key: &str, local: Option<RunnerConfig>, derived: &str) -> (r: Result<RunnerConfig, LoadError>)
    ensures
        match lookup(file.projects@, root_key@) {
            Some(c) => r matches Ok(x) && x@ == finished(c, derived@, file.defaults.language@),
            None => match local {
                Some(l) => r matches Ok(x) && x@ == finished(l@, derived@, file.defaults.language@),
                None => r == Err::<RunnerConfig, LoadError>(LoadError::NotConfigured),
            },
        },
{
    match find_project(&file.projects, root_key) {
        Some(i) => Ok(finish_loaded_config(file.projects[i].config.duplicate(), derived, &file.defaults)),
        None => match local {
            Some(l) => Ok(finish_loaded_config(l, derived, &file.defaults)),
            None => Err(LoadError::NotConfigured),
        },
    }
}

/// What `save_config` keeps for a project: the repaired config with the
/// project's build cache.
pub open spec fn stored_form(c: RunnerConfigView, derived: Seq<char>) -> RunnerConfigView {
    RunnerConfigView { derived_data: derived, ..normalized_config(c) }
}

/// Saves `config` as the entry of `root_key` (replacing an older one), with
/// the project's build cache `derived`; defaults and other projects are kept.
pub fn save_config(file: &mut GlobalConfigFile, root_key: &str, config: &RunnerConfig, derived: &str)
    ensures
        lookup(final(file).projects@, root_key@) == Some(stored_form(config@, derived@)),
        forall|other: Seq<char>| other != root_key@ ==> lookup(final(file).projects@, other)
            == lookup(old(file).projects@, other),
        final(file).defaults@ == old(file).defaults@,
        unique_roots(old(file).projects@) ==> unique_roots(final(file).projects@),
{
    let mut stored = config.duplicate();
    stored.normalize();
    stored.derived_data = string_of(chars_of(derived).as_slice());
    insert_project(&mut file.projects, root_key, stored);
}

/// Reading a project's config right after saving it gives back what was
/// saved: the config repaired once, with the project's build cache, and the
/// default language when it names none. A config that needs no repair and
/// names its language comes back unchanged but for the build cache.
pub proof fn law_load_after_save(
    saved: Seq<ProjectEntry>,
    root: Seq<char>,
    c: RunnerConfigView,
    derived: Seq<char>,
    default_language: Seq<char>,
)
    requires
        lookup(saved, root) == Some(stored_form(c, derived)),
    ensures
        lookup(saved, root) matches Some(x) && finished(x, derived, default_language) == (
        RunnerConfigView {
            derived_data: derived,
            language: if trimmed(c.language).len() == 0 {
                default_language
            } else {
                c.language
            },
            ..normalized_config(c)
        }),
        normalized_config(c) == c && trimmed(c.language).len() > 0 ==> finished(
            stored_form(c, derived),
            derived,
            default_language,
        ) == (RunnerConfigView { derived_data: derived, ..c }),
{
    crate::config::law_config_repair_idempotent(c);
    let n = normalized_config(c);
    let s = stored_form(c, derived);
    assert(normalized_config(s) == RunnerConfigView { derived_data: derived, ..normalized_config(n) });
    let l = RunnerConfigView { language: default_language, ..s };
    assert(normalized_config(l) == RunnerConfigView { derived_data: derived, language: default_language, ..normalized_config(n) });
}

pub open spec fn is_hex_digit(c: char) -> bool {
    ('0' <= c && c <= '9') || ('a' <= c && c <= 'f')
}

proof fn lemma_hex_digits(x: nat, n: nat)
    ensures
        hex_digits(x, n).len() == n,
        forall|i: int| 0 <= i < n ==> is_hex_digit(#[trigger] hex_digits(x, n)[i]),
    decreases n,
{
    if n > 0 {
        lemma_hex_digits(x / 16, (n - 1) as nat);
        let d = x % 16;
        assert(is_hex_digit(hex_char(d))) by {
            if d < 10 {
                assert((('0' as u32) + d) as char as int == 48 + d);
            } else {
                assert((('a' as u32) + d - 10) as char as int == 97 + d - 10);
            }
        }
        let h = hex_digits(x, n);
        assert forall|i: int| 0 <= i < n implies is_hex_digit(#[trigger] h[i]) by {
            if i < n - 1 {
                assert(h[i] == hex_digits(x / 16, (n - 1) as nat)[i]);
            }
        }
    }
}

/// A project's cache folder name is its folder name (or `project`), a dash
/// and sixteen lowercase hexadecimal digits of the root's hash, the same for
/// the same root every time.
pub proof fn law_cache_id_shape(root: Seq<char>)
    ensures
        ({
            let name = match file_name(root) {
                Some(n) => n,
                None => "project"@,
            };
            let id = cache_id(root);
            &&& id.len() == name.len() + 17
            &&& id.subrange(0, name.len() as int) == name
            &&& id[name.len() as int] == '-'
            &&& forall|i: int| name.len() + 1 <= i < id.len() ==> is_hex_digit(#[trigger] id[i])
        }),
{
    reveal_strlit("-");
    let name = match file_name(root) {
        Some(n) => n,
        None => "project"@,
    };
    let h = hex_digits(fnv1a64_spec(vstd::utf8::encode_utf8(root)) as nat, 16);
    lemma_hex_digits(fnv1a64_spec(vstd::utf8::encode_utf8(root)) as nat, 16);
    let id = cache_id(root);
    assert(id == name + "-"@ + h);
    assert(id.subrange(0, name.len() as int) =~= name);
    assert forall|i: int| name.len() + 1 <= i < id.len() implies is_hex_digit(#[trigger] id[i]) by {
        assert(id[i] == h[i - name.len() - 1]);
    }
}

} // verus!
