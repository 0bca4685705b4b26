//! Finding the Xcode workspace or project in an opened folder, and picking
//! its scheme.
use vstd::prelude::*;

use crate::config::{ProjectKind, RunnerConfig, RunnerConfigView};
use crate::global_store::GlobalDefaults;
use crate::paths::{components, extension, file_name, file_stem};
use crate::text::{chars_of, eq, eq_lit, has_prefix, has_suffix, starts_with_lit, str_views, string_of};

verus! {

#[derive(Debug, Clone)]
pub struct DetectedProject {
    pub kind: ProjectKind,
    pub path: String,
    pub has_podfile: bool,
    pub has_package_swift: bool,
}

/// Why no project could be used.
#[derive(Debug, Clone, Copy, PartialEq, Eq, Structural)]
pub enum DetectError {
    /// A `Podfile` but no `.xcworkspace` (CocoaPods has not run yet).
    PodfileWithoutWorkspace,
    /// Neither a `.xcworkspace` nor a `.xcodeproj`.
    NoXcodeProject,
}

impl DetectError {
    pub fn message(&self) -> (s: &'static str)
        ensures
            s@ == (match *self {
                DetectError::PodfileWithoutWorkspace => "Podfile found but no .xcworkspace. Run `pod install` to generate the workspace."@,
                DetectError::NoXcodeProject => "no .xcworkspace or .xcodeproj found. Open the directory that contains your Xcode project."@,
            }),
    {
        match self {
            DetectError::PodfileWithoutWorkspace => "Podfile found but no .xcworkspace. Run `pod install` to generate the workspace.",
            DetectError::NoXcodeProject => "no .xcworkspace or .xcodeproj found. Open the directory that contains your Xcode project.",
        }
    }
}

/// A walked path is a candidate `.<ext>` bundle: the extension matches, no
/// component is `Pods`, and a workspace is not the one embedded in a project.
pub open spec fn is_candidate(p: Seq<char>, ext: Seq<char>, skip_embedded: bool) -> bool {
    &&& extension(p) == Some(ext)
    &&& !components(p).contains("Pods"@)
    &&& (skip_embedded ==> file_name(p) != Some("project.xcworkspace"@))
}

/// Byte length of the file name (0 when there is none).
pub open spec fn name_len(p: Seq<char>) -> nat {
    match file_name(p) {
        Some(n) => vstd::utf8::encode_utf8(n).len(),
        None => 0,
    }
}

/// The candidate with the longest file name; among equally long ones, the
/// last walked (what sorting by length and taking the last gives).
pub open spec fn best_candidate(paths: Seq<Seq<char>>, ext: Seq<char>, skip_embedded: bool) -> Option<int>
    decreases paths.len(),
{
    if paths.len() == 0 {
        None
    } else {
        let prev = best_candidate(paths.drop_last(), ext, skip_embedded);
        if is_candidate(paths.last(), ext, skip_embedded) && (match prev {
            Some(j) => name_len(paths[j]) <= name_len(paths.last()),
            None => true,
        }) {
            Some(paths.len() - 1)
        } else {
            prev
        }
    }
}

fn has_pods_component(p: &[char]) -> (b: bool)
    ensures
        b == components(p@).contains("Pods"@),
{
    let c = crate::paths::component_list_of(p);
    let ghost cs = crate::text::views(c@);
    let mut i: usize = 0;
    while i < c.len()
        invariant
            cs == crate::text::views(c@),
            cs == components(p@),
            i <= c@.len(),
            forall|k: int| 0 <= k < i ==> cs[k] != "Pods"@,
        decreases c@.len() - i,
    {
        assert(cs[i as int] == c@[i as int]@);
        if eq_lit(c[i].as_slice(), "Pods") {
            return true;
        }
        i = i + 1;
    }
    false
}

fn candidate(path: &str, ext: &str, skip_embedded: bool) -> (b: bool)
    ensures
        b == is_candidate(path@, ext@, skip_embedded),
{
    let ok_ext = match crate::paths::path_extension(path) {
        Some(e) => eq_lit(chars_of(e.as_str()).as_slice(), ext),
        None => false,
    };
    if !ok_ext {
        return false;
    }
    if has_pods_component(chars_of(path).as_slice()) {
        return false;
    }
    if skip_embedded {
        match crate::paths::path_file_name(path) {
            Some(n) => !eq_lit(chars_of(n.as_str()).as_slice(), "project.xcworkspace"),
            None => true,
        }
    } else {
        true
    }
}

fn file_name_len(path: &str) -> (n: usize)
    ensures
        n == name_len(path@),
{
    match crate::paths::path_file_name(path) {
        Some(name) => name.as_str().as_bytes().len(),
        None => 0,
    }
}

/// The walked path chosen for `ext`, if any (see `best_candidate`).
pub fn find_xcode_file(paths: &Vec<String>, ext: &str, skip_embedded: bool) -> (r: Option<String>)
    ensures
        match best_candidate(str_views(paths@), ext@, skip_embedded) {
            Some(i) => r matches Some(p) && p@ == str_views(paths@)[i],
            None => r is None,
        },
{
    let ghost ps = str_views(paths@);
    let mut best: Option<usize> = None;
    let mut best_len: usize = 0;
    let mut i: usize = 0;
    assert(ps.subrange(0, 0).len() == 0);
    while i < paths.len()
        invariant
            ps == str_views(paths@),
            i <= paths@.len(),
            best_candidate(ps.subrange(0, i as int), ext@, skip_embedded) == match best {
                Some(j) => Some(j as int),
                None => None::<int>,
            },
            best matches Some(j) ==> j < i && best_len == name_len(ps[j as int]),
        decreases paths@.len() - i,
    {
        let ghost next = ps.subrange(0, i + 1);
        assert(next.drop_last() =~= ps.subrange(0, i as int));
        assert(next.last() == paths@[i as int]@);
        assert(forall|k: int| 0 <= k < i ==> next[k] == ps[k]);
        if candidate(paths[i].as_str(), ext, skip_embedded) {
            let len = file_name_len(paths[i].as_str());
            let better = match best {
                Some(_) => best_len <= len,
                None => true,
            };
            if better {
                best = Some(i);
                best_len = len;
            }
        }
        i = i + 1;
    }
    assert(ps.subrange(0, paths@.len() as int) =~= ps);
    match best {
        Some(j) => Some(paths[j].clone()),
        None => None,
    }
}

/// The project the opened folder holds: with a `Podfile` its workspace (which
/// must exist), else a workspace, else a `.xcodeproj`. `paths` are the paths
/// found up to three levels below the folder, in walk order.
pub open spec fn detected(has_podfile: bool, paths: Seq<Seq<char>>) -> Result<(ProjectKind, Seq<char>), DetectError> {
    let ws = best_candidate(paths, "xcworkspace"@, true);
    let proj = best_candidate(paths, "xcodeproj"@, false);
    if has_podfile {
        match ws {
            Some(i) => Ok((ProjectKind::Workspace, paths[i])),
            None => Err(DetectError::PodfileWithoutWorkspace),
        }
    } else {
        match ws {
            Some(i) => Ok((ProjectKind::Workspace, paths[i])),
            None => match proj {
                Some(i) => Ok((ProjectKind::Project, paths[i])),
                None => Err(DetectError::NoXcodeProject),
            },
        }
    }
}

pub fn detect_project(has_podfile: bool, has_package_swift: bool, paths: &Vec<String>) -> (r: Result<DetectedProject, DetectError>)
    ensures
        match detected(has_podfile, str_views(paths@)) {
            Ok((kind, p)) => r matches Ok(d) && d.kind == kind && d.path@ == p && d.has_podfile
                == has_podfile && d.has_package_swift == has_package_swift,
            Err(e) => r == Err::<DetectedProject, DetectError>(e),
        },
{
    match find_xcode_file(paths, "xcworkspace", true) {
        Some(ws) => {
            return Ok(
                DetectedProject {
                    kind: ProjectKind::Workspace,
                    path: ws,
                    has_podfile,
                    has_package_swift,
                },
            );
        },
        None => {},
    }
    if has_podfile {
        return Err(DetectError::PodfileWithoutWorkspace);
    }
    match find_xcode_file(paths, "xcodeproj", false) {
        Some(proj) => Ok(
            DetectedProject { kind: ProjectKind::Project, path: proj, has_podfile, has_package_swift },
        ),
        None => Err(DetectError::NoXcodeProject),
    }
}

/// The scheme-name stem of a project path (empty when it has none).
pub open spec fn stem_or_empty(path: Seq<char>) -> Seq<char> {
    match file_stem(path) {
        Some(s) => s,
        None => Seq::empty(),
    }
}

pub open spec fn not_pods(s: Seq<char>) -> bool {
    !has_prefix(s, "Pods-"@)
}

pub open spec fn related_to(s: Seq<char>, stem: Seq<char>) -> bool {
    not_pods(s) && (s == stem || has_prefix(s, stem))
}

pub open spec fn keep_not_pods(s: Seq<Seq<char>>) -> Seq<Seq<char>>
    decreases s.len(),
{
    if s.len() == 0 {
        s
    } else if not_pods(s.last()) {
        keep_not_pods(s.drop_last()).push(s.last())
    } else {
        keep_not_pods(s.drop_last())
    }
}

pub open spec fn keep_related(s: Seq<Seq<char>>, stem: Seq<char>) -> Seq<Seq<char>>
    decreases s.len(),
{
    if s.len() == 0 {
        s
    } else if related_to(s.last(), stem) {
        keep_related(s.drop_last(), stem).push(s.last())
    } else {
        keep_related(s.drop_last(), stem)
    }
}

/// Schemes named after the project (drops unrelated Pods deps like
/// AFNetworking); all non-`Pods-` schemes when none is.
pub open spec fn filtered_schemes(schemes: Seq<Seq<char>>, path: Seq<char>) -> Seq<Seq<char>> {
    let related = keep_related(schemes, stem_or_empty(path));
    if related.len() == 0 {
        keep_not_pods(schemes)
    } else {
        related
    }
}

fn stem_chars(path: &str) -> (v: Vec<char>)
    ensures
        v@ == stem_or_empty(path@),
{
    match crate::paths::path_file_stem(path) {
        Some(s) => chars_of(s.as_str()),
        None => Vec::new(),
    }
}

fn clone_string(s: &String) -> (r: String)
    ensures
        r@ == s@,
{
    s.clone()
}

/// Schemes tied to this workspace/project name (drops unrelated Pods deps like AFNetworking).
pub fn filter_schemes_for_project(schemes: &Vec<String>, project: &DetectedProject) -> (r: Vec<String>)
    ensures
        str_views(r@) == filtered_schemes(str_views(schemes@), project.path@),
{
    let stem = stem_chars(project.path.as_str());
    let ghost ss = str_views(schemes@);
    let mut related: Vec<String> = Vec::new();
    let mut plain: Vec<String> = Vec::new();
    let mut i: usize = 0;
    assert(ss.subrange(0, 0).len() == 0);
    while i < schemes.len()
        invariant
            ss == str_views(schemes@),
            stem@ == stem_or_empty(project.path@),
            i <= schemes@.len(),
            str_views(related@) == keep_related(ss.subrange(0, i as int), stem@),
            str_views(plain@) == keep_not_pods(ss.subrange(0, i as int)),
        decreases schemes@.len() - i,
    {
        let ghost next = ss.subrange(0, i + 1);
        assert(next.drop_last() =~= ss.subrange(0, i as int));
        assert(next.last() == schemes@[i as int]@);
        let s = chars_of(schemes[i].as_str());
        let np = !starts_with_lit(s.as_slice(), "Pods-");
        if np {
            let ghost before = str_views(plain@);
            plain.push(clone_string(&schemes[i]));
            assert(str_views(plain@) =~= before.push(s@));
        }
        if np && (eq(s.as_slice(), stem.as_slice()) || crate::text::starts_with(
            s.as_slice(),
            stem.as_slice(),
        )) {
            let ghost before = str_views(related@);
            related.push(clone_string(&schemes[i]));
            assert(str_views(related@) =~= before.push(s@));
        }
        i = i + 1;
    }
    assert(ss.subrange(0, schemes@.len() as int) =~= ss);
    if related.len() == 0 {
        plain
    } else {
        related
    }
}

pub open spec fn is_test_scheme(s: Seq<char>) -> bool {
    has_suffix(s, "Tests"@) || has_suffix(s, "UITests"@)
}

/// The default scheme: the one named like the project, else the first
/// filtered scheme that is not a test scheme, else the first filtered one;
/// none when the project path has no stem.
pub open spec fn default_scheme(schemes: Seq<Seq<char>>, path: Seq<char>) -> Option<Seq<char>> {
    let filtered = filtered_schemes(schemes, path);
    match file_stem(path) {
        None => None,
        Some(stem) => if filtered.contains(stem) {
            Some(stem)
        } else if exists|i: int| 0 <= i < filtered.len() && !is_test_scheme(filtered[i]) {
            Some(
                filtered[choose|i: int|
                    0 <= i < filtered.len() && !is_test_scheme(filtered[i]) && forall|j: int|
                        0 <= j < i ==> is_test_scheme(filtered[j])],
            )
        } else if filtered.len() > 0 {
            Some(filtered[0])
        } else {
            None
        },
    }
}

pub fn pick_default_scheme(schemes: &Vec<String>, project: &DetectedProject) -> (r: Option<String>)
    ensures
        crate::text::opt_view(r) == default_scheme(str_views(schemes@), project.path@),
{
    let filtered = filter_schemes_for_project(schemes, project);
    let ghost fs = str_views(filtered@);
    let stem = match crate::paths::path_file_stem(project.path.as_str()) {
        Some(s) => s,
        None => {
            return None;
        },
    };
    let sc = chars_of(stem.as_str());
    let mut i: usize = 0;
    while i < filtered.len()
        invariant
            fs == str_views(filtered@),
            fs == filtered_schemes(str_views(schemes@), project.path@),
            file_stem(project.path@) == Some(stem@),
            sc@ == stem@,
            i <= filtered@.len(),
            forall|k: int| 0 <= k < i ==> fs[k] != stem@,
        decreases filtered@.len() - i,
    {
        assert(fs[i as int] == filtered@[i as int]@);
        if eq(chars_of(filtered[i].as_str()).as_slice(), sc.as_slice()) {
            assert(fs.contains(stem@));
            return Some(stem);
        }
        i = i + 1;
    }
    assert(!fs.contains(stem@));
    let mut k: usize = 0;
    while k < filtered.len()
        invariant
            fs == str_views(filtered@),
            fs == filtered_schemes(str_views(schemes@), project.path@),
            file_stem(project.path@) == Some(stem@),
            !fs.contains(stem@),
            k <= filtered@.len(),
            forall|j: int| 0 <= j < k ==> is_test_scheme(fs[j]),
        decreases filtered@.len() - k,
    {
        assert(fs[k as int] == filtered@[k as int]@);
        let s = chars_of(filtered[k].as_str());
        if !crate::text::ends_with_lit(s.as_slice(), "Tests") && !crate::text::ends_with_lit(
            s.as_slice(),
            "UITests",
        ) {
            let ghost w = k as int;
            let ghost c = choose|i: int|
                0 <= i < fs.len() && !is_test_scheme(fs[i]) && forall|j: int|
                    0 <= j < i ==> is_test_scheme(fs[j]);
            assert(0 <= w < fs.len() && !is_test_scheme(fs[w]));
            assert(c == w) by {
                if c < w {
                    assert(is_test_scheme(fs[c]));
                }
                if w < c {
                    assert(is_test_scheme(fs[w]));
                }
            }
            return Some(clone_string(&filtered[k]));
        }
        k = k + 1;
    }
    if filtered.len() > 0 {
        assert(fs[0] == filtered@[0]@);
        Some(clone_string(&filtered[0]))
    } else {
        None
    }
}

/// A new config for a detected project: the scheme and destination chosen,
/// the switches of the global defaults, `IOS_RUNNER_LANG` or the default
/// language, Debug, no team.
pub open spec fn new_config_view(
    kind: ProjectKind,
    rel_path: Seq<char>,
    scheme: Seq<char>,
    destination: Seq<char>,
    derived: Seq<char>,
    defaults: crate::global_store::GlobalDefaultsView,
    env_lang: Option<Seq<char>>,
) -> RunnerConfigView {
    RunnerConfigView {
        kind,
        path: rel_path,
        scheme,
        configuration: "Debug"@,
        destination,
        derived_data: derived,
        xcbeautify: defaults.xcbeautify,
        resolve_packages_before_build: defaults.resolve_packages_before_build,
        bring_simulator_to_foreground: defaults.bring_simulator_to_foreground,
        development_team: None,
        language: match env_lang {
            Some(l) => l,
            None => defaults.language,
        },
    }
}

/// The config `create_config` writes once the scheme and destination are known.
pub fn new_project_config(
    project: &DetectedProject,
    root: &str,
    scheme: String,
    destination: String,
    derived: String,
    defaults: &GlobalDefaults,
    env_lang: Option<&str>,
) -> (c: RunnerConfig)
    ensures
        c@ == new_config_view(
            project.kind,
            crate::paths::relative_to(project.path@, root@),
            scheme@,
            destination@,
            derived@,
            defaults@,
            crate::bootstrap::opt_text(env_lang),
        ),
{
    RunnerConfig {
        kind: project.kind,
        path: crate::paths::relative_path(project.path.as_str(), root),
        scheme,
        configuration: crate::config::default_configuration(),
        destination,
        derived_data: derived,
        xcbeautify: defaults.xcbeautify,
        resolve_packages_before_build: defaults.resolve_packages_before_build,
        bring_simulator_to_foreground: defaults.bring_simulator_to_foreground,
        development_team: None,
        language: match env_lang {
            Some(l) => string_of(chars_of(l).as_slice()),
            None => clone_string(&defaults.language),
        },
    }
}

proof fn lemma_keep_not_pods(s: Seq<Seq<char>>)
    ensures
        forall|i: int| 0 <= i < keep_not_pods(s).len() ==> s.contains(#[trigger] keep_not_pods(s)[i])
            && not_pods(keep_not_pods(s)[i]),
    decreases s.len(),
{
    if s.len() > 0 {
        lemma_keep_not_pods(s.drop_last());
        let r = keep_not_pods(s.drop_last());
        assert forall|i: int| 0 <= i < r.len() implies s.contains(#[trigger] r[i]) by {
            let j = choose|j: int| 0 <= j < s.drop_last().len() && s.drop_last()[j] == r[i];
            assert(s[j] == r[i]);
        }
        assert(s[s.len() - 1] == s.last());
    }
}

proof fn lemma_keep_related(s: Seq<Seq<char>>, stem: Seq<char>)
    ensures
        forall|i: int| 0 <= i < keep_related(s, stem).len() ==> s.contains(
            #[trigger] keep_related(s, stem)[i],
        ) && not_pods(keep_related(s, stem)[i]),
    decreases s.len(),
{
    if s.len() > 0 {
        lemma_keep_related(s.drop_last(), stem);
        let r = keep_related(s.drop_last(), stem);
        assert forall|i: int| 0 <= i < r.len() implies s.contains(#[trigger] r[i]) by {
            let j = choose|j: int| 0 <= j < s.drop_last().len() && s.drop_last()[j] == r[i];
            assert(s[j] == r[i]);
        }
        assert(s[s.len() - 1] == s.last());
    }
}

/// Every scheme offered for a project is one of the listed schemes, and none
/// is a CocoaPods `Pods-` scheme.
pub proof fn law_filtered_schemes_are_listed_app_schemes(schemes: Seq<Seq<char>>, path: Seq<char>)
    ensures
        forall|i: int|
            0 <= i < filtered_schemes(schemes, path).len() ==> schemes.contains(
                #[trigger] filtered_schemes(schemes, path)[i],
            ) && !has_prefix(filtered_schemes(schemes, path)[i], "Pods-"@),
{
    lemma_keep_not_pods(schemes);
    lemma_keep_related(schemes, stem_or_empty(path));
}

/// The default scheme, when there is one, is among the schemes offered for
/// the project, so it is never a `Pods-` scheme.
pub proof fn law_default_scheme_is_offered(schemes: Seq<Seq<char>>, path: Seq<char>)
    ensures
        default_scheme(schemes, path) matches Some(s) ==> filtered_schemes(schemes, path).contains(s)
            && schemes.contains(s) && !has_prefix(s, "Pods-"@),
{
    law_filtered_schemes_are_listed_app_schemes(schemes, path);
    let f = filtered_schemes(schemes, path);
    match file_stem(path) {
        None => {},
        Some(stem) => {
            if f.contains(stem) {
            } else if exists|i: int| 0 <= i < f.len() && !is_test_scheme(f[i]) {
                let c = choose|i: int|
                    0 <= i < f.len() && !is_test_scheme(f[i]) && forall|j: int|
                        0 <= j < i ==> is_test_scheme(f[j]);
                let w = choose|i: int| 0 <= i < f.len() && !is_test_scheme(f[i]);
                assert(exists|i: int|
                    0 <= i < f.len() && !is_test_scheme(f[i]) && forall|j: int|
                        0 <= j < i ==> is_test_scheme(f[j])) by {
                    lemma_first_non_test(f, w);
                }
                assert(f[c] == f[c] && 0 <= c < f.len());
                assert(f.contains(f[c]));
            } else if f.len() > 0 {
                assert(f.contains(f[0]));
            }
        },
    }
    match default_scheme(schemes, path) {
        Some(s) => {
            let i = choose|i: int| 0 <= i < f.len() && f[i] == s;
            assert(schemes.contains(f[i]));
        },
        None => {},
    }
}

proof fn lemma_first_non_test(f: Seq<Seq<char>>, w: int)
    requires
        0 <= w < f.len(),
        !is_test_scheme(f[w]),
    ensures
        exists|i: int|
            0 <= i < f.len() && !is_test_scheme(f[i]) && forall|j: int|
                0 <= j < i ==> is_test_scheme(f[j]),
    decreases w,
{
    if exists|k: int| 0 <= k < w && !is_test_scheme(f[k]) {
        let k = choose|k: int| 0 <= k < w && !is_test_scheme(f[k]);
        lemma_first_non_test(f, k);
    } else {
        assert(forall|j: int| 0 <= j < w ==> is_test_scheme(f[j]));
    }
}

/// The tasks folder of a project: the folder that holds the project file.
pub fn project_tasks_root(root: &str, project: &DetectedProject) -> (r: String)
    ensures
        r@ == crate::paths::parent_or(project.path@, root@),
{
    crate::paths::path_parent_or(project.path.as_str(), root)
}

proof fn lemma_best_candidate(paths: Seq<Seq<char>>, ext: Seq<char>, skip_embedded: bool)
    ensures
        best_candidate(paths, ext, skip_embedded) matches Some(i) ==> 0 <= i < paths.len()
            && is_candidate(paths[i], ext, skip_embedded) && forall|j: int|
            0 <= j < paths.len() && is_candidate(#[trigger] paths[j], ext, skip_embedded) ==> name_len(
                paths[j],
            ) <= name_len(paths[i]),
        best_candidate(paths, ext, skip_embedded) is None ==> forall|j: int|
            0 <= j < paths.len() ==> !is_candidate(#[trigger] paths[j], ext, skip_embedded),
    decreases paths.len(),
{
    if paths.len() > 0 {
        let t = paths.drop_last();
        lemma_best_candidate(t, ext, skip_embedded);
        assert(forall|j: int| 0 <= j < t.len() ==> t[j] == paths[j]);
    }
}

/// The detected project is one of the walked paths: a workspace (not one
/// inside `Pods`, nor the one embedded in a project) whenever there is one,
/// with the longest name; else, without a `Podfile`, a `.xcodeproj` outside
/// `Pods` with the longest name. A `Podfile` without a workspace is an error.
pub proof fn law_detected_project(has_podfile: bool, paths: Seq<Seq<char>>)
    ensures
        detected(has_podfile, paths) matches Ok((kind, p)) ==> (paths.contains(p) && !components(
            p,
        ).contains("Pods"@) && (kind == ProjectKind::Workspace ==> extension(p) == Some(
            "xcworkspace"@,
        ) && file_name(p) != Some("project.xcworkspace"@)) && (kind == ProjectKind::Project
            ==> extension(p) == Some("xcodeproj"@) && !has_podfile)),
        (exists|i: int|
            0 <= i < paths.len() && extension(#[trigger] paths[i]) == Some("xcworkspace"@)
                && !components(paths[i]).contains("Pods"@) && file_name(paths[i]) != Some(
                "project.xcworkspace"@,
            )) ==> (detected(has_podfile, paths) matches Ok((kind, p)) && kind
            == ProjectKind::Workspace && forall|j: int|
            0 <= j < paths.len() && extension(#[trigger] paths[j]) == Some("xcworkspace"@)
                && !components(paths[j]).contains("Pods"@) && file_name(paths[j]) != Some(
                "project.xcworkspace"@,
            ) ==> name_len(paths[j]) <= name_len(p)),
        detected(has_podfile, paths) == Err::<(ProjectKind, Seq<char>), DetectError>(
            DetectError::PodfileWithoutWorkspace,
        ) ==> has_podfile,
{
    lemma_best_candidate(paths, "xcworkspace"@, true);
    lemma_best_candidate(paths, "xcodeproj"@, false);
    match detected(has_podfile, paths) {
        Ok((kind, p)) => {
            let i = if kind == ProjectKind::Workspace {
                best_candidate(paths, "xcworkspace"@, true).unwrap()
            } else {
                best_candidate(paths, "xcodeproj"@, false).unwrap()
            };
            assert(paths[i] == p);
        },
        Err(_) => {},
    }
    if exists|i: int|
        0 <= i < paths.len() && extension(#[trigger] paths[i]) == Some("xcworkspace"@)
            && !components(paths[i]).contains("Pods"@) && file_name(paths[i]) != Some(
            "project.xcworkspace"@,
        ) {
        let i = choose|i: int|
            0 <= i < paths.len() && extension(#[trigger] paths[i]) == Some("xcworkspace"@)
                && !components(paths[i]).contains("Pods"@) && file_name(paths[i]) != Some(
                "project.xcworkspace"@,
            );
        assert(is_candidate(paths[i], "xcworkspace"@, true));
    }
}

} // verus!
