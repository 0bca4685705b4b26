//! Which platforms a scheme builds for, from its build settings or, failing
//! those, from the project file.
use vstd::prelude::*;

use crate::config::ProjectKind;
use crate::detect::{stem_or_empty, DetectedProject};
use crate::paths::{joined, parent, path_join, path_parent};
use crate::text::{
    chars_of, contains_lit, contains_sub, eq_lit, has_prefix, lines_of, push_all, push_lit,
    starts_with_lit, str_views, string_of, strip_prefix, strip_prefix_lit, text_lines, trim,
    trimmed, views, words, words_of,
};

verus! {

/// `acc` followed by the tokens it does not hold yet, each once, in order.
pub open spec fn add_unique(acc: Seq<Seq<char>>, toks: Seq<Seq<char>>) -> Seq<Seq<char>>
    decreases toks.len(),
{
    if toks.len() == 0 {
        acc
    } else {
        let a = add_unique(acc, toks.drop_last());
        if a.contains(toks.last()) {
            a
        } else {
            a.push(toks.last())
        }
    }
}

/// The platforms named on the `SUPPORTED_PLATFORMS = ` lines, each once, in
/// the order first seen.
pub open spec fn platforms_of_lines(lines: Seq<Seq<char>>) -> Seq<Seq<char>>
    decreases lines.len(),
{
    if lines.len() == 0 {
        Seq::empty()
    } else {
        let acc = platforms_of_lines(lines.drop_last());
        match strip_prefix(trimmed(lines.last()), "SUPPORTED_PLATFORMS = "@) {
            Some(rest) => add_unique(acc, words(rest)),
            None => acc,
        }
    }
}

pub open spec fn supported_platforms(text: Seq<char>) -> Seq<Seq<char>> {
    platforms_of_lines(text_lines(text))
}

fn contains_word(acc: &Vec<String>, w: &[char]) -> (b: bool)
    ensures
        b == str_views(acc@).contains(w@),
{
    let ghost av = str_views(acc@);
    let mut i: usize = 0;
    while i < acc.len()
        invariant
            av == str_views(acc@),
            i <= acc@.len(),
            forall|k: int| 0 <= k < i ==> av[k] != w@,
        decreases acc@.len() - i,
    {
        assert(av[i as int] == acc@[i as int]@);
        if crate::text::eq(chars_of(acc[i].as_str()).as_slice(), w) {
            return true;
        }
        i = i + 1;
    }
    false
}

fn add_unique_into(acc: &mut Vec<String>, toks: &Vec<Vec<char>>)
    ensures
        str_views(final(acc)@) == add_unique(str_views(old(acc)@), views(toks@)),
{
    let ghost a0 = str_views(acc@);
    let ghost tv = views(toks@);
    let mut i: usize = 0;
    assert(tv.subrange(0, 0) =~= Seq::<Seq<char>>::empty());
    while i < toks.len()
        invariant
            tv == views(toks@),
            i <= toks@.len(),
            str_views(acc@) == add_unique(a0, tv.subrange(0, i as int)),
        decreases toks@.len() - i,
    {
        assert(tv.subrange(0, i + 1).drop_last() =~= tv.subrange(0, i as int));
        assert(tv[i as int] == toks@[i as int]@);
        if !contains_word(acc, toks[i].as_slice()) {
            let ghost before = str_views(acc@);
            acc.push(string_of(toks[i].as_slice()));
            assert(str_views(acc@) =~= before.push(tv[i as int]));
        }
        i = i + 1;
    }
    assert(tv.subrange(0, tv.len() as int) =~= tv);
}

/// The platforms that `xcodebuild -showBuildSettings` reports, read from its
/// stdout and stderr joined by a newline.
pub fn supported_platforms_from_output(stdout: &str, stderr: &str) -> (r: Vec<String>)
    ensures
        str_views(r@) == supported_platforms(stdout@ + "\n"@ + stderr@),
{
    let mut text = chars_of(stdout);
    push_lit(&mut text, "\n");
    push_lit(&mut text, stderr);
    let lines = lines_of(text.as_slice());
    let ghost lv = views(lines@);
    let mut out: Vec<String> = Vec::new();
    let mut i: usize = 0;
    assert(lv.subrange(0, 0) =~= Seq::<Seq<char>>::empty());
    while i < lines.len()
        invariant
            lv == views(lines@),
            lv == text_lines(text@),
            i <= lines@.len(),
            str_views(out@) == platforms_of_lines(lv.subrange(0, i as int)),
        decreases lines@.len() - i,
    {
        assert(lv.subrange(0, i + 1).drop_last() =~= lv.subrange(0, i as int));
        assert(lv[i as int] == lines@[i as int]@);
        let t = trim(lines[i].as_slice());
        match strip_prefix_lit(t.as_slice(), "SUPPORTED_PLATFORMS = ") {
            Some(rest) => {
                let toks = words_of(rest.as_slice());
                add_unique_into(&mut out, &toks);
            },
            None => {},
        }
        i = i + 1;
    }
    assert(lv.subrange(0, lv.len() as int) =~= lv);
    out
}

pub open spec fn is_ios_platform(p: Seq<char>) -> bool {
    p == "iphoneos"@ || p == "iphonesimulator"@ || has_prefix(p, "iphoneos"@) || has_prefix(
        p,
        "iphonesimulator"@,
    )
}

/// Some platform is an iPhone device or simulator SDK.
pub fn platforms_support_ios(platforms: &Vec<String>) -> (b: bool)
    ensures
        b == exists|i: int| 0 <= i < platforms@.len() && is_ios_platform(#[trigger] platforms@[i]@),
{
    let mut i: usize = 0;
    while i < platforms.len()
        invariant
            i <= platforms@.len(),
            forall|k: int| 0 <= k < i ==> !is_ios_platform(#[trigger] platforms@[k]@),
        decreases platforms@.len() - i,
    {
        let p = chars_of(platforms[i].as_str());
        if eq_lit(p.as_slice(), "iphoneos") || eq_lit(p.as_slice(), "iphonesimulator")
            || starts_with_lit(p.as_slice(), "iphoneos") || starts_with_lit(
            p.as_slice(),
            "iphonesimulator",
        ) {
            assert(is_ios_platform(platforms@[i as int]@));
            return true;
        }
        i = i + 1;
    }
    false
}

pub open spec fn is_mac_platform(p: Seq<char>) -> bool {
    p == "macosx"@ || p == "macos"@
}

/// There are platforms, and all of them are macOS.
pub fn platforms_macos_only(platforms: &Vec<String>) -> (b: bool)
    ensures
        b == (platforms@.len() > 0 && forall|i: int|
            0 <= i < platforms@.len() ==> is_mac_platform(#[trigger] platforms@[i]@)),
{
    if platforms.len() == 0 {
        return false;
    }
    let mut i: usize = 0;
    while i < platforms.len()
        invariant
            i <= platforms@.len(),
            forall|k: int| 0 <= k < i ==> is_mac_platform(#[trigger] platforms@[k]@),
        decreases platforms@.len() - i,
    {
        let p = chars_of(platforms[i].as_str());
        if !(eq_lit(p.as_slice(), "macosx") || eq_lit(p.as_slice(), "macos")) {
            assert(!is_mac_platform(platforms@[i as int]@));
            return false;
        }
        i = i + 1;
    }
    true
}

/// The project file sets a macOS SDK and names no iOS SDK or device family.
pub open spec fn pbxproj_macos_only(text: Seq<char>) -> bool {
    let has_ios = contains_sub(text, "iphoneos"@) || contains_sub(text, "iphonesimulator"@)
        || contains_sub(text, "TARGETED_DEVICE_FAMILY"@);
    let has_mac = contains_sub(text, "SDKROOT = macosx"@) || contains_sub(
        text,
        "SUPPORTED_PLATFORMS = macosx"@,
    );
    has_mac && !has_ios
}

pub fn pbxproj_looks_macos_only(text: &str) -> (b: bool)
    ensures
        b == pbxproj_macos_only(text@),
{
    let v = chars_of(text);
    let s = v.as_slice();
    let has_ios = contains_lit(s, "iphoneos") || contains_lit(s, "iphonesimulator")
        || contains_lit(s, "TARGETED_DEVICE_FAMILY");
    let has_mac = contains_lit(s, "SDKROOT = macosx") || contains_lit(
        s,
        "SUPPORTED_PLATFORMS = macosx",
    );
    has_mac && !has_ios
}

/// For a workspace, the project file of the project named like it beside it.
pub open spec fn sibling_pbxproj(path: Seq<char>) -> Option<Seq<char>> {
    match parent(path) {
        Some(p) => Some(joined(p, stem_or_empty(path) + ".xcodeproj/project.pbxproj"@)),
        None => None,
    }
}

/// The project file to read: inside a project; for a workspace, the sibling
/// project's when that file exists, else one inside the workspace folder.
pub open spec fn pbxproj_at(kind: ProjectKind, path: Seq<char>, sibling_is_file: bool) -> Seq<char> {
    match kind {
        ProjectKind::Project => joined(path, "project.pbxproj"@),
        ProjectKind::Workspace => match sibling_pbxproj(path) {
            Some(s) => if sibling_is_file {
                s
            } else {
                joined(path, "project.pbxproj"@)
            },
            None => joined(path, "project.pbxproj"@),
        },
    }
}

/// The sibling project file of a workspace (see `sibling_pbxproj`).
pub fn sibling_pbxproj_path(project: &DetectedProject) -> (r: Option<String>)
    ensures
        crate::text::opt_view(r) == sibling_pbxproj(project.path@),
{
    match path_parent(project.path.as_str()) {
        Some(p) => {
            let mut rel = match crate::paths::path_file_stem(project.path.as_str()) {
                Some(s) => chars_of(s.as_str()),
                None => Vec::new(),
            };
            push_lit(&mut rel, ".xcodeproj/project.pbxproj");
            let rs = string_of(rel.as_slice());
            Some(path_join(p.as_str(), rs.as_str()))
        },
        None => None,
    }
}

/// The project file whose text decides when the build settings name no platform.
pub fn pbxproj_path(project: &DetectedProject, sibling_is_file: bool) -> (r: String)
    ensures
        r@ == pbxproj_at(project.kind, project.path@, sibling_is_file),
{
    match project.kind {
        ProjectKind::Project => path_join(project.path.as_str(), "project.pbxproj"),
        ProjectKind::Workspace => match sibling_pbxproj_path(project) {
            Some(s) => if sibling_is_file {
                s
            } else {
                path_join(project.path.as_str(), "project.pbxproj")
            },
            None => path_join(project.path.as_str(), "project.pbxproj"),
        },
    }
}

/// macOS only: by the build settings' platforms when there are any, else by
/// the project file's text (not macOS only when there is no such file).
pub open spec fn macos_only(platforms: Seq<Seq<char>>, pbxproj: Option<Seq<char>>) -> bool {
    if platforms.len() > 0 {
        forall|i: int| 0 <= i < platforms.len() ==> is_mac_platform(#[trigger] platforms[i])
    } else {
        match pbxproj {
            Some(t) => pbxproj_macos_only(t),
            None => false,
        }
    }
}

/// Whether the scheme only runs on macOS, from its reported platforms and the
/// project file's text (`None` when that file does not exist).
pub fn scheme_is_macos_only(platforms: &Vec<String>, pbxproj_text: Option<&str>) -> (b: bool)
    ensures
        b == macos_only(str_views(platforms@), crate::bootstrap::opt_text(pbxproj_text)),
{
    if platforms.len() > 0 {
        let r = platforms_macos_only(platforms);
        assert(forall|i: int|
            0 <= i < platforms@.len() ==> str_views(platforms@)[i] == #[trigger] platforms@[i]@);
        return r;
    }
    match pbxproj_text {
        Some(t) => pbxproj_looks_macos_only(t),
        None => false,
    }
}

pub open spec fn distinct(s: Seq<Seq<char>>) -> bool {
    forall|i: int, j: int| 0 <= i < j < s.len() ==> s[i] != s[j]
}

proof fn lemma_add_unique_distinct(acc: Seq<Seq<char>>, toks: Seq<Seq<char>>)
    requires
        distinct(acc),
    ensures
        distinct(add_unique(acc, toks)),
    decreases toks.len(),
{
    if toks.len() > 0 {
        lemma_add_unique_distinct(acc, toks.drop_last());
        let a = add_unique(acc, toks.drop_last());
        if !a.contains(toks.last()) {
            let b = a.push(toks.last());
            assert forall|i: int, j: int| 0 <= i < j < b.len() implies b[i] != b[j] by {
                if j == b.len() - 1 {
                    assert(b[i] == a[i]);
                } else {
                    assert(b[i] == a[i] && b[j] == a[j]);
                }
            }
        }
    }
}

/// Each platform is reported once, however often the build settings name it.
pub proof fn law_platforms_reported_once(lines: Seq<Seq<char>>)
    ensures
        distinct(platforms_of_lines(lines)),
    decreases lines.len(),
{
    if lines.len() > 0 {
        law_platforms_reported_once(lines.drop_last());
        let acc = platforms_of_lines(lines.drop_last());
        match strip_prefix(trimmed(lines.last()), "SUPPORTED_PLATFORMS = "@) {
            Some(rest) => lemma_add_unique_distinct(acc, words(rest)),
            None => {},
        }
    }
}

} // verus!
