//! Where the built app is and what it is called, from the output of
//! `xcodebuild -showBuildSettings -json`.
use vstd::prelude::*;

use crate::paths::{joined, path_join};
use crate::text::{chars_of, find, find_char, owned, push_lit, rfind, rfind_char, slice_of, string_of};

verus! {

/// Whether a text is one JSON document, as `serde_json` parses it.
pub uninterp spec fn json_parses(s: Seq<char>) -> bool;

/// `serde_json::from_str::<serde_json::Value>`, reduced to whether it
/// succeeds: the result is `json_parses` of the text. The JSON grammar that
/// decides it is not stated.
#[verifier::external_body]
fn parses_as_json(s: &str) -> (b: bool)
    ensures
        b == json_parses(s@),
{
    serde_json::from_str::<serde_json::Value>(s).is_ok()
}

/// The first `{` (else the first `[`) and the last `}` (else the last `]`).
pub open spec fn payload_bounds(o: Seq<char>) -> Option<(int, int)> {
    let start = match find_char(o, '{') {
        Some(i) => Some(i),
        None => find_char(o, '['),
    };
    let end = match rfind_char(o, '}') {
        Some(i) => Some(i),
        None => rfind_char(o, ']'),
    };
    match (start, end) {
        (Some(s), Some(e)) => Some((s, e)),
        _ => None,
    }
}

/// Slicing from the start to the end would run backwards (`str` indexing panics).
pub open spec fn slice_backwards(o: Seq<char>) -> bool {
    match payload_bounds(o) {
        Some((s, e)) => s > e + 1,
        None => false,
    }
}

/// The JSON in the output: all of it when it parses, else the text from the
/// start bracket through the end bracket.
pub open spec fn payload(o: Seq<char>, parses: bool) -> Option<Seq<char>> {
    if parses {
        Some(o)
    } else {
        match payload_bounds(o) {
            Some((s, e)) => Some(o.subrange(s, e + 1)),
            None => None,
        }
    }
}

/// The JSON payload of the output, given whether the whole output parses.
pub fn json_payload_from(output: &str, parses: bool) -> (r: Option<String>)
    requires
        parses || !slice_backwards(output@),
    ensures
        crate::text::opt_view(r) == payload(output@, parses),
{
    if parses {
        return Some(owned(output));
    }
    let v = chars_of(output);
    let start = match find(v.as_slice(), '{') {
        Some(i) => i,
        None => match find(v.as_slice(), '[') {
            Some(i) => i,
            None => {
                return None;
            },
        },
    };
    let end = match rfind(v.as_slice(), '}') {
        Some(i) => i,
        None => match rfind(v.as_slice(), ']') {
            Some(i) => i,
            None => {
                return None;
            },
        },
    };
    let n = v.len();
    assert(end < n);
    Some(string_of(slice_of(v.as_slice(), start, end + 1).as_slice()))
}

/// The JSON payload of `-showBuildSettings` output; `None` inside when there
/// is none, and `None` outside for the outputs on which slicing would run
/// backwards.
pub fn extract_json_payload(output: &str) -> (r: Option<Option<String>>)
    ensures
        match r {
            Some(p) => !(!json_parses(output@) && slice_backwards(output@))
                && crate::text::opt_view(p) == payload(output@, json_parses(output@)),
            None => !json_parses(output@) && slice_backwards(output@),
        },
{
    let parses = parses_as_json(output);
    if !parses {
        let v = chars_of(output);
        let start = match find(v.as_slice(), '{') {
            Some(i) => Some(i),
            None => find(v.as_slice(), '['),
        };
        let end = match rfind(v.as_slice(), '}') {
            Some(i) => Some(i),
            None => rfind(v.as_slice(), ']'),
        };
        match (start, end) {
            (Some(s), Some(e)) => {
                if s > e && s - e > 1 {
                    return None;
                }
            },
            _ => {},
        }
    }
    Some(json_payload_from(output, parses))
}

/// The launch settings of the first target (`buildSettings` of the first entry).
#[derive(Debug, Clone)]
pub struct BuildSettings {
    pub target_build_dir: Option<String>,
    pub wrapper_name: Option<String>,
    pub full_product_name: Option<String>,
    pub product_name: Option<String>,
    pub product_bundle_identifier: Option<String>,
}

/// Launch-related paths from `xcodebuild -showBuildSettings -json`.
#[derive(Debug, Clone)]
pub struct LaunchArtifacts {
    pub app_path: String,
    pub bundle_identifier: String,
}

/// Why the built app cannot be launched.
#[derive(Debug, Clone)]
pub enum LaunchError {
    NoSettings,
    MissingTargetBuildDir,
    MissingProductName,
    AppNotFound(String),
    MissingBundleId,
}

impl LaunchError {
    pub fn message(&self) -> (s: String)
        ensures
            s@ == match *self {
                LaunchError::NoSettings => "empty showBuildSettings (wrong scheme or destination?)"@,
                LaunchError::MissingTargetBuildDir => "TARGET_BUILD_DIR missing"@,
                LaunchError::MissingProductName => "WRAPPER_NAME / FULL_PRODUCT_NAME / PRODUCT_NAME missing in build settings"@,
                LaunchError::AppNotFound(p) => "app not found at "@ + p@ + " (build first?)"@,
                LaunchError::MissingBundleId => "PRODUCT_BUNDLE_IDENTIFIER missing"@,
            },
    {
        match self {
            LaunchError::NoSettings => owned("empty showBuildSettings (wrong scheme or destination?)"),
            LaunchError::MissingTargetBuildDir => owned("TARGET_BUILD_DIR missing"),
            LaunchError::MissingProductName => owned(
                "WRAPPER_NAME / FULL_PRODUCT_NAME / PRODUCT_NAME missing in build settings",
            ),
            LaunchError::AppNotFound(p) => {
                let mut r = chars_of("app not found at ");
                push_lit(&mut r, p.as_str());
                push_lit(&mut r, " (build first?)");
                string_of(r.as_slice())
            },
            LaunchError::MissingBundleId => owned("PRODUCT_BUNDLE_IDENTIFIER missing"),
        }
    }
}

/// The app bundle's name: `WRAPPER_NAME`, else `FULL_PRODUCT_NAME`, else
/// `PRODUCT_NAME` with `.app`.
pub open spec fn app_name_of(s: BuildSettings) -> Option<Seq<char>> {
    match s.wrapper_name {
        Some(n) => Some(n@),
        None => match s.full_product_name {
            Some(n) => Some(n@),
            None => match s.product_name {
                Some(n) => Some(n@ + ".app"@),
                None => None,
            },
        },
    }
}

/// Where the app bundle is, or why that cannot be told.
pub open spec fn app_path_of(entries: Seq<BuildSettings>) -> Result<Seq<char>, LaunchError> {
    if entries.len() == 0 {
        Err(LaunchError::NoSettings)
    } else {
        match entries[0].target_build_dir {
            None => Err(LaunchError::MissingTargetBuildDir),
            Some(dir) => match app_name_of(entries[0]) {
                Some(name) => Ok(joined(dir@, name)),
                None => Err(LaunchError::MissingProductName),
            },
        }
    }
}

fn app_name(s: &BuildSettings) -> (r: Option<String>)
    ensures
        crate::text::opt_view(r) == app_name_of(*s),
{
    match &s.wrapper_name {
        Some(n) => Some(owned(n.as_str())),
        None => match &s.full_product_name {
            Some(n) => Some(owned(n.as_str())),
            None => match &s.product_name {
                Some(n) => {
                    let mut r = chars_of(n.as_str());
                    push_lit(&mut r, ".app");
                    Some(string_of(r.as_slice()))
                },
                None => None,
            },
        },
    }
}

/// The path of the built app bundle: `TARGET_BUILD_DIR` joined with its name.
pub fn launch_app_path(entries: &Vec<BuildSettings>) -> (r: Result<String, LaunchError>)
    ensures
        match app_path_of(entries@) {
            Ok(p) => r matches Ok(q) && q@ == p,
            Err(e) => r matches Err(f) && f == e,
        },
{
    if entries.len() == 0 {
        return Err(LaunchError::NoSettings);
    }
    let s = &entries[0];
    match &s.target_build_dir {
        None => Err(LaunchError::MissingTargetBuildDir),
        Some(dir) => match app_name(s) {
            Some(name) => Ok(path_join(dir.as_str(), name.as_str())),
            None => Err(LaunchError::MissingProductName),
        },
    }
}

/// What to launch: the app path when the bundle exists there
/// (`app_exists`, checked by the caller at `launch_app_path`), and the
/// bundle identifier.
pub fn launch_artifacts(entries: &Vec<BuildSettings>, app_exists: bool) -> (r: Result<
    LaunchArtifacts,
    LaunchError,
>)
    ensures
        match app_path_of(entries@) {
            Err(e) => r matches Err(f) && f == e,
            Ok(p) => if !app_exists {
                r matches Err(LaunchError::AppNotFound(q)) && q@ == p
            } else {
                match entries@[0].product_bundle_identifier {
                    Some(b) => r matches Ok(a) && a.app_path@ == p && a.bundle_identifier@ == b@,
                    None => r matches Err(LaunchError::MissingBundleId),
                }
            },
        },
{
    let app_path = match launch_app_path(entries) {
        Ok(p) => p,
        Err(e) => {
            return Err(e);
        },
    };
    if !app_exists {
        return Err(LaunchError::AppNotFound(app_path));
    }
    match &entries[0].product_bundle_identifier {
        Some(b) => Ok(LaunchArtifacts { app_path, bundle_identifier: owned(b.as_str()) }),
        None => Err(LaunchError::MissingBundleId),
    }
}

/// The app bundle is found in `TARGET_BUILD_DIR` under `WRAPPER_NAME` as it
/// stands; without one under `FULL_PRODUCT_NAME`; without either, under
/// `PRODUCT_NAME` with `.app` added.
pub proof fn law_app_path_names(entries: Seq<BuildSettings>)
    ensures
        entries.len() > 0 ==> (entries[0].target_build_dir matches Some(dir) ==> (
        entries[0].wrapper_name matches Some(w) ==> app_path_of(entries) == Ok::<
            Seq<char>,
            LaunchError,
        >(joined(dir@, w@)))),
        entries.len() > 0 ==> (entries[0].target_build_dir matches Some(dir) ==> (
        entries[0].wrapper_name is None ==> (entries[0].full_product_name matches Some(f)
            ==> app_path_of(entries) == Ok::<Seq<char>, LaunchError>(joined(dir@, f@))))),
        entries.len() > 0 ==> (entries[0].target_build_dir matches Some(dir) ==> (
        entries[0].wrapper_name is None && entries[0].full_product_name is None ==> (
        entries[0].product_name matches Some(p) ==> app_path_of(entries) == Ok::<
            Seq<char>,
            LaunchError,
        >(joined(dir@, p@ + ".app"@))))),
        entries.len() == 0 ==> app_path_of(entries) == Err::<Seq<char>, LaunchError>(
            LaunchError::NoSettings,
        ),
{
}

} // verus!
