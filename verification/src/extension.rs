//! How the Zed extension finds the CLI it starts as its MCP server: bundled
//! in the extension package, or downloaded from the GitHub release.
use vstd::prelude::*;

use crate::text::{chars_of, eq, owned, push_lit, str_views, string_of};

verus! {

/// The GitHub repository whose releases carry the CLI.
pub const RELEASE_REPO: &'static str = "buds520/ios-runner";

/// The error when no bundled CLI is usable.
pub const BUNDLED_CLI_NOT_FOUND: &'static str = "bundled CLI not found in extension package";

/// The processor architectures that Zed reports.
#[derive(Debug, Clone, Copy, PartialEq, Eq, Structural)]
pub enum Arch {
    Aarch64,
    X86,
    X8664,
}

/// The release asset suffix of an architecture; the CLI is built for Apple
/// Silicon and Intel Macs only.
pub fn arch_asset_suffix(arch: Arch) -> (r: Result<&'static str, String>)
    ensures
        match arch {
            Arch::Aarch64 => r matches Ok(s) && s@ == "aarch64-apple-darwin"@,
            Arch::X8664 => r matches Ok(s) && s@ == "x86_64-apple-darwin"@,
            Arch::X86 => r matches Err(e) && e@ == "unsupported architecture: Architecture::X86"@,
        },
{
    match arch {
        Arch::Aarch64 => Ok("aarch64-apple-darwin"),
        Arch::X8664 => Ok("x86_64-apple-darwin"),
        Arch::X86 => Err(owned("unsupported architecture: Architecture::X86")),
    }
}

/// The CLI's asset name for a suffix.
pub fn cli_asset_name(suffix: &str) -> (s: String)
    ensures
        s@ == "ios-runner-"@ + suffix@,
{
    let mut r = chars_of("ios-runner-");
    push_lit(&mut r, suffix);
    string_of(r.as_slice())
}

/// Relative path inside the extension package (same layout as the download's destination).
pub fn bundled_cli_relative(suffix: &str) -> (s: String)
    ensures
        s@ == "bin/ios-runner-"@ + suffix@,
{
    let mut r = chars_of("bin/ios-runner-");
    push_lit(&mut r, suffix);
    string_of(r.as_slice())
}

pub open spec fn candidates_view(suffix: Seq<char>) -> Seq<Seq<char>> {
    seq![
        "bin/ios-runner-"@ + suffix,
        "../bin/"@ + ("ios-runner-"@ + suffix),
        "../../bin/"@ + ("ios-runner-"@ + suffix),
    ]
}

/// Where a bundled CLI may be, in the order tried.
pub fn cli_candidates(suffix: &str) -> (v: Vec<String>)
    ensures
        str_views(v@) == candidates_view(suffix@),
{
    let name = cli_asset_name(suffix);
    let mut v: Vec<String> = Vec::new();
    v.push(bundled_cli_relative(suffix));
    let mut a = chars_of("../bin/");
    push_lit(&mut a, name.as_str());
    v.push(string_of(a.as_slice()));
    let mut b = chars_of("../../bin/");
    push_lit(&mut b, name.as_str());
    v.push(string_of(b.as_slice()));
    assert(str_views(v@) =~= candidates_view(suffix@));
    v
}

/// The release CLI is about 2 MB; a smaller file is usually a failed
/// download (an HTML error page).
pub fn cli_installation_looks_valid(is_file: bool, len: u64) -> (b: bool)
    ensures
        b == (is_file && len > 500_000),
{
    is_file && len > 500_000
}

/// The first candidate that looks like an installed CLI.
pub fn pick_bundled_cli(candidates: &Vec<String>, valid: &Vec<bool>) -> (r: Result<String, &'static str>)
    requires
        valid@.len() == candidates@.len(),
    ensures
        match r {
            Ok(p) => exists|i: int|
                0 <= i < candidates@.len() && valid@[i] && p@ == candidates@[i]@ && forall|j: int|
                    0 <= j < i ==> !valid@[j],
            Err(e) => e@ == BUNDLED_CLI_NOT_FOUND@ && forall|j: int|
                0 <= j < candidates@.len() ==> !valid@[j],
        },
{
    let mut i: usize = 0;
    while i < candidates.len()
        invariant
            valid@.len() == candidates@.len(),
            i <= candidates@.len(),
            forall|j: int| 0 <= j < i ==> !valid@[j],
        decreases candidates@.len() - i,
    {
        if valid[i] {
            let p = owned(candidates[i].as_str());
            assert(p@ == candidates@[i as int]@);
            return Ok(p);
        }
        i = i + 1;
    }
    Err(BUNDLED_CLI_NOT_FOUND)
}

/// The release tag of a version.
pub fn release_tag(version: &str) -> (s: String)
    ensures
        s@ == "v"@ + version@,
{
    let mut r = chars_of("v");
    push_lit(&mut r, version);
    string_of(r.as_slice())
}

/// The index of the first release asset with the wanted name, or the error.
pub fn find_release_asset(names: &Vec<String>, wanted: &str) -> (r: Result<usize, String>)
    ensures
        match r {
            Ok(i) => i < names@.len() && names@[i as int]@ == wanted@ && forall|j: int|
                0 <= j < i ==> names@[j]@ != wanted@,
            Err(e) => e@ == "release asset not found: "@ + wanted@ && forall|j: int|
                0 <= j < names@.len() ==> names@[j]@ != wanted@,
        },
{
    let w = chars_of(wanted);
    let mut i: usize = 0;
    while i < names.len()
        invariant
            w@ == wanted@,
            i <= names@.len(),
            forall|j: int| 0 <= j < i ==> names@[j]@ != wanted@,
        decreases names@.len() - i,
    {
        if eq(chars_of(names[i].as_str()).as_slice(), w.as_slice()) {
            return Ok(i);
        }
        i = i + 1;
    }
    let mut e = chars_of("release asset not found: ");
    push_lit(&mut e, wanted);
    Err(string_of(e.as_slice()))
}

} // verus!
