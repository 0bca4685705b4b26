//! The decisions behind building and running: the `xcodebuild` arguments, the
//! default simulator, how a destination is run, when a build can be skipped,
//! and the messages of a failed step.
use vstd::prelude::*;

use crate::config::{ProjectKind, RunnerConfig};
use crate::destination::{
    dest_views, destination_problem, first_where, lemma_iphone_destination_valid,
    law_listed_destinations_are_valid, listed_ok, showdestinations_result, is_macos, is_simulator, is_macos_destination,
    is_simulator_destination, kind_name_prefix_pred, kind_pred, lemma_first_where_bounds,
    position_where, DestinationKind, DestinationView, Query, RunDestination,
};
use crate::detect::DetectedProject;
use crate::diagnostics::pick;
use crate::locale::{t, Lang};
use crate::paths::{extension, file_name};
use crate::simulator::{destination_for_simulator, sim_views, Simulator, SimulatorView};
use crate::text::{
    decimal, decimal_of, signed_decimal, chars_of, contains_lit, contains_sub, eq_lit, has_prefix, owned, push_all, push_lit, split,
    split_char, starts_with_lit, str_views, string_of, strip_prefix, strip_prefix_lit, trim,
    trimmed, views,
};

verus! {

/// No simulator could be found to run on.
#[derive(Debug, Clone, Copy, PartialEq, Eq, Structural)]
pub struct NoSimulator;

impl NoSimulator {
    pub fn message(&self, lang: Lang) -> (s: &'static str)
        ensures
            s@ == pick(
                lang,
                "未找到可用的 iOS 模拟器，请先安装 Xcode 模拟器运行时，或运行 ios-runner configure"@,
                "No iOS Simulator available. Install an Xcode simulator runtime or run ios-runner configure"@,
            ),
    {
        t(
            lang,
            "未找到可用的 iOS 模拟器，请先安装 Xcode 模拟器运行时，或运行 ios-runner configure",
            "No iOS Simulator available. Install an Xcode simulator runtime or run ios-runner configure",
        )
    }
}

/// The first listed simulator whose name begins with `iPhone`.
pub open spec fn first_iphone(s: Seq<SimulatorView>) -> Option<int> {
    if exists|i: int| 0 <= i < s.len() && has_prefix(s[i].name, "iPhone"@) {
        Some(
            choose|i: int|
                0 <= i < s.len() && has_prefix(s[i].name, "iPhone"@) && forall|j: int|
                    0 <= j < i ==> !has_prefix(s[j].name, "iPhone"@),
        )
    } else {
        None
    }
}

/// The default simulator destination: the first iPhone simulator the scheme
/// lists, else its first simulator, else the first iPhone among the installed
/// simulators (`None` when they could not be listed).
pub open spec fn default_simulator(
    dests: Seq<DestinationView>,
    sims: Option<Seq<SimulatorView>>,
) -> Option<Seq<char>> {
    match first_where(dests, kind_name_prefix_pred(DestinationKind::Simulator, "iPhone"@)) {
        Some(i) => Some(dests[i].destination),
        None => match first_where(dests, kind_pred(DestinationKind::Simulator)) {
            Some(i) => Some(dests[i].destination),
            None => match sims {
                Some(s) => match first_iphone(s) {
                    Some(i) => Some("platform=iOS Simulator,name="@ + s[i].name),
                    None => None,
                },
                None => None,
            },
        },
    }
}

fn first_iphone_index(sims: &Vec<Simulator>) -> (r: Option<usize>)
    ensures
        match r {
            Some(i) => i < sims@.len() && first_iphone(sim_views(sims@)) == Some(i as int),
            None => first_iphone(sim_views(sims@)) is None,
        },
{
    let ghost s = sim_views(sims@);
    let mut i: usize = 0;
    while i < sims.len()
        invariant
            s == sim_views(sims@),
            i <= sims@.len(),
            forall|j: int| 0 <= j < i ==> !has_prefix(s[j].name, "iPhone"@),
        decreases sims@.len() - i,
    {
        assert(s[i as int].name == sims@[i as int].name@);
        if starts_with_lit(chars_of(sims[i].name.as_str()).as_slice(), "iPhone") {
            let ghost c = choose|k: int|
                0 <= k < s.len() && has_prefix(s[k].name, "iPhone"@) && forall|j: int|
                    0 <= j < k ==> !has_prefix(s[j].name, "iPhone"@);
            assert(0 <= i < s.len() && has_prefix(s[i as int].name, "iPhone"@));
            assert(c == i) by {
                if c < i {
                    assert(!has_prefix(s[c].name, "iPhone"@));
                }
                if i < c {
                    assert(!has_prefix(s[i as int].name, "iPhone"@));
                }
            }
            return Some(i);
        }
        i = i + 1;
    }
    None
}

/// The destination to use when none is configured or the saved one is invalid.
pub fn default_simulator_destination(
    destinations: &Vec<RunDestination>,
    simulators: Option<&Vec<Simulator>>,
) -> (r: Result<String, NoSimulator>)
    ensures
        match default_simulator(
            dest_views(destinations@),
            match simulators {
                Some(v) => Some(sim_views(v@)),
                None => None,
            },
        ) {
            Some(d) => r matches Ok(s) && s@ == d,
            None => r is Err,
        },
{
    let ghost s = dest_views(destinations@);
    let iphone = Query::KindAndNamePrefix(DestinationKind::Simulator, chars_of("iPhone"));
    match position_where(destinations, &iphone) {
        Some(i) => {
            proof {
                lemma_first_where_bounds(s, kind_name_prefix_pred(DestinationKind::Simulator, "iPhone"@));
            }
            return Ok(destinations[i].destination.clone());
        },
        None => {},
    }
    match position_where(destinations, &Query::Kind(DestinationKind::Simulator)) {
        Some(i) => {
            proof {
                lemma_first_where_bounds(s, kind_pred(DestinationKind::Simulator));
            }
            return Ok(destinations[i].destination.clone());
        },
        None => {},
    }
    match simulators {
        Some(sims) => match first_iphone_index(sims) {
            Some(i) => {
                assert(sim_views(sims@)[i as int].name == sims@[i as int].name@);
                Ok(destination_for_simulator(&sims[i]))
            },
            None => Err(NoSimulator),
        },
        None => Err(NoSimulator),
    }
}

proof fn lemma_first_iphone_exists(s: Seq<SimulatorView>, k: int)
    requires
        0 <= k < s.len(),
        has_prefix(s[k].name, "iPhone"@),
    ensures
        exists|i: int|
            0 <= i < s.len() && has_prefix(s[i].name, "iPhone"@) && forall|j: int|
                0 <= j < i ==> !has_prefix(s[j].name, "iPhone"@),
    decreases k,
{
    if exists|j: int| 0 <= j < k && has_prefix(s[j].name, "iPhone"@) {
        let j = choose|j: int| 0 <= j < k && has_prefix(s[j].name, "iPhone"@);
        lemma_first_iphone_exists(s, j);
    } else {
        assert(forall|j: int| 0 <= j < k ==> !has_prefix(s[j].name, "iPhone"@));
    }
}

proof fn lemma_first_iphone(s: Seq<SimulatorView>)
    ensures
        first_iphone(s) matches Some(i) ==> 0 <= i < s.len() && has_prefix(s[i].name, "iPhone"@),
{
    if exists|i: int| 0 <= i < s.len() && has_prefix(s[i].name, "iPhone"@) {
        let k = choose|i: int| 0 <= i < s.len() && has_prefix(s[i].name, "iPhone"@);
        lemma_first_iphone_exists(s, k);
    }
}

/// When no simulator is listed, the default falls back to the first installed
/// iPhone simulator; its name must then have no `,` and not contain
/// `placeholder` to name a usable destination.
pub open spec fn fallback_name_usable(dests: Seq<DestinationView>, sims: Option<Seq<SimulatorView>>) -> bool {
    ||| first_where(dests, kind_pred(DestinationKind::Simulator)) is Some
    ||| match sims {
        Some(s) => match first_iphone(s) {
            Some(i) => !crate::text::has_char(s[i].name, ',') && !contains_sub(
                s[i].name,
                "placeholder"@,
            ),
            None => true,
        },
        None => true,
    }
}

/// What `ensure` puts in place of an invalid saved destination, the default
/// simulator of the scheme's `-showdestinations` listing (else of the
/// installed simulators), passes the check before the build; the exceptions
/// are Xcode's generic `Any iOS Simulator Device`, and a fallback simulator
/// name with a `,` or `placeholder` in it.
pub proof fn law_default_simulator_is_valid(
    stdout: Seq<char>,
    stderr: Seq<char>,
    sims: Option<Seq<SimulatorView>>,
)
    ensures
        default_simulator(showdestinations_result(stdout, stderr), sims) matches Some(x) ==> (
        x != "platform=iOS Simulator,name=Any iOS Simulator Device"@ && fallback_name_usable(
            showdestinations_result(stdout, stderr),
            sims,
        ) ==> destination_problem(x) is None),
{
    let dests = showdestinations_result(stdout, stderr);
    law_listed_destinations_are_valid(stdout, stderr);
    lemma_first_where_bounds(dests, kind_name_prefix_pred(DestinationKind::Simulator, "iPhone"@));
    lemma_first_where_bounds(dests, kind_pred(DestinationKind::Simulator));
    reveal_strlit("platform=iOS Simulator,name=Any iOS Simulator Device");
    reveal_strlit("platform=iOS Simulator,name=");
    reveal_strlit("Any iOS Simulator Device");
    let generic = "platform=iOS Simulator,name=Any iOS Simulator Device"@;
    assert(generic =~= "platform=iOS Simulator,name="@ + "Any iOS Simulator Device"@);
    match first_where(dests, kind_name_prefix_pred(DestinationKind::Simulator, "iPhone"@)) {
        Some(i) => {
            assert(listed_ok(dests[i]));
        },
        None => match first_where(dests, kind_pred(DestinationKind::Simulator)) {
            Some(i) => {
                assert(listed_ok(dests[i]));
            },
            None => match sims {
                Some(s) => {
                    lemma_first_iphone(s);
                    match first_iphone(s) {
                        Some(i) => {
                            if fallback_name_usable(dests, sims) {
                                lemma_iphone_destination_valid(s[i].name);
                            }
                        },
                        None => {},
                    }
                },
                None => {},
            },
        },
    }
}

/// The default simulator is a listed iPhone simulator when there is one, else
/// another listed simulator, else (with the installed simulators at hand) the
/// first installed iPhone; nothing else is ever picked.
pub proof fn law_default_simulator_prefers(dests: Seq<DestinationView>, sims: Option<Seq<SimulatorView>>)
    ensures
        (exists|i: int|
            0 <= i < dests.len() && (#[trigger] dests[i]).kind == DestinationKind::Simulator
                && has_prefix(dests[i].name, "iPhone"@)) ==> (default_simulator(dests, sims) matches Some(
            x,
        ) && exists|j: int|
            0 <= j < dests.len() && (#[trigger] dests[j]).kind == DestinationKind::Simulator
                && has_prefix(dests[j].name, "iPhone"@) && dests[j].destination == x),
        (exists|i: int|
            0 <= i < dests.len() && (#[trigger] dests[i]).kind == DestinationKind::Simulator) ==> (
        default_simulator(dests, sims) matches Some(x) && exists|j: int|
            0 <= j < dests.len() && (#[trigger] dests[j]).kind == DestinationKind::Simulator
                && dests[j].destination == x),
        (forall|i: int|
            0 <= i < dests.len() ==> (#[trigger] dests[i]).kind != DestinationKind::Simulator) ==> (
        default_simulator(dests, sims) is Some <==> (sims matches Some(s) && exists|k: int|
            0 <= k < s.len() && has_prefix((#[trigger] s[k]).name, "iPhone"@))),
        (forall|i: int|
            0 <= i < dests.len() ==> (#[trigger] dests[i]).kind != DestinationKind::Simulator) ==> (
        default_simulator(dests, sims) matches Some(x) ==> (sims matches Some(s) && exists|k: int|
            0 <= k < s.len() && has_prefix((#[trigger] s[k]).name, "iPhone"@) && x
                == "platform=iOS Simulator,name="@ + s[k].name)),
{
    let ip = kind_name_prefix_pred(DestinationKind::Simulator, "iPhone"@);
    let sp = kind_pred(DestinationKind::Simulator);
    lemma_first_where_bounds(dests, ip);
    lemma_first_where_bounds(dests, sp);
    if exists|i: int|
        0 <= i < dests.len() && (#[trigger] dests[i]).kind == DestinationKind::Simulator
            && has_prefix(dests[i].name, "iPhone"@) {
        let i = choose|i: int|
            0 <= i < dests.len() && (#[trigger] dests[i]).kind == DestinationKind::Simulator
                && has_prefix(dests[i].name, "iPhone"@);
        assert(ip(dests[i]));
    }
    if exists|i: int| 0 <= i < dests.len() && (#[trigger] dests[i]).kind == DestinationKind::Simulator {
        let i = choose|i: int|
            0 <= i < dests.len() && (#[trigger] dests[i]).kind == DestinationKind::Simulator;
        assert(sp(dests[i]));
        match first_where(dests, ip) {
            Some(j) => {
                assert(ip(dests[j]));
            },
            None => {},
        }
    }
    if forall|i: int| 0 <= i < dests.len() ==> (#[trigger] dests[i]).kind != DestinationKind::Simulator {
        assert forall|i: int| 0 <= i < dests.len() implies !ip(dests[i]) && !sp(dests[i]) by {
            assert(dests[i].kind != DestinationKind::Simulator);
        }
        match sims {
            Some(s) => {
                lemma_first_iphone(s);
                if exists|k: int|
                    0 <= k < s.len() && has_prefix((#[trigger] s[k]).name, "iPhone"@) {
                    let k = choose|k: int| 0 <= k < s.len() && has_prefix((#[trigger] s[k]).name, "iPhone"@);
                    lemma_first_iphone_exists(s, k);
                }
            },
            None => {},
        }
    }
}

/// Prefer a connected device, else the default simulator destination.
pub fn default_preferred_destination(
    destinations: &Vec<RunDestination>,
    simulators: Option<&Vec<Simulator>>,
) -> (r: Result<String, NoSimulator>)
    ensures
        match first_where(dest_views(destinations@), kind_pred(DestinationKind::Device)) {
            Some(i) => r matches Ok(s) && s@ == dest_views(destinations@)[i].destination,
            None => match default_simulator(
                dest_views(destinations@),
                match simulators {
                    Some(v) => Some(sim_views(v@)),
                    None => None,
                },
            ) {
                Some(d) => r matches Ok(s) && s@ == d,
                None => r is Err,
            },
        },
{
    match position_where(destinations, &Query::Kind(DestinationKind::Device)) {
        Some(i) => {
            proof {
                lemma_first_where_bounds(dest_views(destinations@), kind_pred(DestinationKind::Device));
            }
            Ok(destinations[i].destination.clone())
        },
        None => default_simulator_destination(destinations, simulators),
    }
}

/// How an app is run.
#[derive(Debug, Clone, Copy, PartialEq, Eq, Structural)]
pub enum RunTarget {
    /// Opened as a Mac app.
    Mac,
    /// Installed and launched on a booted simulator.
    Simulator,
    /// Installed and launched on a device with `devicectl`.
    Device,
}

pub open spec fn target_of(destination: Seq<char>) -> RunTarget {
    if is_macos(destination) {
        RunTarget::Mac
    } else if is_simulator(destination) {
        RunTarget::Simulator
    } else {
        RunTarget::Device
    }
}

/// Which way `run` takes for the configured destination: macOS first, then
/// simulators, else a device.
pub fn run_app(config: &RunnerConfig) -> (r: RunTarget)
    ensures
        r == target_of(config.destination@),
{
    if is_macos_destination(config.destination.as_str()) {
        RunTarget::Mac
    } else if is_simulator_destination(config.destination.as_str()) {
        RunTarget::Simulator
    } else {
        RunTarget::Device
    }
}

/// The SDK that launch settings are read for.
pub fn sdk_for_destination(destination: &str) -> (s: &'static str)
    ensures
        s@ == (if is_simulator(destination@) {
            "iphonesimulator"@
        } else {
            "iphoneos"@
        }),
{
    if is_simulator_destination(destination) {
        "iphonesimulator"
    } else {
        "iphoneos"
    }
}

/// The name of the first `,`-separated part that begins with `name=` once
/// trimmed, itself trimmed.
pub open spec fn name_in(parts: Seq<Seq<char>>) -> Option<Seq<char>>
    decreases parts.len(),
{
    if parts.len() == 0 {
        None
    } else {
        match name_in(parts.drop_last()) {
            Some(n) => Some(n),
            None => match strip_prefix(trimmed(parts.last()), "name="@) {
                Some(rest) => Some(trimmed(rest)),
                None => None,
            },
        }
    }
}

/// The simulator name a destination string names.
pub fn simulator_name_from_destination(destination: &str) -> (r: Option<String>)
    ensures
        crate::text::opt_view(r) == name_in(split_char(destination@, ',')),
{
    let parts = split(chars_of(destination).as_slice(), ',');
    let ghost ps = views(parts@);
    let mut i: usize = 0;
    assert(ps.subrange(0, 0) =~= Seq::<Seq<char>>::empty());
    while i < parts.len()
        invariant
            ps == views(parts@),
            ps == split_char(destination@, ','),
            i <= parts@.len(),
            name_in(ps.subrange(0, i as int)) is None,
        decreases parts@.len() - i,
    {
        assert(ps.subrange(0, i + 1).drop_last() =~= ps.subrange(0, i as int));
        assert(ps[i as int] == parts@[i as int]@);
        let p = trim(parts[i].as_slice());
        match strip_prefix_lit(p.as_slice(), "name=") {
            Some(rest) => {
                let n = trim(rest.as_slice());
                proof {
                    lemma_name_in_prefix(ps, i + 1);
                }
                return Some(string_of(n.as_slice()));
            },
            None => {},
        }
        i = i + 1;
    }
    assert(ps.subrange(0, ps.len() as int) =~= ps);
    None
}

proof fn lemma_name_in_prefix(ps: Seq<Seq<char>>, k: int)
    requires
        0 <= k <= ps.len(),
        name_in(ps.subrange(0, k)) is Some,
    ensures
        name_in(ps) == name_in(ps.subrange(0, k)),
    decreases ps.len() - k,
{
    if k < ps.len() {
        assert(ps.subrange(0, k + 1).drop_last() =~= ps.subrange(0, k));
        lemma_name_in_prefix(ps, k + 1);
    } else {
        assert(ps.subrange(0, k) =~= ps);
    }
}

/// `simctl boot` failed only because the simulator is already booted.
pub fn already_booted(stderr: &str) -> (b: bool)
    ensures
        b == (contains_sub(stderr@, "current state: Booted"@) || contains_sub(
            stderr@,
            "Unable to boot device in current state: Booted"@,
        )),
{
    let v = chars_of(stderr);
    contains_lit(v.as_slice(), "current state: Booted") || contains_lit(
        v.as_slice(),
        "Unable to boot device in current state: Booted",
    )
}

pub open spec fn skipped_dir(name: Seq<char>) -> bool {
    ||| name == "Pods"@
    ||| name == "DerivedData"@
    ||| name == ".build"@
    ||| name == ".git"@
    ||| name == ".ios-runner"@
    ||| name == "node_modules"@
    ||| name == ".bluecode"@
    ||| name == "xcuserdata"@
}

/// Folders the source walk does not enter.
pub fn walk_skip_dir(name: &str) -> (b: bool)
    ensures
        b == skipped_dir(name@),
{
    let v = chars_of(name);
    let s = v.as_slice();
    eq_lit(s, "Pods") || eq_lit(s, "DerivedData") || eq_lit(s, ".build") || eq_lit(s, ".git")
        || eq_lit(s, ".ios-runner") || eq_lit(s, "node_modules") || eq_lit(s, ".bluecode")
        || eq_lit(s, "xcuserdata")
}

pub open spec fn source_ext(e: Seq<char>) -> bool {
    ||| e == "swift"@
    ||| e == "m"@
    ||| e == "mm"@
    ||| e == "h"@
    ||| e == "c"@
    ||| e == "cpp"@
    ||| e == "metal"@
    ||| e == "storyboard"@
    ||| e == "xib"@
}

/// A file whose change makes a new build needed: not `Info.plist` nor a
/// project file, and with a source extension.
pub open spec fn is_source(path: Seq<char>) -> bool {
    &&& file_name(path) != Some("Info.plist"@)
    &&& extension(path) != Some("pbxproj"@)
    &&& source_ext(
        match extension(path) {
            Some(e) => e,
            None => Seq::empty(),
        },
    )
}

/// Whether a walked file counts toward the newest source time.
pub fn counts_as_source(path: &str) -> (b: bool)
    ensures
        b == is_source(path@),
{
    let name = crate::paths::path_file_name(path);
    let is_plist = match &name {
        Some(n) => eq_lit(chars_of(n.as_str()).as_slice(), "Info.plist"),
        None => false,
    };
    assert(is_plist == (file_name(path@) == Some("Info.plist"@)));
    let e = crate::paths::path_extension(path);
    let ext = match &e {
        Some(x) => chars_of(x.as_str()),
        None => Vec::new(),
    };
    assert(ext@ == match extension(path@) {
        Some(x) => x,
        None => Seq::<char>::empty(),
    });
    let is_pbx = eq_lit(ext.as_slice(), "pbxproj");
    assert(is_pbx == (extension(path@) == Some("pbxproj"@))) by {
        reveal_strlit("pbxproj");
    }
    if is_plist || is_pbx {
        return false;
    }
    let s = ext.as_slice();
    eq_lit(s, "swift") || eq_lit(s, "m") || eq_lit(s, "mm") || eq_lit(s, "h") || eq_lit(s, "c")
        || eq_lit(s, "cpp") || eq_lit(s, "metal") || eq_lit(s, "storyboard") || eq_lit(s, "xib")
}

/// Whether a walked file is an `xcactivitylog` build log.
pub fn is_build_log(path: &str) -> (b: bool)
    ensures
        b == (extension(path@) == Some("xcactivitylog"@)),
{
    match crate::paths::path_extension(path) {
        Some(e) => eq_lit(chars_of(e.as_str()).as_slice(), "xcactivitylog"),
        None => false,
    }
}

/// The latest of the times seen so far and `t`.
pub fn newer(latest: Option<u128>, t: u128) -> (r: Option<u128>)
    ensures
        r == Some(
            match latest {
                Some(p) => if t > p {
                    t
                } else {
                    p
                },
                None => t,
            },
        ),
{
    Some(
        match latest {
            Some(prev) => if t > prev {
                t
            } else {
                prev
            },
            None => t,
        },
    )
}

/// The sources are no newer than the last build log: both times are known
/// and the newest source was written no later than the newest log.
pub fn detect_incremental_fresh(source_mtime: Option<u128>, log_mtime: Option<u128>) -> (b: bool)
    ensures
        b == (source_mtime matches Some(s) && log_mtime matches Some(l) && s <= l),
{
    match (source_mtime, log_mtime) {
        (Some(s), Some(l)) => s <= l,
        _ => false,
    }
}

/// The freshness check runs only when `IOS_RUNNER_SKIP_IF_FRESH` is on and
/// `IOS_RUNNER_FORCE_BUILD` is not (each read as `1` or `true`, any case).
pub fn incremental_check_enabled(force_build: Option<&str>, skip_if_fresh: Option<&str>) -> (b: bool)
    ensures
        b == (!crate::global_store::flag_on(crate::bootstrap::opt_text(force_build))
            && crate::global_store::flag_on(crate::bootstrap::opt_text(skip_if_fresh))),
{
    !crate::global_store::env_flag_enabled(force_build) && crate::global_store::env_flag_enabled(
        skip_if_fresh,
    )
}

/// How `{:?}` shows an exit code: `Some(<code>)` or `None`.
pub open spec fn code_debug(code: Option<i32>) -> Seq<char> {
    match code {
        Some(c) => "Some("@ + signed_decimal(c as int) + ")"@,
        None => "None"@,
    }
}

/// An exit code as `{:?}` shows it.
pub fn exit_code_text(code: Option<i32>) -> (s: String)
    ensures
        s@ == code_debug(code),
{
    match code {
        Some(c) => {
            let mut r: Vec<char> = Vec::new();
            push_lit(&mut r, "Some(");
            let wide = c as i64;
            if wide < 0 {
                push_lit(&mut r, "-");
                push_all(&mut r, decimal_of((-wide) as u64).as_slice());
            } else {
                push_all(&mut r, decimal_of(wide as u64).as_slice());
            }
            push_lit(&mut r, ")");
            string_of(r.as_slice())
        },
        None => owned("None"),
    }
}

pub open spec fn failure_message(label: Seq<char>, code: Option<i32>, lang: Lang) -> Seq<char> {
    label + pick(lang, " 失败 (exit "@, " failed (exit "@) + code_debug(code) + ")"@
}

/// The error of a failed `xcodebuild` step.
pub fn xcodebuild_failure_message(label: &str, code: Option<i32>, lang: Lang) -> (s: String)
    ensures
        s@ == failure_message(label@, code, lang),
{
    let mut r = chars_of(label);
    push_lit(&mut r, t(lang, " 失败 (exit ", " failed (exit "));
    push_all(&mut r, chars_of(exit_code_text(code).as_str()).as_slice());
    push_lit(&mut r, ")");
    string_of(r.as_slice())
}

pub open spec fn piped_failure_message(xcodebuild: Option<i32>, xcbeautify: Option<i32>) -> Seq<char> {
    "build failed (xcodebuild "@ + code_debug(xcodebuild) + ", xcbeautify "@ + code_debug(
        xcbeautify,
    ) + ")"@
}

/// The error of a build piped through `xcbeautify` where either side failed.
pub fn piped_build_failure_message(xcodebuild: Option<i32>, xcbeautify: Option<i32>) -> (s: String)
    ensures
        s@ == piped_failure_message(xcodebuild, xcbeautify),
{
    let mut r: Vec<char> = Vec::new();
    push_lit(&mut r, "build failed (xcodebuild ");
    push_all(&mut r, chars_of(exit_code_text(xcodebuild).as_str()).as_slice());
    push_lit(&mut r, ", xcbeautify ");
    push_all(&mut r, chars_of(exit_code_text(xcbeautify).as_str()).as_slice());
    push_lit(&mut r, ")");
    string_of(r.as_slice())
}

pub open spec fn signing_note(lang: Lang) -> Seq<char> {
    pick(
        lang,
        "真机构建需要代码签名：\n1. 用 Xcode 打开工程 → Target → Signing & Capabilities → 选择 Team\n2. 或在全局配置 ~/.config/ios-runner/config.toml 为该工程设置 development_team"@,
        "Device builds require code signing:\n1. Open the project in Xcode → Target → Signing & Capabilities → select a Team\n2. Or set development_team in ~/.config/ios-runner/config.toml for this project"@,
    )
}

pub open spec fn build_error_text(error: Seq<char>, destination: Seq<char>, lang: Lang) -> Seq<char> {
    if !is_simulator(destination) && !is_macos(destination) {
        error + "\n\n"@ + signing_note(lang)
    } else {
        error
    }
}

/// The error of a failed build: for a device, followed by how to set up signing.
pub fn build_failure_error(error: &str, destination: &str, lang: Lang) -> (s: String)
    ensures
        s@ == build_error_text(error@, destination@, lang),
{
    if !is_simulator_destination(destination) && !is_macos_destination(destination) {
        let mut r = chars_of(error);
        push_lit(&mut r, "\n\n");
        push_lit(
            &mut r,
            t(
                lang,
                "真机构建需要代码签名：\n1. 用 Xcode 打开工程 → Target → Signing & Capabilities → 选择 Team\n2. 或在全局配置 ~/.config/ios-runner/config.toml 为该工程设置 development_team",
                "Device builds require code signing:\n1. Open the project in Xcode → Target → Signing & Capabilities → select a Team\n2. Or set development_team in ~/.config/ios-runner/config.toml for this project",
            ),
        );
        string_of(r.as_slice())
    } else {
        owned(error)
    }
}

pub open spec fn kind_flag(kind: ProjectKind) -> Seq<char> {
    match kind {
        ProjectKind::Workspace => "-workspace"@,
        ProjectKind::Project => "-project"@,
    }
}

fn kind_flag_of(kind: ProjectKind) -> (s: &'static str)
    ensures
        s@ == kind_flag(kind),
{
    match kind {
        ProjectKind::Workspace => "-workspace",
        ProjectKind::Project => "-project",
    }
}

fn push_arg(args: &mut Vec<String>, a: &str)
    ensures
        str_views(final(args)@) == str_views(old(args)@).push(a@),
{
    let ghost before = str_views(args@);
    args.push(owned(a));
    assert(str_views(args@) =~= before.push(a@));
}

/// `-workspace <path>` or `-project <path>` for a detected project.
pub fn project_args(project: &DetectedProject) -> (args: Vec<String>)
    ensures
        str_views(args@) == seq![kind_flag(project.kind), project.path@],
{
    let mut args: Vec<String> = Vec::new();
    push_arg(&mut args, kind_flag_of(project.kind));
    push_arg(&mut args, project.path.as_str());
    args
}

pub open spec fn config_args_view(kind: ProjectKind, path: Seq<char>, scheme: Seq<char>) -> Seq<Seq<char>> {
    seq![kind_flag(kind), path, "-scheme"@, scheme]
}

/// The project and scheme arguments of a saved config.
pub fn config_args(config: &RunnerConfig) -> (args: Vec<String>)
    ensures
        str_views(args@) == config_args_view(config.kind, config.path@, config.scheme@),
{
    let mut args: Vec<String> = Vec::new();
    push_arg(&mut args, kind_flag_of(config.kind));
    push_arg(&mut args, config.path.as_str());
    push_arg(&mut args, "-scheme");
    push_arg(&mut args, config.scheme.as_str());
    args
}

/// `xcodebuild -list -json` for a detected project.
pub fn list_args(project: &DetectedProject) -> (args: Vec<String>)
    ensures
        str_views(args@) == seq![kind_flag(project.kind), project.path@, "-list"@, "-json"@],
{
    let mut args = project_args(project);
    push_arg(&mut args, "-list");
    push_arg(&mut args, "-json");
    args
}

/// `xcodebuild -showdestinations` for a scheme of a detected project.
pub fn show_destinations_args(project: &DetectedProject, scheme: &str) -> (args: Vec<String>)
    ensures
        str_views(args@) == seq![kind_flag(project.kind), project.path@, "-scheme"@, scheme@, "-showdestinations"@],
{
    let mut args = project_args(project);
    push_arg(&mut args, "-scheme");
    push_arg(&mut args, scheme);
    push_arg(&mut args, "-showdestinations");
    args
}

/// `xcodebuild -resolvePackageDependencies` for a saved config.
pub fn resolve_args(config: &RunnerConfig) -> (args: Vec<String>)
    ensures
        str_views(args@) == config_args_view(config.kind, config.path@, config.scheme@).push(
            "-resolvePackageDependencies"@,
        ),
{
    let mut args = config_args(config);
    push_arg(&mut args, "-resolvePackageDependencies");
    args
}

pub open spec fn build_args_view(c: crate::config::RunnerConfigView, derived: Seq<char>) -> Seq<Seq<char>> {
    config_args_view(c.kind, c.path, c.scheme) + seq![
        "-configuration"@,
        c.configuration,
        "-destination"@,
        c.destination,
        "-derivedDataPath"@,
        derived,
        "-allowProvisioningUpdates"@,
    ] + (match c.development_team {
        Some(team) => seq!["DEVELOPMENT_TEAM="@ + team],
        None => Seq::empty(),
    }) + seq!["build"@]
}

/// The arguments of `xcodebuild ... build` for a saved config, with its
/// derived data at `derived`.
pub fn build_args(config: &RunnerConfig, derived: &str) -> (args: Vec<String>)
    ensures
        str_views(args@) == build_args_view(config@, derived@),
{
    let mut args = config_args(config);
    push_arg(&mut args, "-configuration");
    push_arg(&mut args, config.configuration.as_str());
    push_arg(&mut args, "-destination");
    push_arg(&mut args, config.destination.as_str());
    push_arg(&mut args, "-derivedDataPath");
    push_arg(&mut args, derived);
    push_arg(&mut args, "-allowProvisioningUpdates");
    match &config.development_team {
        Some(team) => {
            let mut a = chars_of("DEVELOPMENT_TEAM=");
            push_lit(&mut a, team.as_str());
            let s = string_of(a.as_slice());
            push_arg(&mut args, s.as_str());
        },
        None => {},
    }
    push_arg(&mut args, "build");
    assert(str_views(args@) =~= build_args_view(config@, derived@));
    args
}

pub open spec fn settings_args_view(
    c: crate::config::RunnerConfigView,
    sdk: Seq<char>,
    derived: Option<Seq<char>>,
) -> Seq<Seq<char>> {
    config_args_view(c.kind, c.path, c.scheme) + seq![
        "-configuration"@,
        c.configuration,
        "-destination"@,
        c.destination,
        "-sdk"@,
        sdk,
        "-showBuildSettings"@,
        "-json"@,
    ] + (match derived {
        Some(d) => seq!["-derivedDataPath"@, d],
        None => Seq::empty(),
    })
}

/// The arguments of `xcodebuild -showBuildSettings -json` for launching;
/// `derived` is the derived data folder when it exists or could be made.
pub fn build_settings_args(config: &RunnerConfig, derived: Option<&str>) -> (args: Vec<String>)
    ensures
        str_views(args@) == settings_args_view(
            config@,
            (if is_simulator(config.destination@) {
                "iphonesimulator"@
            } else {
                "iphoneos"@
            }),
            crate::bootstrap::opt_text(derived),
        ),
{
    let sdk = sdk_for_destination(config.destination.as_str());
    let mut args = config_args(config);
    push_arg(&mut args, "-configuration");
    push_arg(&mut args, config.configuration.as_str());
    push_arg(&mut args, "-destination");
    push_arg(&mut args, config.destination.as_str());
    push_arg(&mut args, "-sdk");
    push_arg(&mut args, sdk);
    push_arg(&mut args, "-showBuildSettings");
    push_arg(&mut args, "-json");
    match derived {
        Some(d) => {
            push_arg(&mut args, "-derivedDataPath");
            push_arg(&mut args, d);
        },
        None => {},
    }
    assert(str_views(args@) =~= settings_args_view(
        config@,
        sdk@,
        crate::bootstrap::opt_text(derived),
    ));
    args
}

/// The arguments of `xcodebuild -showBuildSettings` that list a scheme's platforms.
pub fn platform_settings_args(project: &DetectedProject, scheme: &str) -> (args: Vec<String>)
    ensures
        str_views(args@) == seq![
            kind_flag(project.kind),
            project.path@,
            "-scheme"@,
            scheme@,
            "-configuration"@,
            "Debug"@,
            "-showBuildSettings"@,
        ],
{
    let mut args = project_args(project);
    push_arg(&mut args, "-scheme");
    push_arg(&mut args, scheme);
    push_arg(&mut args, "-configuration");
    push_arg(&mut args, "Debug");
    push_arg(&mut args, "-showBuildSettings");
    args
}

/// `xcrun simctl launch` with the app's console, replacing a running instance.
pub fn simulator_launch_args(udid: &str, bundle_id: &str) -> (args: Vec<String>)
    ensures
        str_views(args@) == seq![
            "simctl"@,
            "launch"@,
            "--console-pty"@,
            "--terminate-running-process"@,
            udid@,
            bundle_id@,
        ],
{
    let mut args: Vec<String> = Vec::new();
    push_arg(&mut args, "simctl");
    push_arg(&mut args, "launch");
    push_arg(&mut args, "--console-pty");
    push_arg(&mut args, "--terminate-running-process");
    push_arg(&mut args, udid);
    push_arg(&mut args, bundle_id);
    args
}

/// `xcrun devicectl device process launch` with the console, replacing a
/// running instance.
pub fn device_launch_args(device_id: &str, bundle_id: &str) -> (args: Vec<String>)
    ensures
        str_views(args@) == seq![
            "devicectl"@,
            "device"@,
            "process"@,
            "launch"@,
            "--device"@,
            device_id@,
            "--console"@,
            "--terminate-existing"@,
            bundle_id@,
        ],
{
    let mut args: Vec<String> = Vec::new();
    push_arg(&mut args, "devicectl");
    push_arg(&mut args, "device");
    push_arg(&mut args, "process");
    push_arg(&mut args, "launch");
    push_arg(&mut args, "--device");
    push_arg(&mut args, device_id);
    push_arg(&mut args, "--console");
    push_arg(&mut args, "--terminate-existing");
    push_arg(&mut args, bundle_id);
    args
}

/// `devicectl device install app` for an app bundle.
pub fn device_install_args(device_id: &str, app_path: &str) -> (args: Vec<String>)
    ensures
        str_views(args@) == seq!["device"@, "install"@, "app"@, "--device"@, device_id@, app_path@],
{
    let mut args: Vec<String> = Vec::new();
    push_arg(&mut args, "device");
    push_arg(&mut args, "install");
    push_arg(&mut args, "app");
    push_arg(&mut args, "--device");
    push_arg(&mut args, device_id);
    push_arg(&mut args, app_path);
    args
}

/// `xcrun devicectl device info lockState`, written as JSON to `json_path`.
pub fn lock_state_args(device_id: &str, json_path: &str) -> (args: Vec<String>)
    ensures
        str_views(args@) == seq![
            "devicectl"@,
            "device"@,
            "info"@,
            "lockState"@,
            "--device"@,
            device_id@,
            "--quiet"@,
            "--json-output"@,
            json_path@,
        ],
{
    let mut args: Vec<String> = Vec::new();
    push_arg(&mut args, "devicectl");
    push_arg(&mut args, "device");
    push_arg(&mut args, "info");
    push_arg(&mut args, "lockState");
    push_arg(&mut args, "--device");
    push_arg(&mut args, device_id);
    push_arg(&mut args, "--quiet");
    push_arg(&mut args, "--json-output");
    push_arg(&mut args, json_path);
    args
}

/// The scheme lists of `xcodebuild -list -json`.
pub struct SchemeGroup {
    pub schemes: Option<Vec<String>>,
}

pub struct SchemeListing {
    pub project: Option<SchemeGroup>,
    pub workspace: Option<SchemeGroup>,
}

pub open spec fn group_schemes(g: Option<SchemeGroup>) -> Option<Seq<Seq<char>>> {
    match g {
        Some(SchemeGroup { schemes: Some(v) }) => Some(str_views(v@)),
        _ => None,
    }
}

/// The project's schemes when it lists them, else the workspace's, else none.
pub fn list_schemes(listing: SchemeListing) -> (r: Vec<String>)
    ensures
        str_views(r@) == match group_schemes(listing.project) {
            Some(s) => s,
            None => match group_schemes(listing.workspace) {
                Some(s) => s,
                None => Seq::empty(),
            },
        },
{
    match listing.project {
        Some(SchemeGroup { schemes: Some(v) }) => {
            return v;
        },
        _ => {},
    }
    match listing.workspace {
        Some(SchemeGroup { schemes: Some(v) }) => v,
        _ => {
            let r: Vec<String> = Vec::new();
            assert(str_views(r@) =~= Seq::<Seq<char>>::empty());
            r
        },
    }
}

} // verus!
