//! Run destinations: the `-destination` strings that `xcodebuild` takes, the
//! entries of `xcodebuild -showdestinations`, and the repair of saved ones.
use vstd::prelude::*;

use crate::locale::{t, Lang};
use crate::text::{
    chars_of, contains_lit, contains_sub, eq_lit, find_char, has_char, rfind_char, push_all, push_lit, split,
    split_char, split_once, split_once_seq, string_of, strip_prefix, strip_prefix_lit, trim,
    trimmed, views, opt_view, text_lines,
};

verus! {

/// What kind of machine a destination runs on; listed in the order in which
/// destinations are sorted (simulators first).
#[derive(Debug, Clone, Copy, PartialEq, Eq, Structural, PartialOrd, Ord)]
pub enum DestinationKind {
    Simulator,
    Device,
    Mac,
}

/// A build/run target from `xcodebuild -showdestinations`.
#[derive(Debug, Clone)]
pub struct RunDestination {
    pub kind: DestinationKind,
    pub name: String,
    pub platform: String,
    /// Xcode destination string for `-destination`.
    pub destination: String,
}

/// The value of a `RunDestination`.
pub struct DestinationView {
    pub kind: DestinationKind,
    pub name: Seq<char>,
    pub platform: Seq<char>,
    pub destination: Seq<char>,
}

impl View for RunDestination {
    type V = DestinationView;

    open spec fn view(&self) -> DestinationView {
        DestinationView {
            kind: self.kind,
            name: self.name@,
            platform: self.platform@,
            destination: self.destination@,
        }
    }
}

pub open spec fn dest_views(v: Seq<RunDestination>) -> Seq<DestinationView> {
    v.map_values(|d: RunDestination| d@)
}

impl RunDestination {
    /// A copy with the same value.
    pub fn duplicate(&self) -> (r: RunDestination)
        ensures
            r@ == self@,
    {
        RunDestination {
            kind: self.kind,
            name: self.name.clone(),
            platform: self.platform.clone(),
            destination: self.destination.clone(),
        }
    }
}

pub open spec fn kind_tag(kind: DestinationKind, lang: Lang) -> Seq<char> {
    match (kind, lang) {
        (DestinationKind::Simulator, Lang::ZhCn) => "模拟器"@,
        (DestinationKind::Simulator, Lang::En) => "Simulator"@,
        (DestinationKind::Device, Lang::ZhCn) => "真机"@,
        (DestinationKind::Device, Lang::En) => "Device"@,
        (DestinationKind::Mac, _) => "Mac"@,
    }
}

fn kind_tag_str(kind: DestinationKind, lang: Lang) -> (s: &'static str)
    ensures
        s@ == kind_tag(kind, lang),
{
    match kind {
        DestinationKind::Simulator => t(lang, "模拟器", "Simulator"),
        DestinationKind::Device => t(lang, "真机", "Device"),
        DestinationKind::Mac => t(lang, "Mac", "Mac"),
    }
}

impl RunDestination {
    /// `[tag] name`, as shown in the destination menu.
    pub fn menu_label(&self, lang: Lang) -> (s: String)
        ensures
            s@ == "["@ + kind_tag(self.kind, lang) + "] "@ + self.name@,
    {
        let mut r: Vec<char> = Vec::new();
        push_lit(&mut r, "[");
        push_lit(&mut r, kind_tag_str(self.kind, lang));
        push_lit(&mut r, "] ");
        push_lit(&mut r, self.name.as_str());
        string_of(r.as_slice())
    }

    /// `tag · name`, as shown in summaries.
    pub fn summary_line(&self, lang: Lang) -> (s: String)
        ensures
            s@ == kind_tag(self.kind, lang) + " · "@ + self.name@,
    {
        let mut r: Vec<char> = Vec::new();
        push_lit(&mut r, kind_tag_str(self.kind, lang));
        push_lit(&mut r, " · ");
        push_lit(&mut r, self.name.as_str());
        string_of(r.as_slice())
    }
}

// ---------------------------------------------------------------------------
// `key=value` / legacy `key:value` destination strings
// ---------------------------------------------------------------------------

/// A segment `k=v` (or, without `=`, `k:v`) split at its first separator.
pub open spec fn kv_of_part(p: Seq<char>) -> Option<(Seq<char>, Seq<char>)> {
    match split_once_seq(p, '=') {
        Some(kv) => Some(kv),
        None => split_once_seq(p, ':'),
    }
}

/// The value of the last segment whose key is `key`, both trimmed.
pub open spec fn kv_field(parts: Seq<Seq<char>>, key: Seq<char>) -> Option<Seq<char>>
    decreases parts.len(),
{
    if parts.len() == 0 {
        None
    } else {
        match kv_of_part(trimmed(parts.last())) {
            Some((k, v)) => if trimmed(k) == key {
                Some(trimmed(v))
            } else {
                kv_field(parts.drop_last(), key)
            },
            None => kv_field(parts.drop_last(), key),
        }
    }
}

/// The `platform`, `name` or `id` field of a destination string.
pub open spec fn dest_field(d: Seq<char>, key: Seq<char>) -> Option<Seq<char>> {
    kv_field(split_char(d, ','), key)
}

pub open spec fn has_fields(d: Seq<char>) -> bool {
    dest_field(d, "platform"@) is Some || dest_field(d, "name"@) is Some
}

/// The fields of a destination string, present when it names a platform or a name.
pub struct DestinationFields {
    pub platform: Option<String>,
    pub name: Option<String>,
    pub id: Option<String>,
}

struct Fields {
    platform: Option<Vec<char>>,
    name: Option<Vec<char>>,
    id: Option<Vec<char>>,
}

pub open spec fn opt_seq(o: Option<Vec<char>>) -> Option<Seq<char>> {
    match o {
        Some(v) => Some(v@),
        None => None,
    }
}

pub proof fn lemma_field_keys_distinct()
    ensures
        "platform"@ != "name"@,
        "platform"@ != "id"@,
        "name"@ != "id"@,
{
    reveal_strlit("platform");
    reveal_strlit("name");
    reveal_strlit("id");
    assert("platform"@.len() == 8);
    assert("name"@.len() == 4);
    assert("id"@.len() == 2);
}

fn scan_fields(d: &[char]) -> (f: Fields)
    ensures
        opt_seq(f.platform) == dest_field(d@, "platform"@),
        opt_seq(f.name) == dest_field(d@, "name"@),
        opt_seq(f.id) == dest_field(d@, "id"@),
{
    proof {
        lemma_field_keys_distinct();
    }
    let parts = split(d, ',');
    let ghost ps = split_char(d@, ',');
    let mut platform: Option<Vec<char>> = None;
    let mut name: Option<Vec<char>> = None;
    let mut id: Option<Vec<char>> = None;
    let mut i: usize = 0;
    assert(ps.subrange(0, 0).len() == 0);
    while i < parts.len()
        invariant
            views(parts@) == ps,
            i <= parts@.len(),
            "platform"@ != "name"@,
            "platform"@ != "id"@,
            "name"@ != "id"@,
            opt_seq(platform) == kv_field(ps.subrange(0, i as int), "platform"@),
            opt_seq(name) == kv_field(ps.subrange(0, i as int), "name"@),
            opt_seq(id) == kv_field(ps.subrange(0, i as int), "id"@),
        decreases parts@.len() - i,
    {
        let ghost pre = ps.subrange(0, i as int);
        let ghost next = ps.subrange(0, i + 1);
        assert(next.drop_last() =~= pre);
        assert(next.last() == parts@[i as int]@);
        let part = trim(parts[i].as_slice());
        let kv = match split_once(part.as_slice(), '=') {
            Some(kv) => Some(kv),
            None => split_once(part.as_slice(), ':'),
        };
        match kv {
            Some((k, v)) => {
                let key = trim(k.as_slice());
                let value = trim(v.as_slice());
                if eq_lit(key.as_slice(), "platform") {
                    platform = Some(value);
                } else if eq_lit(key.as_slice(), "name") {
                    name = Some(value);
                } else if eq_lit(key.as_slice(), "id") {
                    id = Some(value);
                }
            },
            None => {},
        }
        i = i + 1;
    }
    assert(ps.subrange(0, parts@.len() as int) =~= ps);
    Fields { platform, name, id }
}

/// The `platform`, `name` and `id` of `key=value` or legacy `key:value`
/// segments (the last segment of a key wins); `None` when neither a platform
/// nor a name is given.
pub fn parse_destination_fields(destination: &str) -> (r: Option<DestinationFields>)
    ensures
        match r {
            Some(f) => has_fields(destination@) && opt_view(f.platform) == dest_field(
                destination@,
                "platform"@,
            ) && opt_view(f.name) == dest_field(destination@, "name"@) && opt_view(f.id)
                == dest_field(destination@, "id"@),
            None => !has_fields(destination@),
        },
{
    let d = chars_of(destination);
    let f = scan_fields(d.as_slice());
    if f.platform.is_some() || f.name.is_some() {
        Some(
            DestinationFields {
                platform: crate::text::opt_string_of(&f.platform),
                name: crate::text::opt_string_of(&f.name),
                id: crate::text::opt_string_of(&f.id),
            },
        )
    } else {
        None
    }
}

pub open spec fn is_placeholder(d: Seq<char>) -> bool {
    if !has_fields(d) {
        contains_sub(d, "placeholder"@) || contains_sub(d, "Any iOS Simulator Device"@)
    } else {
        ||| (match dest_field(d, "id"@) {
            Some(i) => contains_sub(i, "placeholder"@),
            None => false,
        })
        ||| (match dest_field(d, "name"@) {
            Some(n) => contains_sub(n, "placeholder"@) || n == "Any iOS Simulator Device"@ || n
                == "Any Mac"@,
            None => false,
        })
    }
}

fn placeholder_in(d: &[char], f: &Fields) -> (b: bool)
    requires
        opt_seq(f.platform) == dest_field(d@, "platform"@),
        opt_seq(f.name) == dest_field(d@, "name"@),
        opt_seq(f.id) == dest_field(d@, "id"@),
    ensures
        b == is_placeholder(d@),
{
    if f.platform.is_none() && f.name.is_none() {
        return contains_lit(d, "placeholder") || contains_lit(d, "Any iOS Simulator Device");
    }
    let id_bad = match &f.id {
        Some(i) => contains_lit(i.as_slice(), "placeholder"),
        None => false,
    };
    let name_bad = match &f.name {
        Some(n) => contains_lit(n.as_slice(), "placeholder") || eq_lit(
            n.as_slice(),
            "Any iOS Simulator Device",
        ) || eq_lit(n.as_slice(), "Any Mac"),
        None => false,
    };
    id_bad || name_bad
}

/// Whether this destination cannot be used for build/run (Xcode placeholders).
pub fn is_placeholder_destination(destination: &str) -> (b: bool)
    ensures
        b == is_placeholder(destination@),
{
    let d = chars_of(destination);
    let f = scan_fields(d.as_slice());
    placeholder_in(d.as_slice(), &f)
}

/// An `id` that is not an Xcode placeholder.
pub open spec fn real_id(id: Option<Seq<char>>) -> Option<Seq<char>> {
    match id {
        Some(i) => if contains_sub(i, "placeholder"@) {
            None
        } else {
            Some(i)
        },
        None => None,
    }
}

/// The `xcodebuild -destination` form (`key=value` pairs) of a stored destination.
pub open spec fn normalized(d: Seq<char>) -> Option<Seq<char>> {
    if is_placeholder(d) {
        None
    } else {
        match (dest_field(d, "platform"@), dest_field(d, "name"@)) {
            (Some(p), Some(n)) => if contains_sub(p, "Simulator"@) {
                Some("platform=iOS Simulator,name="@ + n)
            } else if p == "iOS"@ {
                match real_id(dest_field(d, "id"@)) {
                    Some(i) => Some("platform=iOS,id="@ + i + ",name="@ + n),
                    None => Some("platform=iOS,name="@ + n),
                }
            } else if p == "macOS"@ {
                Some("platform=macOS,name="@ + n)
            } else {
                None
            },
            _ => None,
        }
    }
}

fn normalized_chars(d: &[char]) -> (r: Option<Vec<char>>)
    ensures
        opt_seq(r) == normalized(d@),
{
    let f = scan_fields(d);
    if placeholder_in(d, &f) {
        return None;
    }
    match (&f.platform, &f.name) {
        (Some(p), Some(n)) => {
            let mut r: Vec<char> = Vec::new();
            if contains_lit(p.as_slice(), "Simulator") {
                push_lit(&mut r, "platform=iOS Simulator,name=");
                push_all(&mut r, n.as_slice());
                Some(r)
            } else if eq_lit(p.as_slice(), "iOS") {
                let usable = match &f.id {
                    Some(i) => !contains_lit(i.as_slice(), "placeholder"),
                    None => false,
                };
                if usable {
                    let i = f.id.as_ref().unwrap();
                    push_lit(&mut r, "platform=iOS,id=");
                    push_all(&mut r, i.as_slice());
                    push_lit(&mut r, ",name=");
                    push_all(&mut r, n.as_slice());
                } else {
                    push_lit(&mut r, "platform=iOS,name=");
                    push_all(&mut r, n.as_slice());
                }
                Some(r)
            } else if eq_lit(p.as_slice(), "macOS") {
                push_lit(&mut r, "platform=macOS,name=");
                push_all(&mut r, n.as_slice());
                Some(r)
            } else {
                None
            }
        },
        _ => None,
    }
}

/// Convert stored destination to `xcodebuild -destination` form (`key=value` pairs).
pub fn normalize_xcodebuild_destination(destination: &str) -> (r: Option<String>)
    ensures
        opt_view(r) == normalized(destination@),
{
    let d = chars_of(destination);
    match normalized_chars(d.as_slice()) {
        Some(v) => Some(string_of(v.as_slice())),
        None => None,
    }
}

/// Why a destination cannot be handed to `xcodebuild`.
#[derive(Debug, Clone, Copy, PartialEq, Eq, Structural)]
pub enum InvalidReason {
    Empty,
    Placeholder,
    MissingKeyValue,
    MalformedSegment,
}

/// A destination refused before invoking `xcodebuild`.
#[derive(Debug, Clone)]
pub struct InvalidDestination {
    pub reason: InvalidReason,
    pub destination: String,
}

pub open spec fn segment_malformed(p: Seq<char>) -> bool {
    trimmed(p).len() == 0 || !has_char(trimmed(p), '=')
}

pub open spec fn some_segment_malformed(parts: Seq<Seq<char>>) -> bool {
    exists|i: int| 0 <= i < parts.len() && segment_malformed(parts[i])
}

/// The first check that `destination` fails, if any.
pub open spec fn destination_problem(d: Seq<char>) -> Option<InvalidReason> {
    if trimmed(d).len() == 0 {
        Some(InvalidReason::Empty)
    } else if is_placeholder(d) {
        Some(InvalidReason::Placeholder)
    } else if !has_char(d, '=') {
        Some(InvalidReason::MissingKeyValue)
    } else if some_segment_malformed(split_char(d, ',')) {
        Some(InvalidReason::MalformedSegment)
    } else {
        None
    }
}

pub open spec fn reason_text(reason: InvalidReason) -> Seq<char> {
    match reason {
        InvalidReason::Empty => "empty"@,
        InvalidReason::Placeholder => "placeholder (not a real simulator or device)"@,
        InvalidReason::MissingKeyValue => "expected key=value pairs"@,
        InvalidReason::MalformedSegment => "malformed destination segment"@,
    }
}

fn reason_str(reason: InvalidReason) -> (s: &'static str)
    ensures
        s@ == reason_text(reason),
{
    match reason {
        InvalidReason::Empty => "empty",
        InvalidReason::Placeholder => "placeholder (not a real simulator or device)",
        InvalidReason::MissingKeyValue => "expected key=value pairs",
        InvalidReason::MalformedSegment => "malformed destination segment",
    }
}

pub open spec fn invalid_destination_message(lang: Lang, reason: InvalidReason, d: Seq<char>) -> Seq<char> {
    match lang {
        Lang::ZhCn => "运行目标（destination）无效："@ + reason_text(reason) + "\n  当前值: "@ + d
            + "\n  请执行: ios-runner switch\n  或在 Zed 中运行「iOS-Runner: 选择 Scheme 与设备」重新选择模拟器/真机。"@,
        Lang::En => "Invalid run destination: "@ + reason_text(reason) + "\n  Current: "@ + d
            + "\n  Run: ios-runner switch\n  Or use the Zed task「iOS-Runner: Select Scheme & Device」."@,
    }
}

impl InvalidDestination {
    /// The message shown to the user.
    pub fn message(&self, lang: Lang) -> (s: String)
        ensures
            s@ == invalid_destination_message(lang, self.reason, self.destination@),
    {
        let mut r: Vec<char> = Vec::new();
        match lang {
            Lang::ZhCn => {
                push_lit(&mut r, "运行目标（destination）无效：");
                push_lit(&mut r, reason_str(self.reason));
                push_lit(&mut r, "\n  当前值: ");
                push_lit(&mut r, self.destination.as_str());
                push_lit(
                    &mut r,
                    "\n  请执行: ios-runner switch\n  或在 Zed 中运行「iOS-Runner: 选择 Scheme 与设备」重新选择模拟器/真机。",
                );
            },
            Lang::En => {
                push_lit(&mut r, "Invalid run destination: ");
                push_lit(&mut r, reason_str(self.reason));
                push_lit(&mut r, "\n  Current: ");
                push_lit(&mut r, self.destination.as_str());
                push_lit(
                    &mut r,
                    "\n  Run: ios-runner switch\n  Or use the Zed task「iOS-Runner: Select Scheme & Device」.",
                );
            },
        }
        string_of(r.as_slice())
    }
}

fn any_segment_malformed(d: &[char]) -> (b: bool)
    ensures
        b == some_segment_malformed(split_char(d@, ',')),
{
    let parts = split(d, ',');
    let ghost ps = split_char(d@, ',');
    let mut i: usize = 0;
    while i < parts.len()
        invariant
            views(parts@) == ps,
            ps == split_char(d@, ','),
            i <= parts@.len(),
            forall|k: int| 0 <= k < i ==> !segment_malformed(ps[k]),
        decreases parts@.len() - i,
    {
        assert(ps[i as int] == parts@[i as int]@);
        let part = trim(parts[i].as_slice());
        if part.len() == 0 || !crate::text::has(part.as_slice(), '=') {
            assert(segment_malformed(ps[i as int]));
            return true;
        }
        i = i + 1;
    }
    false
}

/// Validate before invoking xcodebuild: not blank, not a placeholder, and
/// made of `key=value` segments.
pub fn validate_xcodebuild_destination(destination: &str) -> (r: Result<(), InvalidDestination>)
    ensures
        match r {
            Ok(()) => destination_problem(destination@) is None,
            Err(e) => destination_problem(destination@) == Some(e.reason) && e.destination@
                == destination@,
        },
{
    let d = chars_of(destination);
    let reason = if trim(d.as_slice()).len() == 0 {
        Some(InvalidReason::Empty)
    } else if is_placeholder_destination(destination) {
        Some(InvalidReason::Placeholder)
    } else if !crate::text::has(d.as_slice(), '=') {
        Some(InvalidReason::MissingKeyValue)
    } else if any_segment_malformed(d.as_slice()) {
        Some(InvalidReason::MalformedSegment)
    } else {
        None
    };
    match reason {
        Some(reason) => Err(
            InvalidDestination { reason, destination: crate::text::string_of(d.as_slice()) },
        ),
        None => Ok(()),
    }
}

pub open spec fn is_simulator(d: Seq<char>) -> bool {
    contains_sub(d, "Simulator"@)
}

pub open spec fn is_macos(d: Seq<char>) -> bool {
    contains_sub(d, "platform=macOS"@) || contains_sub(d, "platform:macOS"@)
}

pub fn is_simulator_destination(destination: &str) -> (b: bool)
    ensures
        b == is_simulator(destination@),
{
    let d = chars_of(destination);
    contains_lit(d.as_slice(), "Simulator")
}

pub fn is_macos_destination(destination: &str) -> (b: bool)
    ensures
        b == is_macos(destination@),
{
    let d = chars_of(destination);
    contains_lit(d.as_slice(), "platform=macOS") || contains_lit(d.as_slice(), "platform:macOS")
}

pub open spec fn kind_of(d: Seq<char>) -> Option<DestinationKind> {
    if is_macos(d) {
        Some(DestinationKind::Mac)
    } else if is_simulator(d) {
        Some(DestinationKind::Simulator)
    } else if contains_sub(d, "platform=iOS"@) || contains_sub(d, "platform:iOS"@) {
        Some(DestinationKind::Device)
    } else {
        None
    }
}

/// The kind of machine a stored destination names.
pub fn destination_kind(destination: &str) -> (k: Option<DestinationKind>)
    ensures
        k == kind_of(destination@),
{
    if is_macos_destination(destination) {
        Some(DestinationKind::Mac)
    } else if is_simulator_destination(destination) {
        Some(DestinationKind::Simulator)
    } else {
        let d = chars_of(destination);
        if contains_lit(d.as_slice(), "platform=iOS") || contains_lit(d.as_slice(), "platform:iOS") {
            Some(DestinationKind::Device)
        } else {
            None
        }
    }
}

pub open spec fn display_name(d: Seq<char>) -> Option<Seq<char>> {
    if is_macos(d) {
        match dest_field(d, "name"@) {
            Some(n) => Some(n),
            None => Some("My Mac"@),
        }
    } else {
        dest_field(d, "name"@)
    }
}

/// Human-readable device/simulator name from either `key=value` or legacy `key:value` strings.
pub fn destination_display_name(destination: &str) -> (r: Option<String>)
    ensures
        opt_view(r) == display_name(destination@),
{
    let d = chars_of(destination);
    let f = scan_fields(d.as_slice());
    if is_macos_destination(destination) {
        match &f.name {
            Some(n) => Some(string_of(n.as_slice())),
            None => Some(string_of(chars_of("My Mac").as_slice())),
        }
    } else {
        crate::text::opt_string_of(&f.name)
    }
}

/// The first segment `id=<value>` whose trimmed value is a real device id.
pub open spec fn udid_in(parts: Seq<Seq<char>>) -> Option<Seq<char>>
    decreases parts.len(),
{
    if parts.len() == 0 {
        None
    } else {
        match strip_prefix(trimmed(parts[0]), "id="@) {
            Some(v) => if trimmed(v).len() > 0 && !contains_sub(trimmed(v), "placeholder"@) {
                Some(trimmed(v))
            } else {
                udid_in(parts.subrange(1, parts.len() as int))
            },
            None => udid_in(parts.subrange(1, parts.len() as int)),
        }
    }
}

/// A destination without a usable `id=` segment.
#[derive(Debug, Clone)]
pub struct NoDeviceId {
    pub destination: String,
}

impl NoDeviceId {
    pub fn message(&self) -> (s: String)
        ensures
            s@ == "no device id in destination: "@ + self.destination@,
    {
        let mut r: Vec<char> = Vec::new();
        push_lit(&mut r, "no device id in destination: ");
        push_lit(&mut r, self.destination.as_str());
        string_of(r.as_slice())
    }
}

/// The device UDID of a physical-device destination (`id=` segment).
pub fn device_udid_from_destination(destination: &str) -> (r: Result<String, NoDeviceId>)
    ensures
        match r {
            Ok(id) => udid_in(split_char(destination@, ',')) == Some(id@),
            Err(e) => udid_in(split_char(destination@, ',')) is None && e.destination@
                == destination@,
        },
{
    let d = chars_of(destination);
    let parts = split(d.as_slice(), ',');
    let ghost ps = split_char(d@, ',');
    let mut i: usize = 0;
    assert(ps.subrange(0, ps.len() as int) =~= ps);
    while i < parts.len()
        invariant
            views(parts@) == ps,
            ps == split_char(d@, ','),
            d@ == destination@,
            i <= parts@.len(),
            udid_in(ps) == udid_in(ps.subrange(i as int, ps.len() as int)),
        decreases parts@.len() - i,
    {
        let ghost rest = ps.subrange(i as int, ps.len() as int);
        assert(rest[0] == parts@[i as int]@);
        assert(rest.subrange(1, rest.len() as int) =~= ps.subrange(i + 1, ps.len() as int));
        let part = trim(parts[i].as_slice());
        match strip_prefix_lit(part.as_slice(), "id=") {
            Some(v) => {
                let id = trim(v.as_slice());
                if id.len() > 0 && !contains_lit(id.as_slice(), "placeholder") {
                    assert(rest.len() > 0);
                    assert(part@ == trimmed(rest[0]));
                    assert(udid_in(rest) == Some(id@));
                    return Ok(string_of(id.as_slice()));
                }
            },
            None => {},
        }
        i = i + 1;
    }
    assert(ps.subrange(parts@.len() as int, ps.len() as int).len() == 0);
    Err(NoDeviceId { destination: string_of(d.as_slice()) })
}

// ---------------------------------------------------------------------------
// Choosing among the destinations Xcode reports
// ---------------------------------------------------------------------------

/// The index of the first element of `s` that satisfies `pred`.
pub open spec fn first_where(s: Seq<DestinationView>, pred: spec_fn(DestinationView) -> bool) -> Option<int>
    decreases s.len(),
{
    if s.len() == 0 {
        None
    } else {
        match first_where(s.drop_last(), pred) {
            Some(i) => Some(i),
            None => if pred(s.last()) {
                Some(s.len() - 1)
            } else {
                None
            },
        }
    }
}

pub proof fn lemma_first_where_bounds(s: Seq<DestinationView>, pred: spec_fn(DestinationView) -> bool)
    ensures
        first_where(s, pred) matches Some(i) ==> 0 <= i < s.len() && pred(s[i]) && forall|j: int|
            0 <= j < i ==> !pred(s[j]),
        first_where(s, pred) is None ==> forall|j: int| 0 <= j < s.len() ==> !pred(s[j]),
    decreases s.len(),
{
    if s.len() > 0 {
        let t = s.drop_last();
        lemma_first_where_bounds(t, pred);
        assert(forall|j: int| 0 <= j < t.len() ==> t[j] == s[j]);
    }
}

pub proof fn lemma_first_where_prefix(s: Seq<DestinationView>, pred: spec_fn(DestinationView) -> bool, k: int)
    requires
        0 <= k <= s.len(),
        first_where(s.subrange(0, k), pred) is Some,
    ensures
        first_where(s, pred) == first_where(s.subrange(0, k), pred),
    decreases s.len() - k,
{
    if k < s.len() {
        assert(s.subrange(0, k + 1).drop_last() =~= s.subrange(0, k));
        lemma_first_where_prefix(s, pred, k + 1);
    } else {
        assert(s.subrange(0, k) =~= s);
    }
}

/// The conditions by which the library picks a destination from a list.
pub enum Query {
    MyMac,
    Kind(DestinationKind),
    KindAndName(DestinationKind, Vec<char>),
    KindAndNamePrefix(DestinationKind, Vec<char>),
    Name(Vec<char>),
    Destination(Vec<char>),
}

pub open spec fn my_mac_pred() -> spec_fn(DestinationView) -> bool {
    |d: DestinationView| d.kind == DestinationKind::Mac && d.name == "My Mac"@
}

pub open spec fn kind_pred(k: DestinationKind) -> spec_fn(DestinationView) -> bool {
    |d: DestinationView| d.kind == k
}

pub open spec fn kind_name_pred(k: DestinationKind, n: Seq<char>) -> spec_fn(DestinationView) -> bool {
    |d: DestinationView| d.kind == k && d.name == n
}

pub open spec fn kind_name_prefix_pred(k: DestinationKind, p: Seq<char>) -> spec_fn(DestinationView) -> bool {
    |d: DestinationView| d.kind == k && crate::text::has_prefix(d.name, p)
}

pub open spec fn name_pred(n: Seq<char>) -> spec_fn(DestinationView) -> bool {
    |d: DestinationView| d.name == n
}

pub open spec fn destination_pred(x: Seq<char>) -> spec_fn(DestinationView) -> bool {
    |d: DestinationView| d.destination == x
}

pub open spec fn query_pred(q: Query) -> spec_fn(DestinationView) -> bool {
    match q {
        Query::MyMac => my_mac_pred(),
        Query::Kind(k) => kind_pred(k),
        Query::KindAndName(k, n) => kind_name_pred(k, n@),
        Query::KindAndNamePrefix(k, p) => kind_name_prefix_pred(k, p@),
        Query::Name(n) => name_pred(n@),
        Query::Destination(x) => destination_pred(x@),
    }
}

fn matches_query(q: &Query, d: &RunDestination) -> (b: bool)
    ensures
        b == (query_pred(*q))(d@),
{
    match q {
        Query::MyMac => d.kind == DestinationKind::Mac && eq_lit(chars_of(d.name.as_str()).as_slice(), "My Mac"),
        Query::Kind(k) => d.kind == *k,
        Query::KindAndName(k, n) => d.kind == *k && crate::text::eq(chars_of(d.name.as_str()).as_slice(), n.as_slice()),
        Query::KindAndNamePrefix(k, p) => d.kind == *k && crate::text::starts_with(chars_of(d.name.as_str()).as_slice(), p.as_slice()),
        Query::Name(n) => crate::text::eq(chars_of(d.name.as_str()).as_slice(), n.as_slice()),
        Query::Destination(x) => crate::text::eq(chars_of(d.destination.as_str()).as_slice(), x.as_slice()),
    }
}

/// The index of the first destination that meets `q`.
pub fn position_where(v: &Vec<RunDestination>, q: &Query) -> (r: Option<usize>)
    ensures
        match r {
            Some(i) => first_where(dest_views(v@), query_pred(*q)) == Some(i as int),
            None => first_where(dest_views(v@), query_pred(*q)) is None,
        },
{
    let ghost s = dest_views(v@);
    let ghost pred = query_pred(*q);
    let mut i: usize = 0;
    assert(s.subrange(0, 0).len() == 0);
    while i < v.len()
        invariant
            s == dest_views(v@),
            pred == query_pred(*q),
            i <= v@.len(),
            first_where(s.subrange(0, i as int), pred) is None,
        decreases v@.len() - i,
    {
        assert(s.subrange(0, i + 1).drop_last() =~= s.subrange(0, i as int));
        if matches_query(q, &v[i]) {
            proof {
                lemma_first_where_prefix(s, pred, i + 1);
            }
            return Some(i);
        }
        i = i + 1;
    }
    assert(s.subrange(0, v@.len() as int) =~= s);
    None
}

pub open spec fn default_index(s: Seq<DestinationView>) -> int {
    match first_where(s, my_mac_pred()) {
        Some(i) => i,
        None => match first_where(s, kind_pred(DestinationKind::Mac)) {
            Some(i) => i,
            None => match first_where(s, kind_pred(DestinationKind::Device)) {
                Some(i) => i,
                None => 0,
            },
        },
    }
}

/// Prefer My Mac, then other Mac targets, then physical device, else first entry.
pub fn default_destination_index(destinations: &Vec<RunDestination>) -> (i: usize)
    ensures
        i == default_index(dest_views(destinations@)),
        destinations@.len() > 0 ==> i < destinations@.len(),
{
    proof {
        let s = dest_views(destinations@);
        lemma_first_where_bounds(s, my_mac_pred());
        lemma_first_where_bounds(s, kind_pred(DestinationKind::Mac));
        lemma_first_where_bounds(s, kind_pred(DestinationKind::Device));
    }
    match position_where(destinations, &Query::MyMac) {
        Some(i) => i,
        None => match position_where(destinations, &Query::Kind(DestinationKind::Mac)) {
            Some(i) => i,
            None => match position_where(destinations, &Query::Kind(DestinationKind::Device)) {
                Some(i) => i,
                None => 0,
            },
        },
    }
}

/// The form in which a saved destination is looked up among reported ones.
pub open spec fn lookup_form(d: Seq<char>) -> Seq<char> {
    match normalized(d) {
        Some(n) => n,
        None => trimmed(d),
    }
}

pub open spec fn is_available(d: Seq<char>, s: Seq<DestinationView>) -> bool {
    exists|i: int| 0 <= i < s.len() && s[i].destination == lookup_form(d)
}

/// Whether Xcode still reports the saved destination.
pub fn destination_is_available(destination: &str, available: &Vec<RunDestination>) -> (b: bool)
    ensures
        b == is_available(destination@, dest_views(available@)),
{
    let d = chars_of(destination);
    let key = match normalized_chars(d.as_slice()) {
        Some(n) => n,
        None => trim(d.as_slice()),
    };
    let ghost s = dest_views(available@);
    let r = position_where(available, &Query::Destination(key));
    proof {
        lemma_first_where_bounds(s, destination_pred(lookup_form(destination@)));
    }
    r.is_some()
}

pub open spec fn name_match_index(current: Seq<char>, s: Seq<DestinationView>) -> Option<int> {
    match display_name(current) {
        Some(n) => match (match kind_of(current) {
            Some(k) => first_where(s, kind_name_pred(k, n)),
            None => None,
        }) {
            Some(i) => Some(i),
            None => first_where(s, name_pred(n)),
        },
        None => None,
    }
}

/// The replacement for a saved destination that Xcode no longer reports:
/// the same kind and name, else the same name, else the default choice.
pub open spec fn replacement(current: Seq<char>, s: Seq<DestinationView>) -> Option<DestinationView> {
    if s.len() == 0 || is_available(current, s) {
        None
    } else {
        match name_match_index(current, s) {
            Some(i) => Some(s[i]),
            None => Some(s[default_index(s)]),
        }
    }
}

/// Pick the least surprising replacement for a saved destination that Xcode no longer reports.
pub fn replacement_destination_for_unavailable(current: &str, available: &Vec<RunDestination>) -> (r: Option<RunDestination>)
    ensures
        match r {
            Some(d) => replacement(current@, dest_views(available@)) == Some(d@),
            None => replacement(current@, dest_views(available@)) is None,
        },
{
    if available.len() == 0 || destination_is_available(current, available) {
        return None;
    }
    let ghost s = dest_views(available@);
    let kind = destination_kind(current);
    let name = destination_display_name(current);
    match name {
        Some(n) => {
            let nc = chars_of(n.as_str());
            let by_kind = match kind {
                Some(k) => position_where(available, &Query::KindAndName(k, chars_of(n.as_str()))),
                None => None,
            };
            let found = match by_kind {
                Some(i) => Some(i),
                None => position_where(available, &Query::Name(nc)),
            };
            proof {
                lemma_first_where_bounds(s, name_pred(n@));
                if let Some(k) = kind {
                    lemma_first_where_bounds(s, kind_name_pred(k, n@));
                }
            }
            match found {
                Some(i) => {
                    return Some(available[i].duplicate());
                },
                None => {},
            }
        },
        None => {},
    }
    let i = default_destination_index(available);
    Some(available[i].duplicate())
}

// ---------------------------------------------------------------------------
// `xcodebuild -showdestinations` output
// ---------------------------------------------------------------------------

pub open spec fn strip_either(p: Seq<char>, a: Seq<char>, b: Seq<char>) -> Option<Seq<char>> {
    match strip_prefix(p, a) {
        Some(v) => Some(v),
        None => strip_prefix(p, b),
    }
}

/// The trimmed value of the last segment that starts with `a` or `b`.
pub open spec fn last_field(parts: Seq<Seq<char>>, a: Seq<char>, b: Seq<char>) -> Option<Seq<char>>
    decreases parts.len(),
{
    if parts.len() == 0 {
        None
    } else {
        match strip_either(trimmed(parts.last()), a, b) {
            Some(v) => Some(trimmed(v)),
            None => last_field(parts.drop_last(), a, b),
        }
    }
}

/// The value, as it stands, of the first segment that starts with `a` or `b`.
pub open spec fn first_raw(parts: Seq<Seq<char>>, a: Seq<char>, b: Seq<char>) -> Option<Seq<char>>
    decreases parts.len(),
{
    if parts.len() == 0 {
        None
    } else {
        match strip_either(trimmed(parts[0]), a, b) {
            Some(v) => Some(v),
            None => first_raw(parts.subrange(1, parts.len() as int), a, b),
        }
    }
}

/// Names Xcode lists for generic targets rather than real machines.
pub open spec fn hidden_name(n: Seq<char>) -> bool {
    contains_sub(n, "placeholder"@) || n == "Any iOS Device"@ || n == "Any Mac"@
}

pub open spec fn mac_destination(parts: Seq<Seq<char>>, n: Seq<char>) -> Seq<char> {
    match real_id(last_field(parts, "id:"@, "id="@)) {
        Some(i) => match first_raw(parts, "arch:"@, "arch="@) {
            Some(a) => "platform=macOS,arch="@ + a,
            None => "platform=macOS,id="@ + i + ",name="@ + n,
        },
        None => "platform=macOS,name="@ + n,
    }
}

pub open spec fn device_destination(parts: Seq<Seq<char>>, n: Seq<char>) -> Seq<char> {
    match real_id(last_field(parts, "id:"@, "id="@)) {
        Some(i) => "platform=iOS,id="@ + i + ",name="@ + n,
        None => "platform=iOS,name="@ + n,
    }
}

/// The destination described by the segments between the braces of a line.
pub open spec fn parsed_inner(inner: Seq<char>) -> Option<DestinationView> {
    let parts = split_char(inner, ',');
    match (last_field(parts, "platform:"@, "platform="@), last_field(parts, "name:"@, "name="@)) {
        (Some(p), Some(n)) => if hidden_name(n) {
            None
        } else if p == "macOS"@ {
            Some(
                DestinationView {
                    kind: DestinationKind::Mac,
                    name: n,
                    platform: "macOS"@,
                    destination: mac_destination(parts, n),
                },
            )
        } else if contains_sub(p, "Simulator"@) {
            Some(
                DestinationView {
                    kind: DestinationKind::Simulator,
                    name: n,
                    platform: p,
                    destination: "platform=iOS Simulator,name="@ + n,
                },
            )
        } else if p == "iOS"@ {
            Some(
                DestinationView {
                    kind: DestinationKind::Device,
                    name: n,
                    platform: p,
                    destination: device_destination(parts, n),
                },
            )
        } else {
            None
        },
        _ => None,
    }
}

/// The destination of a `{ key:value, ... }` line of `-showdestinations`.
pub open spec fn parsed_line(line: Seq<char>) -> Option<DestinationView> {
    match (find_char(line, '{'), rfind_char(line, '}')) {
        (Some(a), Some(b)) => {
            let inner = trimmed(line.subrange(a + 1, b));
            if inner.len() == 0 {
                None
            } else {
                parsed_inner(inner)
            }
        },
        _ => None,
    }
}

/// The slice between the first `{` and the last `}` is well formed.
pub open spec fn braces_ordered(line: Seq<char>) -> bool {
    match (find_char(line, '{'), rfind_char(line, '}')) {
        (Some(a), Some(b)) => a < b,
        _ => true,
    }
}

fn strip_either_lit(p: &[char], a: &str, b: &str) -> (r: Option<Vec<char>>)
    ensures
        opt_seq(r) == strip_either(p@, a@, b@),
{
    match strip_prefix_lit(p, a) {
        Some(v) => Some(v),
        None => strip_prefix_lit(p, b),
    }
}

fn last_field_of(parts: &Vec<Vec<char>>, a: &str, b: &str) -> (r: Option<Vec<char>>)
    ensures
        opt_seq(r) == last_field(views(parts@), a@, b@),
{
    let ghost ps = views(parts@);
    let mut found: Option<Vec<char>> = None;
    let mut i: usize = 0;
    assert(ps.subrange(0, 0).len() == 0);
    while i < parts.len()
        invariant
            ps == views(parts@),
            i <= parts@.len(),
            opt_seq(found) == last_field(ps.subrange(0, i as int), a@, b@),
        decreases parts@.len() - i,
    {
        assert(ps.subrange(0, i + 1).drop_last() =~= ps.subrange(0, i as int));
        assert(ps.subrange(0, i + 1).last() == parts@[i as int]@);
        let part = trim(parts[i].as_slice());
        match strip_either_lit(part.as_slice(), a, b) {
            Some(v) => {
                found = Some(trim(v.as_slice()));
            },
            None => {},
        }
        i = i + 1;
    }
    assert(ps.subrange(0, parts@.len() as int) =~= ps);
    found
}

fn first_raw_of(parts: &Vec<Vec<char>>, a: &str, b: &str) -> (r: Option<Vec<char>>)
    ensures
        opt_seq(r) == first_raw(views(parts@), a@, b@),
{
    let ghost ps = views(parts@);
    let mut i: usize = 0;
    assert(ps.subrange(0, ps.len() as int) =~= ps);
    while i < parts.len()
        invariant
            ps == views(parts@),
            i <= parts@.len(),
            first_raw(ps, a@, b@) == first_raw(ps.subrange(i as int, ps.len() as int), a@, b@),
        decreases parts@.len() - i,
    {
        let ghost rest = ps.subrange(i as int, ps.len() as int);
        assert(rest[0] == parts@[i as int]@);
        assert(rest.subrange(1, rest.len() as int) =~= ps.subrange(i + 1, ps.len() as int));
        let part = trim(parts[i].as_slice());
        match strip_either_lit(part.as_slice(), a, b) {
            Some(v) => {
                return Some(v);
            },
            None => {},
        }
        i = i + 1;
    }
    None
}

fn usable_id(id: &Option<Vec<char>>) -> (r: Option<Vec<char>>)
    ensures
        opt_seq(r) == real_id(opt_seq(*id)),
{
    match id {
        Some(i) => if contains_lit(i.as_slice(), "placeholder") {
            None
        } else {
            Some(crate::text::slice_of(i.as_slice(), 0, i.len()))
        },
        None => None,
    }
}

fn parse_inner(inner: &[char]) -> (r: Option<RunDestination>)
    ensures
        match r {
            Some(d) => parsed_inner(inner@) == Some(d@),
            None => parsed_inner(inner@) is None,
        },
{
    let parts = split(inner, ',');
    let platform = last_field_of(&parts, "platform:", "platform=");
    let name = last_field_of(&parts, "name:", "name=");
    let id = usable_id(&last_field_of(&parts, "id:", "id="));
    let (p, n) = match (platform, name) {
        (Some(p), Some(n)) => (p, n),
        _ => {
            return None;
        },
    };
    if contains_lit(n.as_slice(), "placeholder") || eq_lit(n.as_slice(), "Any iOS Device")
        || eq_lit(n.as_slice(), "Any Mac") {
        return None;
    }
    let mut dest: Vec<char> = Vec::new();
    if eq_lit(p.as_slice(), "macOS") {
        match id {
            Some(i) => match first_raw_of(&parts, "arch:", "arch=") {
                Some(a) => {
                    push_lit(&mut dest, "platform=macOS,arch=");
                    push_all(&mut dest, a.as_slice());
                },
                None => {
                    push_lit(&mut dest, "platform=macOS,id=");
                    push_all(&mut dest, i.as_slice());
                    push_lit(&mut dest, ",name=");
                    push_all(&mut dest, n.as_slice());
                },
            },
            None => {
                push_lit(&mut dest, "platform=macOS,name=");
                push_all(&mut dest, n.as_slice());
            },
        }
        return Some(
            RunDestination {
                kind: DestinationKind::Mac,
                name: string_of(n.as_slice()),
                platform: string_of(chars_of("macOS").as_slice()),
                destination: string_of(dest.as_slice()),
            },
        );
    }
    let kind = if contains_lit(p.as_slice(), "Simulator") {
        DestinationKind::Simulator
    } else if eq_lit(p.as_slice(), "iOS") {
        DestinationKind::Device
    } else {
        return None;
    };
    if kind == DestinationKind::Simulator {
        push_lit(&mut dest, "platform=iOS Simulator,name=");
        push_all(&mut dest, n.as_slice());
    } else {
        match id {
            Some(i) => {
                push_lit(&mut dest, "platform=iOS,id=");
                push_all(&mut dest, i.as_slice());
                push_lit(&mut dest, ",name=");
                push_all(&mut dest, n.as_slice());
            },
            None => {
                push_lit(&mut dest, "platform=iOS,name=");
                push_all(&mut dest, n.as_slice());
            },
        }
    }
    Some(
        RunDestination {
            kind,
            name: string_of(n.as_slice()),
            platform: string_of(p.as_slice()),
            destination: string_of(dest.as_slice()),
        },
    )
}

/// Parses one `{ platform:…, id:…, name:… }` line of `xcodebuild -showdestinations`.
pub fn parse_destination_line(line: &str) -> (r: Option<RunDestination>)
    requires
        braces_ordered(line@),
    ensures
        match r {
            Some(d) => parsed_line(line@) == Some(d@),
            None => parsed_line(line@) is None,
        },
{
    let l = chars_of(line);
    let _n = l.len();
    let start = match crate::text::find(l.as_slice(), '{') {
        Some(a) => a + 1,
        None => {
            return None;
        },
    };
    let end = match crate::text::rfind(l.as_slice(), '}') {
        Some(b) => b,
        None => {
            return None;
        },
    };
    let inner = trim(crate::text::slice_of(l.as_slice(), start, end).as_slice());
    if inner.len() == 0 {
        return None;
    }
    parse_inner(inner.as_slice())
}

pub open spec fn kind_rank(k: DestinationKind) -> int {
    match k {
        DestinationKind::Simulator => 0,
        DestinationKind::Device => 1,
        DestinationKind::Mac => 2,
    }
}

/// `a` does not sort after `b`: by kind (simulators, devices, Macs), then by name.
pub open spec fn dest_le(a: DestinationView, b: DestinationView) -> bool {
    kind_rank(a.kind) < kind_rank(b.kind) || (a.kind == b.kind && !crate::text::seq_lt(b.name, a.name))
}

/// Inserts `x` after every element that does not sort after it.
pub open spec fn insert_sorted(s: Seq<DestinationView>, x: DestinationView) -> Seq<DestinationView>
    decreases s.len(),
{
    if s.len() == 0 {
        seq![x]
    } else if dest_le(s.last(), x) {
        s.push(x)
    } else {
        insert_sorted(s.drop_last(), x).push(s.last())
    }
}

/// The stable sort of `s` by kind, then name (what `sort_by` gives).
pub open spec fn sort_dests(s: Seq<DestinationView>) -> Seq<DestinationView>
    decreases s.len(),
{
    if s.len() == 0 {
        s
    } else {
        insert_sorted(sort_dests(s.drop_last()), s.last())
    }
}

proof fn lemma_insert_at(s: Seq<DestinationView>, x: DestinationView, j: int)
    requires
        0 <= j <= s.len(),
        forall|k: int| j <= k < s.len() ==> !dest_le(s[k], x),
        j > 0 ==> dest_le(s[j - 1], x),
    ensures
        insert_sorted(s, x) == s.subrange(0, j).push(x) + s.subrange(j, s.len() as int),
    decreases s.len(),
{
    if s.len() == 0 {
        assert(s.subrange(0, j).push(x) + s.subrange(j, s.len() as int) =~= seq![x]);
    } else if j == s.len() {
        assert(s.subrange(0, j) =~= s);
        assert(s.subrange(j, s.len() as int) =~= Seq::<DestinationView>::empty());
        assert(s.push(x) + Seq::<DestinationView>::empty() =~= s.push(x));
    } else {
        let t = s.drop_last();
        assert(forall|k: int| j <= k < t.len() ==> t[k] == s[k]);
        lemma_insert_at(t, x, j);
        assert(t.subrange(0, j) =~= s.subrange(0, j));
        assert((t.subrange(0, j).push(x) + t.subrange(j, t.len() as int)).push(s.last())
            =~= s.subrange(0, j).push(x) + s.subrange(j, s.len() as int));
    }
}

fn dest_le_exec(a: &RunDestination, b: &RunDestination) -> (r: bool)
    ensures
        r == dest_le(a@, b@),
{
    let ra: u8 = match a.kind {
        DestinationKind::Simulator => 0,
        DestinationKind::Device => 1,
        DestinationKind::Mac => 2,
    };
    let rb: u8 = match b.kind {
        DestinationKind::Simulator => 0,
        DestinationKind::Device => 1,
        DestinationKind::Mac => 2,
    };
    ra < rb || (a.kind == b.kind && !crate::text::lt(
        chars_of(b.name.as_str()).as_slice(),
        chars_of(a.name.as_str()).as_slice(),
    ))
}

/// Sorts by kind (simulators, devices, Macs), then by name; stable.
pub fn sort_destinations(v: Vec<RunDestination>) -> (r: Vec<RunDestination>)
    ensures
        dest_views(r@) == sort_dests(dest_views(v@)),
{
    let ghost input = dest_views(v@);
    let mut out: Vec<RunDestination> = Vec::new();
    let mut rest = v;
    // Take elements from the front in order.
    let mut items: Vec<RunDestination> = Vec::new();
    while rest.len() > 0
        invariant
            dest_views(items@) + dest_views(rest@).reverse() == input.reverse(),
        decreases rest@.len(),
    {
        let x = rest.pop().unwrap();
        items.push(x);
        assert(dest_views(items@) + dest_views(rest@).reverse() =~= input.reverse());
    }
    // `items` holds the input reversed; consume it from the back.
    assert(dest_views(items@) =~= input.reverse());
    let ghost mut k: int = 0;
    assert(input.subrange(0, 0) =~= Seq::<DestinationView>::empty());
    while items.len() > 0
        invariant
            0 <= k <= input.len(),
            dest_views(items@) == input.subrange(k, input.len() as int).reverse(),
            dest_views(out@) == sort_dests(input.subrange(0, k)),
        decreases items@.len(),
    {
        let ghost items_before = dest_views(items@);
        let x = items.pop().unwrap();
        proof {
            assert(input.subrange(k, input.len() as int).reverse().last() == input[k]);
            assert(dest_views(items@) =~= items_before.drop_last());
            assert(input.subrange(k, input.len() as int).reverse().drop_last()
                =~= input.subrange(k + 1, input.len() as int).reverse());
        }
        let mut j = out.len();
        while j > 0 && !dest_le_exec(&out[j - 1], &x)
            invariant
                j <= out@.len(),
                forall|m: int| j <= m < out@.len() ==> !dest_le(dest_views(out@)[m], x@),
            decreases j,
        {
            j = j - 1;
        }
        let ghost before = dest_views(out@);
        proof {
            lemma_insert_at(before, x@, j as int);
            assert(input.subrange(0, k + 1).drop_last() =~= input.subrange(0, k));
            assert(input.subrange(0, k + 1).last() == input[k]);
        }
        out.insert(j, x);
        assert(dest_views(out@) =~= before.subrange(0, j as int).push(x@) + before.subrange(j as int, before.len() as int));
        proof {
            k = k + 1;
            assert(dest_views(items@) =~= input.subrange(k, input.len() as int).reverse());
        }
    }
    assert(input.subrange(0, input.len() as int) =~= input);
    out
}

/// The `-showdestinations` lines that describe a destination; everything else
/// Xcode prints is skipped.
pub open spec fn line_candidate(l: Seq<char>) -> Option<DestinationView> {
    let t = trimmed(l);
    if !crate::text::has_prefix(t, "{"@) || !has_char(t, '}') {
        None
    } else {
        parsed_line(t)
    }
}

pub open spec fn candidates(lines: Seq<Seq<char>>) -> Seq<DestinationView>
    decreases lines.len(),
{
    if lines.len() == 0 {
        Seq::empty()
    } else {
        match line_candidate(lines.last()) {
            Some(d) => candidates(lines.drop_last()).push(d),
            None => candidates(lines.drop_last()),
        }
    }
}

/// The destinations of `xcodebuild -showdestinations` (its stdout, a newline,
/// its stderr), simulators first, then devices, then Macs, by name.
pub open spec fn showdestinations_result(stdout: Seq<char>, stderr: Seq<char>) -> Seq<DestinationView> {
    sort_dests(candidates(text_lines(stdout + "\n"@ + stderr)))
}

proof fn lemma_candidate_line_ordered(t: Seq<char>)
    requires
        crate::text::has_prefix(t, "{"@),
        has_char(t, '}'),
    ensures
        braces_ordered(t),
{
    reveal_strlit("{");
    assert("{"@.len() == 1 && "{"@[0] == '{');
    assert(t.subrange(0, 1)[0] == t[0]);
    assert(t[0] == '{');
    crate::text::lemma_first_index_unique(t, '{', 0);
    let b = choose|b: int| 0 <= b < t.len() && t[b] == '}';
    let last = choose|i: int| crate::text::is_last_index(t, '}', i);
    assert(exists|i: int| crate::text::is_last_index(t, '}', i)) by {
        lemma_last_index_exists(t, '}', b);
    }
    assert(crate::text::is_last_index(t, '}', last));
    crate::text::lemma_last_index_unique(t, '}', last);
}

proof fn lemma_last_index_exists(t: Seq<char>, c: char, b: int)
    requires
        0 <= b < t.len(),
        t[b] == c,
    ensures
        exists|i: int| crate::text::is_last_index(t, c, i),
    decreases t.len() - b,
{
    if exists|j: int| b < j < t.len() && t[j] == c {
        let j = choose|j: int| b < j < t.len() && t[j] == c;
        lemma_last_index_exists(t, c, j);
    } else {
        assert(crate::text::is_last_index(t, c, b));
    }
}

fn line_candidate_of(l: &[char]) -> (r: Option<RunDestination>)
    ensures
        match r {
            Some(d) => line_candidate(l@) == Some(d@),
            None => line_candidate(l@) is None,
        },
{
    let t = trim(l);
    if !crate::text::starts_with_lit(t.as_slice(), "{") || !crate::text::has(t.as_slice(), '}') {
        return None;
    }
    proof {
        lemma_candidate_line_ordered(t@);
    }
    let s = string_of(t.as_slice());
    parse_destination_line(s.as_str())
}

/// Parses the output of `xcodebuild -showdestinations`.
pub fn destinations_from_showdestinations(stdout: &str, stderr: &str) -> (r: Vec<RunDestination>)
    ensures
        dest_views(r@) == showdestinations_result(stdout@, stderr@),
{
    let mut text = chars_of(stdout);
    push_lit(&mut text, "\n");
    push_lit(&mut text, stderr);
    let parts = split(text.as_slice(), '\n');
    let ghost ps = split_char(text@, '\n');
    let ghost lines = text_lines(text@);
    proof {
        crate::text::lemma_split_nonempty(text@, '\n');
    }
    let n = parts.len();
    let mut found: Vec<RunDestination> = Vec::new();
    let mut i: usize = 0;
    assert(lines.subrange(0, 0).len() == 0);
    while i < n
        invariant
            n == parts@.len(),
            n >= 1,
            views(parts@) == ps,
            lines == text_lines(text@),
            ps == split_char(text@, '\n'),
            i <= n,
            i < n ==> dest_views(found@) == candidates(lines.subrange(0, i as int)),
            i == n ==> dest_views(found@) == candidates(lines),
        decreases n - i,
    {
        let ghost pre = lines.subrange(0, i as int);
        let piece = if i + 1 < n {
            let p = parts[i].as_slice();
            let m = p.len();
            if m > 0 && p[m - 1] == '\r' {
                crate::text::slice_of(p, 0, m - 1)
            } else {
                crate::text::slice_of(p, 0, m)
            }
        } else {
            crate::text::slice_of(parts[i].as_slice(), 0, parts[i].len())
        };
        if i + 1 < n {
            assert(piece@ == lines[i as int]);
            assert(lines.subrange(0, i + 1).drop_last() =~= pre);
            match line_candidate_of(piece.as_slice()) {
                Some(d) => {
                    found.push(d);
                },
                None => {},
            }
            assert(dest_views(found@) =~= candidates(lines.subrange(0, i + 1)));
        } else {
            assert(ps[i as int] == parts@[i as int]@);
            assert(piece@ == ps.last());
            if piece.len() == 0 {
                assert(lines =~= pre);
            } else {
                assert(lines =~= pre.push(piece@));
                assert(lines.drop_last() =~= pre);
                match line_candidate_of(piece.as_slice()) {
                    Some(d) => {
                        found.push(d);
                    },
                    None => {},
                }
                assert(dest_views(found@) =~= candidates(lines));
            }
        }
        i = i + 1;
    }
    sort_destinations(found)
}

pub open spec fn simulator_destination(sim: crate::simulator::SimulatorView) -> DestinationView {
    DestinationView {
        kind: DestinationKind::Simulator,
        name: sim.name,
        platform: "iOS Simulator"@,
        destination: "platform=iOS Simulator,name="@ + sim.name,
    }
}

/// The destinations offered when `-showdestinations` only lists placeholders
/// (common before Xcode was first opened): one per simulator, in order.
pub fn destinations_from_simulators(sims: &Vec<crate::simulator::Simulator>) -> (r: Vec<RunDestination>)
    ensures
        dest_views(r@) == crate::simulator::sim_views(sims@).map_values(
            |s: crate::simulator::SimulatorView| simulator_destination(s),
        ),
{
    let ghost target = crate::simulator::sim_views(sims@).map_values(
        |s: crate::simulator::SimulatorView| simulator_destination(s),
    );
    let mut out: Vec<RunDestination> = Vec::new();
    let mut i: usize = 0;
    while i < sims.len()
        invariant
            target == crate::simulator::sim_views(sims@).map_values(
                |s: crate::simulator::SimulatorView| simulator_destination(s),
            ),
            i <= sims@.len(),
            dest_views(out@) == target.subrange(0, i as int),
        decreases sims@.len() - i,
    {
        let sim = &sims[i];
        let d = RunDestination {
            kind: DestinationKind::Simulator,
            name: sim.name.clone(),
            platform: string_of(chars_of("iOS Simulator").as_slice()),
            destination: crate::simulator::destination_for_simulator(sim),
        };
        assert(crate::simulator::sim_views(sims@)[i as int] == sim@);
        assert(target[i as int] == simulator_destination(sim@));
        assert(d@ == simulator_destination(sim@));
        let ghost prev = dest_views(out@);
        out.push(d);
        assert(dest_views(out@) =~= prev.push(d@));
        assert(dest_views(out@) =~= target.subrange(0, i + 1));
        i = i + 1;
    }
    out
}

pub open spec fn my_mac_destination() -> DestinationView {
    DestinationView {
        kind: DestinationKind::Mac,
        name: "My Mac"@,
        platform: "macOS"@,
        destination: "platform=macOS,name=My Mac"@,
    }
}

/// The destination offered for a macOS-only scheme when Xcode lists none.
pub fn default_macos_destinations(lang: Lang) -> (r: Vec<RunDestination>)
    ensures
        dest_views(r@) == seq![my_mac_destination()],
{
    let d = RunDestination {
        kind: DestinationKind::Mac,
        name: string_of(chars_of(t(lang, "My Mac", "My Mac")).as_slice()),
        platform: string_of(chars_of("macOS").as_slice()),
        destination: string_of(chars_of("platform=macOS,name=My Mac").as_slice()),
    };
    let mut v: Vec<RunDestination> = Vec::new();
    v.push(d);
    assert(dest_views(v@) =~= seq![my_mac_destination()]);
    v
}

/// The replacement offered for a saved destination is always one that Xcode
/// reports, and there is one exactly when Xcode reports destinations but not
/// the saved one.
pub proof fn law_replacement_is_reported(current: Seq<char>, s: Seq<DestinationView>)
    ensures
        replacement(current, s) is Some <==> (s.len() > 0 && !is_available(current, s)),
        replacement(current, s) matches Some(d) ==> s.contains(d),
{
    lemma_first_where_bounds(s, my_mac_pred());
    lemma_first_where_bounds(s, kind_pred(DestinationKind::Mac));
    lemma_first_where_bounds(s, kind_pred(DestinationKind::Device));
    match display_name(current) {
        Some(n) => {
            match kind_of(current) {
                Some(k) => lemma_first_where_bounds(s, kind_name_pred(k, n)),
                None => {},
            }
            lemma_first_where_bounds(s, name_pred(n));
        },
        None => {},
    }
    if s.len() > 0 && !is_available(current, s) {
        match name_match_index(current, s) {
            Some(i) => assert(s[i] == s[i]),
            None => assert(s[default_index(s)] == s[default_index(s)]),
        }
    }
}

pub proof fn lemma_seq_lt_asym(a: Seq<char>, b: Seq<char>)
    ensures
        !(crate::text::seq_lt(a, b) && crate::text::seq_lt(b, a)),
    decreases a.len(),
{
    if a.len() > 0 && b.len() > 0 && a[0] == b[0] {
        lemma_seq_lt_asym(a.subrange(1, a.len() as int), b.subrange(1, b.len() as int));
    }
}

/// Two destinations can always be put in order.
proof fn lemma_dest_le_total(a: DestinationView, b: DestinationView)
    ensures
        dest_le(a, b) || dest_le(b, a),
{
    lemma_seq_lt_asym(a.name, b.name);
}

pub open spec fn sorted_dests(s: Seq<DestinationView>) -> bool {
    forall|i: int| 0 <= i < s.len() - 1 ==> dest_le(#[trigger] s[i], s[i + 1])
}

proof fn lemma_insert_sorted_keeps_order(s: Seq<DestinationView>, x: DestinationView)
    requires
        sorted_dests(s),
    ensures
        sorted_dests(insert_sorted(s, x)),
        insert_sorted(s, x).len() == s.len() + 1,
        insert_sorted(s, x).last() == x || (s.len() > 0 && insert_sorted(s, x).last() == s.last()),
    decreases s.len(),
{
    if s.len() == 0 {
    } else if dest_le(s.last(), x) {
        let r = s.push(x);
        assert forall|i: int| 0 <= i < r.len() - 1 implies dest_le(#[trigger] r[i], r[i + 1]) by {
            if i < s.len() - 1 {
                assert(r[i] == s[i] && r[i + 1] == s[i + 1]);
            }
        }
    } else {
        let t = s.drop_last();
        assert(sorted_dests(t)) by {
            assert forall|i: int| 0 <= i < t.len() - 1 implies dest_le(#[trigger] t[i], t[i + 1]) by {
                assert(t[i] == s[i] && t[i + 1] == s[i + 1]);
            }
        }
        lemma_insert_sorted_keeps_order(t, x);
        let u = insert_sorted(t, x);
        let r = u.push(s.last());
        lemma_dest_le_total(s.last(), x);
        if t.len() > 0 {
            assert(s[t.len() - 1] == t.last());
            assert(dest_le(s[t.len() - 1], s[t.len() as int]));
        }
        assert(dest_le(u.last(), s.last()));
        assert forall|i: int| 0 <= i < r.len() - 1 implies dest_le(#[trigger] r[i], r[i + 1]) by {
            if i < u.len() - 1 {
                assert(r[i] == u[i] && r[i + 1] == u[i + 1]);
            } else {
                assert(r[i] == u.last() && r[i + 1] == s.last());
            }
        }
    }
}

/// The destinations come out in order: simulators, then devices, then Macs,
/// by name within each kind.
pub proof fn law_destinations_sorted(s: Seq<DestinationView>)
    ensures
        sorted_dests(sort_dests(s)),
        sort_dests(s).len() == s.len(),
        forall|y: DestinationView| #[trigger] sort_dests(s).contains(y) <==> s.contains(y),
        forall|i: int|
            0 <= i < sort_dests(s).len() - 1 ==> ((sort_dests(s)[i + 1].kind
                == DestinationKind::Simulator ==> (#[trigger] sort_dests(s)[i]).kind
                == DestinationKind::Simulator) && (sort_dests(s)[i].kind == DestinationKind::Mac
                ==> sort_dests(s)[i + 1].kind == DestinationKind::Mac) && (sort_dests(s)[i].kind
                == sort_dests(s)[i + 1].kind ==> !crate::text::seq_lt(
                sort_dests(s)[i + 1].name,
                sort_dests(s)[i].name,
            ))),
    decreases s.len(),
{
    if s.len() > 0 {
        law_destinations_sorted(s.drop_last());
        lemma_insert_sorted_keeps_order(sort_dests(s.drop_last()), s.last());
    }
    assert forall|y: DestinationView| #[trigger] sort_dests(s).contains(y) <==> s.contains(y) by {
        lemma_sort_dests_contains(s, y);
    }
}

proof fn lemma_insert_sorted_contains(s: Seq<DestinationView>, x: DestinationView, y: DestinationView)
    ensures
        insert_sorted(s, x).contains(y) <==> (s.contains(y) || y == x),
    decreases s.len(),
{
    if s.len() == 0 {
        assert(insert_sorted(s, x) =~= seq![x]);
        assert(insert_sorted(s, x)[0] == x);
    } else if dest_le(s.last(), x) {
        let r = s.push(x);
        if s.contains(y) {
            let i = choose|i: int| 0 <= i < s.len() && s[i] == y;
            assert(r[i] == y);
        }
        if y == x {
            assert(r[s.len() as int] == y);
        }
        if r.contains(y) {
            let i = choose|i: int| 0 <= i < r.len() && r[i] == y;
            if i < s.len() {
                assert(s[i] == y);
            }
        }
    } else {
        let t = s.drop_last();
        lemma_insert_sorted_contains(t, x, y);
        let u = insert_sorted(t, x);
        let r = u.push(s.last());
        if s.contains(y) {
            let i = choose|i: int| 0 <= i < s.len() && s[i] == y;
            if i < t.len() {
                assert(t[i] == y);
                let k = choose|k: int| 0 <= k < u.len() && u[k] == y;
                assert(r[k] == y);
            } else {
                assert(r[u.len() as int] == y);
            }
        }
        if y == x {
            let k = choose|k: int| 0 <= k < u.len() && u[k] == y;
            assert(r[k] == y);
        }
        if r.contains(y) {
            let i = choose|i: int| 0 <= i < r.len() && r[i] == y;
            if i < u.len() {
                assert(u[i] == y);
                if t.contains(y) {
                    let k = choose|k: int| 0 <= k < t.len() && t[k] == y;
                    assert(s[k] == y);
                }
            } else {
                assert(s[s.len() - 1] == y);
            }
        }
    }
}

proof fn lemma_sort_dests_contains(s: Seq<DestinationView>, y: DestinationView)
    ensures
        sort_dests(s).contains(y) <==> s.contains(y),
    decreases s.len(),
{
    if s.len() > 0 {
        let t = s.drop_last();
        lemma_sort_dests_contains(t, y);
        lemma_insert_sorted_contains(sort_dests(t), s.last(), y);
        if s.contains(y) {
            let i = choose|i: int| 0 <= i < s.len() && s[i] == y;
            if i < t.len() {
                assert(t[i] == y);
            }
        }
        if t.contains(y) {
            let i = choose|i: int| 0 <= i < t.len() && t[i] == y;
            assert(s[i] == y);
        }
        if y == s.last() {
            assert(s[s.len() - 1] == y);
        }
    }
}

/// A `key=value` segment.
pub open spec fn segment(key: Seq<char>, value: Seq<char>) -> Seq<char> {
    key + "="@ + value
}

/// Text that can stand as a field value: trimmed, and without `,`.
pub open spec fn plain_value(v: Seq<char>) -> bool {
    trimmed(v) == v && !has_char(v, ',')
}

proof fn lemma_field_key(key: Seq<char>)
    requires
        key == "platform"@ || key == "name"@ || key == "id"@,
    ensures
        key.len() > 0,
        !crate::text::is_ws(key[0]),
        !crate::text::is_ws(key.last()),
        !has_char(key, '='),
        !has_char(key, ','),
{
    reveal_strlit("platform");
    reveal_strlit("name");
    reveal_strlit("id");
    assert(!has_char(key, '=') && !has_char(key, ',')) by {
        if has_char(key, '=') {
            let i = choose|i: int| 0 <= i < key.len() && key[i] == '=';
        }
        if has_char(key, ',') {
            let i = choose|i: int| 0 <= i < key.len() && key[i] == ',';
        }
    }
}

proof fn lemma_field_segment(key: Seq<char>, v: Seq<char>)
    requires
        key == "platform"@ || key == "name"@ || key == "id"@,
        plain_value(v),
    ensures
        trimmed(segment(key, v)) == segment(key, v),
        kv_of_part(segment(key, v)) == Some((key, v)),
        trimmed(key) == key,
        !has_char(segment(key, v), ','),
        !segment_malformed(segment(key, v)),
{
    reveal_strlit("=");
    lemma_field_key(key);
    let seg = segment(key, v);
    let k = key.len() as int;
    assert(seg[k] == '=');
    crate::text::lemma_trimmed_ends(v);
    crate::text::lemma_trimmed_keeps(key);
    assert(seg[0] == key[0]);
    if v.len() > 0 {
        assert(seg.last() == v.last());
    } else {
        assert(seg.last() == '=');
    }
    crate::text::lemma_trimmed_keeps(seg);
    assert(crate::text::is_first_index(seg, '=', k)) by {
        assert forall|j: int| 0 <= j < k implies seg[j] != '=' by {
            assert(seg[j] == key[j]);
        }
    }
    crate::text::lemma_split_once_at(seg, '=', k);
    assert(seg.subrange(0, k) =~= key);
    assert(seg.subrange(k + 1, seg.len() as int) =~= v);
    assert(!has_char(seg, ',')) by {
        if has_char(seg, ',') {
            let i = choose|i: int| 0 <= i < seg.len() && seg[i] == ',';
            if i < k {
                assert(key[i] == ',');
            } else if i > k {
                assert(v[i - k - 1] == ',');
            }
        }
    }
    assert(has_char(seg, '='));
}

/// The destination text `platform=<p>[,id=<i>],name=<n>`.
pub open spec fn built_destination(p: Seq<char>, id: Option<Seq<char>>, n: Seq<char>) -> Seq<char> {
    match id {
        Some(i) => segment("platform"@, p) + seq![','] + segment("id"@, i) + seq![','] + segment(
            "name"@,
            n,
        ),
        None => segment("platform"@, p) + seq![','] + segment("name"@, n),
    }
}

proof fn lemma_built_fields(p: Seq<char>, id: Option<Seq<char>>, n: Seq<char>)
    requires
        plain_value(p),
        plain_value(n),
        id matches Some(i) ==> plain_value(i),
    ensures
        dest_field(built_destination(p, id, n), "platform"@) == Some(p),
        dest_field(built_destination(p, id, n), "name"@) == Some(n),
        dest_field(built_destination(p, id, n), "id"@) == id,
        !some_segment_malformed(split_char(built_destination(p, id, n), ',')),
        has_char(built_destination(p, id, n), '='),
        trimmed(built_destination(p, id, n)).len() > 0,
{
    lemma_field_keys_distinct();
    reveal_strlit("platform");
    reveal_strlit("=");
    let sp = segment("platform"@, p);
    let sn = segment("name"@, n);
    lemma_field_segment("platform"@, p);
    lemma_field_segment("name"@, n);
    crate::text::lemma_split_without_sep(sp, ',');
    crate::text::lemma_split_without_sep(sn, ',');
    let r = built_destination(p, id, n);
    assert(r[0] == 'p');
    assert(r[8] == '=');
    crate::text::lemma_trimmed_part(r, ',');
    reveal_with_fuel(kv_field, 4);
    match id {
        Some(i) => {
            let si = segment("id"@, i);
            lemma_field_segment("id"@, i);
            crate::text::lemma_split_without_sep(si, ',');
            crate::text::lemma_split_concat(sp, si, ',');
            let a = sp + seq![','] + si;
            crate::text::lemma_split_concat(a, sn, ',');
            let parts = split_char(r, ',');
            assert(parts =~= seq![sp, si, sn]);
            assert(parts.drop_last() =~= seq![sp, si]);
            assert(parts.drop_last().drop_last() =~= seq![sp]);
            assert(parts.drop_last().drop_last().drop_last() =~= Seq::<Seq<char>>::empty());
            assert forall|j: int| 0 <= j < parts.len() implies !segment_malformed(parts[j]) by {
                if j == 0 {
                    assert(parts[j] == sp);
                } else if j == 1 {
                    assert(parts[j] == si);
                } else {
                    assert(parts[j] == sn);
                }
            }
        },
        None => {
            crate::text::lemma_split_concat(sp, sn, ',');
            let parts = split_char(r, ',');
            assert(parts =~= seq![sp, sn]);
            assert(parts.drop_last() =~= seq![sp]);
            assert(parts.drop_last().drop_last() =~= Seq::<Seq<char>>::empty());
            assert forall|j: int| 0 <= j < parts.len() implies !segment_malformed(parts[j]) by {
                if j == 0 {
                    assert(parts[j] == sp);
                } else {
                    assert(parts[j] == sn);
                }
            }
        },
    }
}

proof fn lemma_kv_field_plain(parts: Seq<Seq<char>>, key: Seq<char>)
    requires
        forall|i: int| 0 <= i < parts.len() ==> !has_char(#[trigger] parts[i], ','),
    ensures
        kv_field(parts, key) matches Some(v) ==> plain_value(v),
    decreases parts.len(),
{
    if parts.len() > 0 {
        lemma_kv_field_plain(parts.drop_last(), key);
        let t = trimmed(parts.last());
        crate::text::lemma_trimmed_part(parts.last(), ',');
        assert(!has_char(parts[parts.len() - 1], ','));
        match kv_of_part(t) {
            Some((k, v)) => {
                if trimmed(k) == key {
                    let c = if split_once_seq(t, '=') is Some {
                        '='
                    } else {
                        ':'
                    };
                    crate::text::lemma_find_char_first(t, c);
                    let i = find_char(t, c).unwrap();
                    assert(v == t.subrange(i + 1, t.len() as int));
                    crate::text::lemma_sub_lacks(t, i + 1, t.len() as int, ',');
                    crate::text::lemma_trimmed_part(v, ',');
                    crate::text::lemma_trimmed_twice(v);
                }
            },
            None => {},
        }
    }
}

/// A placeholder has no repaired form; a repaired destination passes the
/// check before `xcodebuild`, names the same device (its display name is
/// kept), and is already in repaired form: repairing it again gives it back.
pub proof fn law_repaired_destination_is_valid(d: Seq<char>)
    ensures
        is_placeholder(d) ==> normalized(d) is None,
        normalized(d) matches Some(r) ==> destination_problem(r) is None && normalized(r) == Some(r)
            && display_name(r) == display_name(d),
{
    match normalized(d) {
        None => {},
        Some(r) => {
            crate::text::lemma_split_pieces_lack_sep(d, ',');
            let parts = split_char(d, ',');
            lemma_kv_field_plain(parts, "platform"@);
            lemma_kv_field_plain(parts, "name"@);
            lemma_kv_field_plain(parts, "id"@);
            let n = dest_field(d, "name"@).unwrap();
            let pf = dest_field(d, "platform"@).unwrap();
            reveal_strlit("platform=iOS Simulator,name=");
            reveal_strlit("platform=iOS,id=");
            reveal_strlit(",name=");
            reveal_strlit("platform=iOS,name=");
            reveal_strlit("platform=macOS,name=");
            reveal_strlit("iOS Simulator");
            reveal_strlit("iOS");
            reveal_strlit("macOS");
            reveal_strlit("platform");
            reveal_strlit("name");
            reveal_strlit("id");
            reveal_strlit("=");
            reveal_strlit("Simulator");
            reveal_strlit("placeholder");
            let sim = "iOS Simulator"@;
            let ios = "iOS"@;
            let mac = "macOS"@;
            lemma_platform_values();
            assert(ios != mac);
            let id = if contains_sub(pf, "Simulator"@) || pf == mac {
                None
            } else {
                real_id(dest_field(d, "id"@))
            };
            let pv = if contains_sub(pf, "Simulator"@) {
                sim
            } else if pf == ios {
                ios
            } else {
                mac
            };
            lemma_built_fields(pv, id, n);
            let b = built_destination(pv, id, n);
            if contains_sub(pf, "Simulator"@) {
                assert(r =~= b);
            } else if pf == ios {
                match id {
                    Some(i) => {
                        assert(r =~= b);
                    },
                    None => {
                        assert(r =~= b);
                    },
                }
            } else {
                assert(r =~= b);
            }
            assert(!is_placeholder(r));
        },
    }
}

/// The platform values that destinations are built with.
proof fn lemma_platform_values()
    ensures
        plain_value("iOS Simulator"@),
        plain_value("iOS"@),
        plain_value("macOS"@),
        contains_sub("iOS Simulator"@, "Simulator"@),
        !contains_sub("iOS"@, "Simulator"@),
        !contains_sub("macOS"@, "Simulator"@),
        "iOS"@ != "macOS"@,
{
    reveal_strlit("iOS Simulator");
    reveal_strlit("iOS");
    reveal_strlit("macOS");
    reveal_strlit("Simulator");
    let sim = "iOS Simulator"@;
    let ios = "iOS"@;
    let mac = "macOS"@;
    crate::text::lemma_trimmed_keeps(sim);
    crate::text::lemma_trimmed_keeps(ios);
    crate::text::lemma_trimmed_keeps(mac);
    assert(!has_char(sim, ',')) by {
        if has_char(sim, ',') {
            let i = choose|i: int| 0 <= i < sim.len() && sim[i] == ',';
        }
    }
    assert(!has_char(ios, ',')) by {
        if has_char(ios, ',') {
            let i = choose|i: int| 0 <= i < ios.len() && ios[i] == ',';
        }
    }
    assert(!has_char(mac, ',')) by {
        if has_char(mac, ',') {
            let i = choose|i: int| 0 <= i < mac.len() && mac[i] == ',';
        }
    }
    assert(contains_sub(sim, "Simulator"@)) by {
        assert(sim.subrange(4, 13) =~= "Simulator"@);
        assert(crate::text::occurs_at(sim, "Simulator"@, 4));
    }
    assert(!contains_sub(ios, "Simulator"@)) by {
        if contains_sub(ios, "Simulator"@) {
            let i = choose|i: int| crate::text::occurs_at(ios, "Simulator"@, i);
        }
    }
    assert(!contains_sub(mac, "Simulator"@)) by {
        if contains_sub(mac, "Simulator"@) {
            let i = choose|i: int| crate::text::occurs_at(mac, "Simulator"@, i);
        }
    }
    assert(ios.len() != mac.len());
}

proof fn lemma_last_field_plain(parts: Seq<Seq<char>>, a: Seq<char>, b: Seq<char>)
    requires
        forall|i: int| 0 <= i < parts.len() ==> !has_char(#[trigger] parts[i], ','),
    ensures
        last_field(parts, a, b) matches Some(v) ==> plain_value(v),
    decreases parts.len(),
{
    if parts.len() > 0 {
        lemma_last_field_plain(parts.drop_last(), a, b);
        let t = trimmed(parts.last());
        assert(!has_char(parts[parts.len() - 1], ','));
        crate::text::lemma_trimmed_part(parts.last(), ',');
        match strip_either(t, a, b) {
            Some(v) => {
                let k = if strip_prefix(t, a) is Some {
                    a.len()
                } else {
                    b.len()
                };
                assert(v == t.subrange(k as int, t.len() as int));
                crate::text::lemma_sub_lacks(t, k as int, t.len() as int, ',');
                crate::text::lemma_trimmed_part(v, ',');
                crate::text::lemma_trimmed_twice(v);
            },
            None => {},
        }
    }
}

proof fn lemma_first_raw_lacks(parts: Seq<Seq<char>>, a: Seq<char>, b: Seq<char>)
    requires
        forall|i: int| 0 <= i < parts.len() ==> !has_char(#[trigger] parts[i], ','),
    ensures
        first_raw(parts, a, b) matches Some(v) ==> !has_char(v, ','),
    decreases parts.len(),
{
    if parts.len() > 0 {
        let rest = parts.subrange(1, parts.len() as int);
        assert forall|i: int| 0 <= i < rest.len() implies !has_char(#[trigger] rest[i], ',') by {
            assert(rest[i] == parts[i + 1]);
        }
        lemma_first_raw_lacks(rest, a, b);
        let t = trimmed(parts[0]);
        crate::text::lemma_trimmed_part(parts[0], ',');
        match strip_either(t, a, b) {
            Some(v) => {
                let k = if strip_prefix(t, a) is Some {
                    a.len()
                } else {
                    b.len()
                };
                assert(v == t.subrange(k as int, t.len() as int));
                crate::text::lemma_sub_lacks(t, k as int, t.len() as int, ',');
            },
            None => {},
        }
    }
}

/// `platform=macOS,arch=<a>` passes the check when `a` has no `,`.
proof fn lemma_mac_arch_valid(a: Seq<char>)
    requires
        !has_char(a, ','),
    ensures
        destination_problem("platform=macOS,arch="@ + a) is None,
{
    reveal_strlit("platform=macOS,arch=");
    reveal_strlit("arch=");
    reveal_strlit("platform");
    reveal_strlit("macOS");
    reveal_strlit("name");
    reveal_strlit("id");
    reveal_strlit("=");
    lemma_platform_values();
    lemma_field_keys_distinct();
    let mac = "macOS"@;
    let sp = segment("platform"@, mac);
    let sa = "arch="@ + a;
    let d = "platform=macOS,arch="@ + a;
    assert(d =~= sp + seq![','] + sa);
    lemma_field_segment("platform"@, mac);
    assert(!has_char(sa, ',')) by {
        if has_char(sa, ',') {
            let i = choose|i: int| 0 <= i < sa.len() && sa[i] == ',';
            if i >= 5 {
                assert(a[i - 5] == ',');
            }
        }
    }
    crate::text::lemma_split_without_sep(sp, ',');
    crate::text::lemma_split_without_sep(sa, ',');
    crate::text::lemma_split_concat(sp, sa, ',');
    let parts = split_char(d, ',');
    assert(parts =~= seq![sp, sa]);
    assert(parts.drop_last() =~= seq![sp]);
    assert(parts.drop_last().drop_last() =~= Seq::<Seq<char>>::empty());
    // The `arch` segment keeps its key through trimming.
    assert(sa[4] == '=');
    assert(!crate::text::is_ws(sa[4]));
    assert(!crate::text::is_ws(sa[0]));
    crate::text::lemma_trim_end_keeps(sa, 4);
    let t = trimmed(sa);
    assert(t[4] == '=');
    let arch = t.subrange(0, 4);
    assert(arch =~= "arch"@.subrange(0, 4)) by {
        reveal_strlit("arch");
    }
    assert(crate::text::is_first_index(t, '=', 4));
    crate::text::lemma_split_once_at(t, '=', 4);
    reveal_strlit("arch");
    assert(arch =~= "arch"@);
    crate::text::lemma_trimmed_keeps(arch);
    assert(kv_of_part(t) matches Some((k, _)) && trimmed(k) == "arch"@);
    assert("arch"@ != "platform"@ && "arch"@ != "name"@ && "arch"@ != "id"@) by {
        assert("arch"@[0] != "name"@[0]);
    }
    reveal_with_fuel(kv_field, 3);
    assert(dest_field(d, "platform"@) == Some(mac));
    assert(dest_field(d, "name"@) is None);
    assert(dest_field(d, "id"@) is None);
    assert(!segment_malformed(sa)) by {
        assert(t.len() > 4);
        assert(has_char(t, '='));
    }
    assert forall|j: int| 0 <= j < parts.len() implies !segment_malformed(parts[j]) by {
        if j == 0 {
            assert(parts[j] == sp);
        } else {
            assert(parts[j] == sa);
        }
    }
    assert(d[8] == '=');
    assert(has_char(d, '='));
    assert(d[0] == 'p');
    crate::text::lemma_trimmed_part(d, ',');
}

/// A built destination passes the check when its name and id are not ones
/// Xcode uses for placeholders.
proof fn lemma_built_valid(p: Seq<char>, id: Option<Seq<char>>, n: Seq<char>)
    requires
        plain_value(p),
        plain_value(n),
        id matches Some(i) ==> plain_value(i) && !contains_sub(i, "placeholder"@),
        !contains_sub(n, "placeholder"@),
        n != "Any iOS Simulator Device"@,
        n != "Any Mac"@,
    ensures
        destination_problem(built_destination(p, id, n)) is None,
{
    lemma_built_fields(p, id, n);
}

proof fn lemma_mac_destination_valid(parts: Seq<Seq<char>>, n: Seq<char>)
    requires
        forall|i: int| 0 <= i < parts.len() ==> !has_char(#[trigger] parts[i], ','),
        plain_value(n),
        !hidden_name(n),
        n != "Any iOS Simulator Device"@,
    ensures
        destination_problem(mac_destination(parts, n)) is None,
{
    lemma_last_field_plain(parts, "id:"@, "id="@);
    lemma_first_raw_lacks(parts, "arch:"@, "arch="@);
    lemma_platform_values();
    reveal_strlit("platform=macOS,id=");
    reveal_strlit("platform=macOS,name=");
    reveal_strlit(",name=");
    reveal_strlit("platform");
    reveal_strlit("name");
    reveal_strlit("id");
    reveal_strlit("=");
    reveal_strlit("macOS");
    let id = real_id(last_field(parts, "id:"@, "id="@));
    match id {
        Some(i) => match first_raw(parts, "arch:"@, "arch="@) {
            Some(ar) => {
                lemma_mac_arch_valid(ar);
            },
            None => {
                lemma_built_valid("macOS"@, id, n);
                assert(mac_destination(parts, n) =~= built_destination("macOS"@, id, n));
            },
        },
        None => {
            lemma_built_valid("macOS"@, id, n);
            assert(mac_destination(parts, n) =~= built_destination("macOS"@, id, n));
        },
    }
}

proof fn lemma_device_destination_valid(parts: Seq<Seq<char>>, n: Seq<char>)
    requires
        forall|i: int| 0 <= i < parts.len() ==> !has_char(#[trigger] parts[i], ','),
        plain_value(n),
        !hidden_name(n),
        n != "Any iOS Simulator Device"@,
    ensures
        destination_problem(device_destination(parts, n)) is None,
{
    lemma_last_field_plain(parts, "id:"@, "id="@);
    lemma_platform_values();
    reveal_strlit("platform=iOS,id=");
    reveal_strlit("platform=iOS,name=");
    reveal_strlit(",name=");
    reveal_strlit("platform");
    reveal_strlit("name");
    reveal_strlit("id");
    reveal_strlit("=");
    reveal_strlit("iOS");
    let id = real_id(last_field(parts, "id:"@, "id="@));
    lemma_built_valid("iOS"@, id, n);
    assert(device_destination(parts, n) =~= built_destination("iOS"@, id, n));
}

proof fn lemma_simulator_destination_valid(n: Seq<char>)
    requires
        plain_value(n),
        !contains_sub(n, "placeholder"@),
        n != "Any iOS Simulator Device"@,
        n != "Any Mac"@,
    ensures
        destination_problem("platform=iOS Simulator,name="@ + n) is None,
{
    lemma_platform_values();
    reveal_strlit("platform=iOS Simulator,name=");
    reveal_strlit("platform");
    reveal_strlit("name");
    reveal_strlit("=");
    reveal_strlit("iOS Simulator");
    lemma_built_valid("iOS Simulator"@, None, n);
    assert("platform=iOS Simulator,name="@ + n =~= built_destination("iOS Simulator"@, None, n));
}

proof fn lemma_inner_destination_valid(inner: Seq<char>)
    ensures
        parsed_inner(inner) matches Some(d) ==> (d.name != "Any iOS Simulator Device"@
            ==> destination_problem(d.destination) is None),
{
    let parts = split_char(inner, ',');
    crate::text::lemma_split_pieces_lack_sep(inner, ',');
    lemma_last_field_plain(parts, "name:"@, "name="@);
    match (last_field(parts, "platform:"@, "platform="@), last_field(parts, "name:"@, "name="@)) {
        (Some(p), Some(n)) => {
            if !hidden_name(n) && n != "Any iOS Simulator Device"@ {
                if p == "macOS"@ {
                    lemma_mac_destination_valid(parts, n);
                } else if contains_sub(p, "Simulator"@) {
                    lemma_simulator_destination_valid(n);
                } else if p == "iOS"@ {
                    lemma_device_destination_valid(parts, n);
                }
            }
        },
        _ => {},
    }
}

/// A destination read from an `xcodebuild -showdestinations` line can be
/// handed to `xcodebuild`: it passes the check before the build, unless Xcode
/// named it `Any iOS Simulator Device`.
pub proof fn law_listed_destination_is_valid(line: Seq<char>)
    ensures
        parsed_line(line) matches Some(d) ==> (d.name != "Any iOS Simulator Device"@
            ==> destination_problem(d.destination) is None),
{
    match (find_char(line, '{'), rfind_char(line, '}')) {
        (Some(a), Some(b)) => {
            lemma_inner_destination_valid(trimmed(line.subrange(a + 1, b)));
        },
        _ => {},
    }
}

/// A listed destination that can be handed to `xcodebuild` unless it is
/// Xcode's generic `Any iOS Simulator Device`, and whose simulator entries
/// name the simulator by its name.
pub open spec fn listed_ok(d: DestinationView) -> bool {
    &&& d.name != "Any iOS Device"@
    &&& d.name != "Any Mac"@
    &&& !contains_sub(d.name, "placeholder"@)
    &&& (d.name != "Any iOS Simulator Device"@ ==> destination_problem(d.destination) is None)
    &&& (d.kind == DestinationKind::Simulator ==> d.destination == "platform=iOS Simulator,name="@
        + d.name)
}

proof fn lemma_line_listed_ok(line: Seq<char>)
    ensures
        parsed_line(line) matches Some(d) ==> listed_ok(d),
{
    law_listed_destination_is_valid(line);
    law_listed_destination_is_real(line);
}

proof fn lemma_candidates_ok(lines: Seq<Seq<char>>)
    ensures
        forall|i: int| 0 <= i < candidates(lines).len() ==> listed_ok(#[trigger] candidates(lines)[i]),
    decreases lines.len(),
{
    if lines.len() > 0 {
        let prev = candidates(lines.drop_last());
        lemma_candidates_ok(lines.drop_last());
        lemma_line_listed_ok(trimmed(lines.last()));
        match line_candidate(lines.last()) {
            Some(d) => {
                let c = prev.push(d);
                assert(candidates(lines) == c);
                assert forall|i: int| 0 <= i < c.len() implies listed_ok(#[trigger] c[i]) by {
                    if i < prev.len() {
                        assert(c[i] == prev[i]);
                    }
                }
            },
            None => {},
        }
    }
}

proof fn lemma_insert_sorted_ok(s: Seq<DestinationView>, x: DestinationView)
    requires
        forall|i: int| 0 <= i < s.len() ==> listed_ok(#[trigger] s[i]),
        listed_ok(x),
    ensures
        forall|i: int| 0 <= i < insert_sorted(s, x).len() ==> listed_ok(#[trigger] insert_sorted(s, x)[i]),
    decreases s.len(),
{
    if s.len() == 0 {
        assert(insert_sorted(s, x) =~= seq![x]);
    } else if dest_le(s.last(), x) {
        let r = s.push(x);
        assert forall|i: int| 0 <= i < r.len() implies listed_ok(#[trigger] r[i]) by {
            if i < s.len() {
                assert(r[i] == s[i]);
            }
        }
    } else {
        let t = s.drop_last();
        assert(forall|i: int| 0 <= i < t.len() ==> t[i] == s[i]);
        lemma_insert_sorted_ok(t, x);
        assert(listed_ok(s[s.len() - 1]));
        let u = insert_sorted(t, x);
        let r = u.push(s.last());
        assert forall|i: int| 0 <= i < r.len() implies listed_ok(#[trigger] r[i]) by {
            if i < u.len() {
                assert(r[i] == u[i]);
            }
        }
    }
}

proof fn lemma_sort_ok(s: Seq<DestinationView>)
    requires
        forall|i: int| 0 <= i < s.len() ==> listed_ok(#[trigger] s[i]),
    ensures
        forall|i: int| 0 <= i < sort_dests(s).len() ==> listed_ok(#[trigger] sort_dests(s)[i]),
    decreases s.len(),
{
    if s.len() > 0 {
        let t = s.drop_last();
        assert(forall|i: int| 0 <= i < t.len() ==> t[i] == s[i]);
        lemma_sort_ok(t);
        assert(listed_ok(s[s.len() - 1]));
        lemma_insert_sorted_ok(sort_dests(t), s.last());
    }
}

/// Every destination that `xcodebuild -showdestinations` lists is a real
/// machine (none is Xcode's generic `Any iOS Device` or `Any Mac`, nor a
/// placeholder) and can be handed to `xcodebuild`, Xcode's generic `Any iOS
/// Simulator Device` aside; a listed simulator is named by its name.
pub proof fn law_listed_destinations_are_valid(stdout: Seq<char>, stderr: Seq<char>)
    ensures
        forall|i: int|
            0 <= i < showdestinations_result(stdout, stderr).len() ==> listed_ok(
                #[trigger] showdestinations_result(stdout, stderr)[i],
            ),
{
    let lines = text_lines(stdout + "\n"@ + stderr);
    lemma_candidates_ok(lines);
    lemma_sort_ok(candidates(lines));
}

/// The destination of a simulator whose name begins with `iPhone` passes the
/// check when the name has no `,` and does not contain `placeholder`.
pub proof fn lemma_iphone_destination_valid(n: Seq<char>)
    requires
        crate::text::has_prefix(n, "iPhone"@),
        !has_char(n, ','),
        !contains_sub(n, "placeholder"@),
    ensures
        destination_problem("platform=iOS Simulator,name="@ + n) is None,
{
    reveal_strlit("platform=iOS Simulator,name=");
    reveal_strlit("iPhone");
    reveal_strlit("name=");
    reveal_strlit("name");
    reveal_strlit("platform");
    reveal_strlit("id");
    reveal_strlit("=");
    reveal_strlit("iOS Simulator");
    reveal_strlit("Any iOS Simulator Device");
    reveal_strlit("Any Mac");
    lemma_platform_values();
    lemma_field_keys_distinct();
    lemma_field_key("name"@);
    let sim = "iOS Simulator"@;
    let sp = segment("platform"@, sim);
    let sn = "name="@ + n;
    let d = "platform=iOS Simulator,name="@ + n;
    assert(d =~= sp + seq![','] + sn);
    lemma_field_segment("platform"@, sim);
    assert(n.subrange(0, 6) == "iPhone"@);
    assert(n[0] == n.subrange(0, 6)[0]);
    assert(n[5] == n.subrange(0, 6)[5]);
    assert(n[0] == 'i' && n[5] == 'e');
    assert(!has_char(sn, ',')) by {
        if has_char(sn, ',') {
            let i = choose|i: int| 0 <= i < sn.len() && sn[i] == ',';
            if i >= 5 {
                assert(n[i - 5] == ',');
            }
        }
    }
    crate::text::lemma_split_without_sep(sp, ',');
    crate::text::lemma_split_without_sep(sn, ',');
    crate::text::lemma_split_concat(sp, sn, ',');
    let parts = split_char(d, ',');
    assert(parts =~= seq![sp, sn]);
    assert(parts.drop_last() =~= seq![sp]);
    assert(parts.drop_last().drop_last() =~= Seq::<Seq<char>>::empty());
    // The name segment keeps its key, and its value keeps `iPhone`, through trimming.
    assert(sn[10] == 'e' && sn[0] == 'n');
    crate::text::lemma_trim_end_keeps(sn, 10);
    let t = trimmed(sn);
    let l = t.len() as int;
    assert(t[4] == '=');
    assert(crate::text::is_first_index(t, '=', 4));
    crate::text::lemma_split_once_at(t, '=', 4);
    assert(t.subrange(0, 4) =~= "name"@);
    crate::text::lemma_trimmed_keeps("name"@);
    let v = t.subrange(5, l);
    assert(v =~= n.subrange(0, l - 5));
    assert(v[5] == 'e' && v[0] == 'i');
    crate::text::lemma_trim_end_keeps(v, 5);
    let nv = trimmed(v);
    assert(nv =~= n.subrange(0, nv.len() as int));
    assert(nv[0] == 'i');
    reveal_with_fuel(kv_field, 3);
    assert(dest_field(d, "name"@) == Some(nv));
    assert(dest_field(d, "platform"@) == Some(sim));
    assert(dest_field(d, "id"@) is None);
    assert(!contains_sub(nv, "placeholder"@)) by {
        if contains_sub(nv, "placeholder"@) {
            let k = choose|k: int| crate::text::occurs_at(nv, "placeholder"@, k);
            assert(n.subrange(k, k + "placeholder"@.len()) =~= nv.subrange(
                k,
                k + "placeholder"@.len(),
            ));
            assert(crate::text::occurs_at(n, "placeholder"@, k));
        }
    }
    assert(nv != "Any iOS Simulator Device"@) by {
        assert("Any iOS Simulator Device"@[0] == 'A');
    }
    assert(nv != "Any Mac"@) by {
        assert("Any Mac"@[0] == 'A');
    }
    assert(!is_placeholder(d));
    assert(!segment_malformed(sn)) by {
        assert(has_char(t, '='));
    }
    assert forall|j: int| 0 <= j < parts.len() implies !segment_malformed(parts[j]) by {
        if j == 0 {
            assert(parts[j] == sp);
        } else {
            assert(parts[j] == sn);
        }
    }
    assert(d[8] == '=');
    assert(has_char(d, '='));
    assert(d[0] == 'p');
    crate::text::lemma_trimmed_part(d, ',');
}

proof fn lemma_name_segment(sep: char, n: Seq<char>)
    requires
        sep == '=' || sep == ':',
        !has_char(n, ','),
        !has_char(n, '='),
    ensures
        kv_of_part(trimmed("name"@ + seq![sep] + n)) matches Some((k, v)) && trimmed(k) == "name"@
            && trimmed(v) == trimmed(n),
        !has_char("name"@ + seq![sep] + n, ','),
{
    reveal_strlit("name");
    lemma_field_key("name"@);
    let seg = "name"@ + seq![sep] + n;
    assert(seg[4] == sep && seg[0] == 'n');
    crate::text::lemma_trim_end_keeps(seg, 4);
    crate::text::lemma_trim_end_tail(seg);
    let t = trimmed(seg);
    let l = t.len() as int;
    assert(t == seg.subrange(0, l));
    assert(!has_char(seg, ',')) by {
        if has_char(seg, ',') {
            let i = choose|i: int| 0 <= i < seg.len() && seg[i] == ',';
            if i >= 5 {
                assert(n[i - 5] == ',');
            }
        }
    }
    assert(t[4] == sep);
    assert(t.subrange(0, 4) =~= "name"@);
    if sep == '=' {
        assert(crate::text::is_first_index(t, '=', 4));
        crate::text::lemma_split_once_at(t, '=', 4);
    } else {
        assert(!has_char(t, '=')) by {
            if has_char(t, '=') {
                let i = choose|i: int| 0 <= i < t.len() && t[i] == '=';
                if i >= 5 {
                    assert(n[i - 5] == '=');
                }
            }
        }
        assert(crate::text::is_first_index(t, ':', 4));
        crate::text::lemma_split_once_at(t, ':', 4);
    }
    crate::text::lemma_trimmed_keeps("name"@);
    let v = t.subrange(5, l);
    assert(v =~= n.subrange(0, l - 5));
    assert forall|j: int| l - 5 <= j < n.len() implies crate::text::is_ws(#[trigger] n[j]) by {
        assert(n[j] == seg[j + 5]);
    }
    crate::text::lemma_trimmed_ws_tail(n, l - 5);
}

proof fn lemma_display_name_sep(sep: char, p: Seq<char>, n: Seq<char>)
    requires
        sep == '=' || sep == ':',
        !has_char(p, ','),
        !has_char(n, ','),
        !has_char(n, '='),
    ensures
        display_name("platform"@ + seq![sep] + p + seq![','] + ("name"@ + seq![sep] + n)) == Some(
            trimmed(n),
        ),
{
    reveal_strlit("platform");
    lemma_field_key("platform"@);
    let ps = "platform"@ + seq![sep] + p;
    let ns = "name"@ + seq![sep] + n;
    lemma_name_segment(sep, n);
    assert(!has_char(ps, ',')) by {
        if has_char(ps, ',') {
            let i = choose|i: int| 0 <= i < ps.len() && ps[i] == ',';
            if i >= 9 {
                assert(p[i - 9] == ',');
            } else if i < 8 {
                assert("platform"@[i] == ',');
            }
        }
    }
    crate::text::lemma_split_without_sep(ps, ',');
    crate::text::lemma_split_without_sep(ns, ',');
    crate::text::lemma_split_concat(ps, ns, ',');
    let d = ps + seq![','] + ns;
    assert(split_char(d, ',') =~= seq![ps, ns]);
    assert(split_char(d, ',').last() == ns);
    assert(dest_field(d, "name"@) == Some(trimmed(n)));
}

/// The legacy `key:value` form and the `key=value` form of a destination name
/// the same device: both display the trimmed name.
pub proof fn law_display_name_either_separator(p: Seq<char>, n: Seq<char>)
    requires
        !has_char(p, ','),
        !has_char(n, ','),
        !has_char(n, '='),
    ensures
        display_name("platform:"@ + p + ",name:"@ + n) == Some(trimmed(n)),
        display_name("platform="@ + p + ",name="@ + n) == Some(trimmed(n)),
{
    reveal_strlit("platform:");
    reveal_strlit(",name:");
    reveal_strlit("platform=");
    reveal_strlit(",name=");
    reveal_strlit("platform");
    reveal_strlit("name");
    lemma_display_name_sep(':', p, n);
    lemma_display_name_sep('=', p, n);
    assert("platform:"@ + p + ",name:"@ + n =~= "platform"@ + seq![':'] + p + seq![','] + ("name"@
        + seq![':'] + n));
    assert("platform="@ + p + ",name="@ + n =~= "platform"@ + seq!['='] + p + seq![','] + ("name"@
        + seq!['='] + n));
}

/// A destination read from a `-showdestinations` line is a real machine: Xcode's
/// generic `Any iOS Device` and `Any Mac` entries, and placeholders, are
/// dropped.
pub proof fn law_listed_destination_is_real(line: Seq<char>)
    ensures
        parsed_line(line) matches Some(d) ==> (d.name != "Any iOS Device"@ && d.name != "Any Mac"@
            && !contains_sub(d.name, "placeholder"@)),
{
}

/// When the saved destination is not reported and Xcode reports a machine
/// with its display name, the replacement has that name; and when one of
/// them is also of the saved destination's kind, the replacement is of that
/// kind too (the same device under its new id).
pub proof fn law_replacement_keeps_name(current: Seq<char>, s: Seq<DestinationView>)
    ensures
        display_name(current) matches Some(n) ==> (forall|i: int|
            0 <= i < s.len() && #[trigger] s[i].name == n && !is_available(current, s)
                ==> (replacement(current, s) matches Some(d) && d.name == n)),
        display_name(current) matches Some(n) ==> (kind_of(current) matches Some(k) ==> (forall|
            i: int,
        |
            0 <= i < s.len() && #[trigger] s[i].name == n && s[i].kind == k && !is_available(
                current,
                s,
            ) ==> (replacement(current, s) matches Some(d) && d.name == n && d.kind == k))),
{
    match display_name(current) {
        Some(n) => {
            lemma_first_where_bounds(s, name_pred(n));
            match kind_of(current) {
                Some(k) => {
                    lemma_first_where_bounds(s, kind_name_pred(k, n));
                    assert forall|i: int|
                        0 <= i < s.len() && #[trigger] s[i].name == n && s[i].kind == k
                            && !is_available(current, s) implies (replacement(current, s) matches Some(d)
                        && d.name == n && d.kind == k) by {
                        assert(kind_name_pred(k, n)(s[i]));
                    }
                    assert forall|i: int|
                        0 <= i < s.len() && #[trigger] s[i].name == n && !is_available(current, s)
                            implies (replacement(current, s) matches Some(d) && d.name == n) by {
                        assert(name_pred(n)(s[i]));
                    }
                },
                None => {
                    assert forall|i: int|
                        0 <= i < s.len() && #[trigger] s[i].name == n && !is_available(current, s)
                            implies (replacement(current, s) matches Some(d) && d.name == n) by {
                        assert(name_pred(n)(s[i]));
                    }
                },
            }
        },
        None => {},
    }
}

/// The default destination: `My Mac` when listed, else another Mac, else a
/// physical device, else the first entry.
pub proof fn law_default_destination_prefers(s: Seq<DestinationView>)
    ensures
        s.len() > 0 ==> 0 <= default_index(s) < s.len(),
        (exists|i: int|
            0 <= i < s.len() && (#[trigger] s[i]).kind == DestinationKind::Mac && s[i].name
                == "My Mac"@) ==> s[default_index(s)].kind == DestinationKind::Mac
            && s[default_index(s)].name == "My Mac"@,
        (exists|i: int| 0 <= i < s.len() && (#[trigger] s[i]).kind == DestinationKind::Mac)
            ==> s[default_index(s)].kind == DestinationKind::Mac,
        (forall|i: int| 0 <= i < s.len() ==> (#[trigger] s[i]).kind != DestinationKind::Mac) && (
        exists|i: int| 0 <= i < s.len() && (#[trigger] s[i]).kind == DestinationKind::Device)
            ==> s[default_index(s)].kind == DestinationKind::Device,
        (forall|i: int|
            0 <= i < s.len() ==> (#[trigger] s[i]).kind != DestinationKind::Mac && s[i].kind
                != DestinationKind::Device) ==> default_index(s) == 0,
{
    lemma_first_where_bounds(s, my_mac_pred());
    lemma_first_where_bounds(s, kind_pred(DestinationKind::Mac));
    lemma_first_where_bounds(s, kind_pred(DestinationKind::Device));
    if exists|i: int|
        0 <= i < s.len() && (#[trigger] s[i]).kind == DestinationKind::Mac && s[i].name == "My Mac"@ {
        let i = choose|i: int|
            0 <= i < s.len() && (#[trigger] s[i]).kind == DestinationKind::Mac && s[i].name
                == "My Mac"@;
        assert(my_mac_pred()(s[i]));
    }
    if exists|i: int| 0 <= i < s.len() && (#[trigger] s[i]).kind == DestinationKind::Mac {
        let i = choose|i: int| 0 <= i < s.len() && (#[trigger] s[i]).kind == DestinationKind::Mac;
        assert(kind_pred(DestinationKind::Mac)(s[i]));
    }
    if exists|i: int| 0 <= i < s.len() && (#[trigger] s[i]).kind == DestinationKind::Device {
        let i = choose|i: int| 0 <= i < s.len() && (#[trigger] s[i]).kind == DestinationKind::Device;
        assert(kind_pred(DestinationKind::Device)(s[i]));
    }
}

/// A destination read from a `-showdestinations` line is a simulator exactly
/// when its platform names a simulator, a device when the platform is `iOS`,
/// and a Mac when it is `macOS`; a simulator is named by its name alone, and a
/// device by its id when it has a real one.
pub proof fn law_listed_destination_kind(line: Seq<char>)
    ensures
        parsed_line(line) matches Some(d) ==> ((d.kind == DestinationKind::Simulator
            <==> contains_sub(d.platform, "Simulator"@)) && (d.kind == DestinationKind::Device
            ==> d.platform == "iOS"@ && crate::text::has_prefix(d.destination, "platform=iOS,"@))
            && (d.kind == DestinationKind::Mac ==> d.platform == "macOS"@
            && crate::text::has_prefix(d.destination, "platform=macOS,"@)) && (d.kind
            == DestinationKind::Simulator ==> d.destination == "platform=iOS Simulator,name="@
            + d.name)),
{
    lemma_platform_values();
    match parsed_line(line) {
        Some(d) => {
            reveal_strlit("platform=iOS,");
            reveal_strlit("platform=iOS,id=");
            reveal_strlit("platform=iOS,name=");
            reveal_strlit("platform=macOS,");
            reveal_strlit("platform=macOS,id=");
            reveal_strlit("platform=macOS,name=");
            reveal_strlit("platform=macOS,arch=");
            reveal_strlit(",name=");
            if d.kind == DestinationKind::Device {
                let x = d.destination;
                assert(x.subrange(0, 13) =~= "platform=iOS,"@);
            }
            if d.kind == DestinationKind::Mac {
                let x = d.destination;
                assert(x.subrange(0, 15) =~= "platform=macOS,"@);
            }
        },
        None => {},
    }
}

/// A destination that passes the check is not blank, is made of `key=value`
/// segments, and names no placeholder; a blank one is refused as empty, and
/// one whose name is a placeholder is refused as such.
pub proof fn law_validation(d: Seq<char>)
    ensures
        destination_problem(d) is None ==> (trimmed(d).len() > 0 && has_char(d, '=') && (forall|
            i: int,
        |
            0 <= i < split_char(d, ',').len() ==> has_char(
                trimmed(#[trigger] split_char(d, ',')[i]),
                '=',
            )) && (dest_field(d, "name"@) matches Some(n) ==> (!contains_sub(n, "placeholder"@)
            && n != "Any iOS Simulator Device"@ && n != "Any Mac"@))),
        trimmed(d).len() == 0 ==> destination_problem(d) == Some(InvalidReason::Empty),
        trimmed(d).len() > 0 && (dest_field(d, "name"@) matches Some(n) && contains_sub(
            n,
            "placeholder"@,
        )) ==> destination_problem(d) == Some(InvalidReason::Placeholder),
{
    if destination_problem(d) is None {
        assert forall|i: int| 0 <= i < split_char(d, ',').len() implies has_char(
            trimmed(#[trigger] split_char(d, ',')[i]),
            '=',
        ) by {
            assert(!segment_malformed(split_char(d, ',')[i]));
        }
        assert(!is_placeholder(d));
    }
}

/// The device id read from a destination is the trimmed, non-empty value of
/// one of its `id=` segments, and never a placeholder.
pub proof fn law_device_id(d: Seq<char>)
    ensures
        udid_in(split_char(d, ',')) matches Some(u) ==> (u.len() > 0 && !contains_sub(
            u,
            "placeholder"@,
        ) && exists|i: int|
            0 <= i < split_char(d, ',').len() && (strip_prefix(
                trimmed(#[trigger] split_char(d, ',')[i]),
                "id="@,
            ) matches Some(v) && trimmed(v) == u)),
{
    lemma_udid_in(split_char(d, ','));
}

proof fn lemma_udid_in(parts: Seq<Seq<char>>)
    ensures
        udid_in(parts) matches Some(u) ==> (u.len() > 0 && !contains_sub(u, "placeholder"@)
            && exists|i: int|
            0 <= i < parts.len() && (strip_prefix(trimmed(#[trigger] parts[i]), "id="@) matches Some(
                v,
            ) && trimmed(v) == u)),
    decreases parts.len(),
{
    if parts.len() > 0 {
        let rest = parts.subrange(1, parts.len() as int);
        lemma_udid_in(rest);
        match strip_prefix(trimmed(parts[0]), "id="@) {
            Some(v) => {
                if trimmed(v).len() > 0 && !contains_sub(trimmed(v), "placeholder"@) {
                } else if udid_in(rest) is Some {
                    let i = choose|i: int|
                        0 <= i < rest.len() && (strip_prefix(trimmed(#[trigger] rest[i]), "id="@) matches Some(
                            v,
                        ) && trimmed(v) == udid_in(rest).unwrap());
                    assert(rest[i] == parts[i + 1]);
                }
            },
            None => {
                if udid_in(rest) is Some {
                    let i = choose|i: int|
                        0 <= i < rest.len() && (strip_prefix(trimmed(#[trigger] rest[i]), "id="@) matches Some(
                            v,
                        ) && trimmed(v) == udid_in(rest).unwrap());
                    assert(rest[i] == parts[i + 1]);
                }
            },
        }
    }
}

} // verus!
