//! The MCP server's decisions: which requests it answers, which tools it
//! offers, and the text each tool returns.
use vstd::prelude::*;

use crate::detect::{DetectError, DetectedProject};
use crate::setup::EnsureReport;
use crate::config::{RunnerConfig, RunnerConfigView};
use crate::text::{chars_of, eq_lit, opt_view, owned, push_lit, str_views, string_of};

verus! {

/// The MCP protocol version the server speaks.
pub const PROTOCOL_VERSION: &'static str = "2024-11-05";

/// The server's name in its `serverInfo`.
pub const SERVER_NAME: &'static str = "ios-runner";

/// The requests the server tells apart.
#[derive(Debug, Clone, Copy, PartialEq, Eq, Structural)]
pub enum McpMethod {
    /// `initialize`: set the project up, describe the server.
    Initialize,
    /// `notifications/initialized`: no answer.
    Initialized,
    /// `tools/list`.
    ToolsList,
    /// `tools/call`.
    ToolsCall,
    /// Anything else: an empty result.
    Other,
}

pub open spec fn method_of(m: Seq<char>) -> McpMethod {
    if m == "initialize"@ {
        McpMethod::Initialize
    } else if m == "notifications/initialized"@ {
        McpMethod::Initialized
    } else if m == "tools/list"@ {
        McpMethod::ToolsList
    } else if m == "tools/call"@ {
        McpMethod::ToolsCall
    } else {
        McpMethod::Other
    }
}

/// The request's `method` (an absent or non-string one counts as empty).
pub fn mcp_method(method: Option<&str>) -> (m: McpMethod)
    ensures
        m == method_of(
            match method {
                Some(s) => s@,
                None => Seq::empty(),
            },
        ),
{
    let v = match method {
        Some(s) => chars_of(s),
        None => Vec::new(),
    };
    let s = v.as_slice();
    if eq_lit(s, "initialize") {
        McpMethod::Initialize
    } else if eq_lit(s, "notifications/initialized") {
        McpMethod::Initialized
    } else if eq_lit(s, "tools/list") {
        McpMethod::ToolsList
    } else if eq_lit(s, "tools/call") {
        McpMethod::ToolsCall
    } else {
        McpMethod::Other
    }
}

/// Every request but the `initialized` notification is answered.
pub fn answers(m: McpMethod) -> (b: bool)
    ensures
        b == (m != McpMethod::Initialized),
{
    !matches!(m, McpMethod::Initialized)
}

/// A tool offered by the server, with the optional arguments of its input
/// schema: text arguments and on/off flags.
pub struct McpToolDesc {
    pub name: &'static str,
    pub description: &'static str,
    pub text_args: Vec<&'static str>,
    pub flag_args: Vec<&'static str>,
}

pub open spec fn tool_table() -> Seq<(Seq<char>, Seq<char>)> {
    seq![
        ("ios_runner_detect"@, "Detect Xcode/CocoaPods project in workspace"@),
        ("ios_runner_setup"@, "Save project settings to ~/.config/ios-runner (idempotent)"@),
        ("ios_runner_build"@, "Build the iOS app with xcodebuild"@),
        ("ios_runner_run"@, "Build, install on simulator, and launch"@),
    ]
}

/// The optional text arguments of a tool: the build and run tools take a
/// scheme, a destination and a configuration for this call.
pub open spec fn tool_text_args(name: Seq<char>) -> Seq<Seq<char>> {
    if name == "ios_runner_build"@ || name == "ios_runner_run"@ {
        seq!["scheme"@, "destination"@, "configuration"@]
    } else {
        Seq::empty()
    }
}

/// The optional flags of a tool: the build and run tools take `verbose`.
pub open spec fn tool_flag_args(name: Seq<char>) -> Seq<Seq<char>> {
    if name == "ios_runner_build"@ || name == "ios_runner_run"@ {
        seq!["verbose"@]
    } else {
        Seq::empty()
    }
}

pub open spec fn lits(v: Seq<&'static str>) -> Seq<Seq<char>> {
    v.map_values(|k: &'static str| k@)
}

fn tool_desc(name: &'static str, description: &'static str, with_args: bool) -> (d: McpToolDesc)
    ensures
        d.name@ == name@,
        d.description@ == description@,
        lits(d.text_args@) == (if with_args {
            seq!["scheme"@, "destination"@, "configuration"@]
        } else {
            Seq::empty()
        }),
        lits(d.flag_args@) == (if with_args {
            seq!["verbose"@]
        } else {
            Seq::empty()
        }),
{
    let (text_args, flag_args) = if with_args {
        (vec!["scheme", "destination", "configuration"], vec!["verbose"])
    } else {
        (Vec::new(), Vec::new())
    };
    assert(lits(text_args@) =~= (if with_args {
        seq!["scheme"@, "destination"@, "configuration"@]
    } else {
        Seq::<Seq<char>>::empty()
    }));
    assert(lits(flag_args@) =~= (if with_args {
        seq!["verbose"@]
    } else {
        Seq::<Seq<char>>::empty()
    }));
    McpToolDesc { name, description, text_args, flag_args }
}

/// The tools of `tools/list`, in order, with their optional arguments.
pub fn mcp_tools() -> (v: Vec<McpToolDesc>)
    ensures
        v@.map_values(|d: McpToolDesc| (d.name@, d.description@)) == tool_table(),
        forall|i: int|
            0 <= i < v@.len() ==> lits((#[trigger] v@[i]).text_args@) == tool_text_args(v@[i].name@)
                && lits(v@[i].flag_args@) == tool_flag_args(v@[i].name@),
{
    proof {
        reveal_strlit("ios_runner_detect");
        reveal_strlit("ios_runner_setup");
        reveal_strlit("ios_runner_build");
        reveal_strlit("ios_runner_run");
    }
    let mut v: Vec<McpToolDesc> = Vec::new();
    v.push(tool_desc("ios_runner_detect", "Detect Xcode/CocoaPods project in workspace", false));
    v.push(
        tool_desc(
            "ios_runner_setup",
            "Save project settings to ~/.config/ios-runner (idempotent)",
            false,
        ),
    );
    v.push(tool_desc("ios_runner_build", "Build the iOS app with xcodebuild", true));
    v.push(tool_desc("ios_runner_run", "Build, install on simulator, and launch", true));
    assert(v@.map_values(|d: McpToolDesc| (d.name@, d.description@)) =~= tool_table());
    proof {
        let d = "ios_runner_detect"@;
        let st = "ios_runner_setup"@;
        let b = "ios_runner_build"@;
        let r = "ios_runner_run"@;
        assert(d.len() != b.len() && d.len() != r.len());
        assert(st[11] != b[11] && st.len() != r.len());
        assert(b == "ios_runner_build"@ && r == "ios_runner_run"@);
        assert forall|i: int| 0 <= i < v@.len() implies lits((#[trigger] v@[i]).text_args@)
            == tool_text_args(v@[i].name@) && lits(v@[i].flag_args@) == tool_flag_args(
            v@[i].name@,
        ) by {
            if i == 0 {
                assert(v@[i].name@ == d);
            } else if i == 1 {
                assert(v@[i].name@ == st);
            }
        }
    }
    v
}

/// The tools a `tools/call` can name.
#[derive(Debug, Clone, Copy, PartialEq, Eq, Structural)]
pub enum McpTool {
    Detect,
    Setup,
    Build,
    Run,
    Unknown,
}

pub open spec fn tool_of(name: Seq<char>) -> McpTool {
    if name == "ios_runner_detect"@ {
        McpTool::Detect
    } else if name == "ios_runner_setup"@ {
        McpTool::Setup
    } else if name == "ios_runner_build"@ {
        McpTool::Build
    } else if name == "ios_runner_run"@ {
        McpTool::Run
    } else {
        McpTool::Unknown
    }
}

/// The tool named by `params.name` (absent counts as empty).
pub fn mcp_tool(name: Option<&str>) -> (t: McpTool)
    ensures
        t == tool_of(
            match name {
                Some(s) => s@,
                None => Seq::empty(),
            },
        ),
{
    let v = match name {
        Some(s) => chars_of(s),
        None => Vec::new(),
    };
    let s = v.as_slice();
    if eq_lit(s, "ios_runner_detect") {
        McpTool::Detect
    } else if eq_lit(s, "ios_runner_setup") {
        McpTool::Setup
    } else if eq_lit(s, "ios_runner_build") {
        McpTool::Build
    } else if eq_lit(s, "ios_runner_run") {
        McpTool::Run
    } else {
        McpTool::Unknown
    }
}

pub open spec fn detect_text(r: Result<DetectedProject, DetectError>) -> Seq<char> {
    match r {
        Ok(p) => "Detected "@ + p.path@ + " ("@ + (if p.has_podfile {
            "CocoaPods"@
        } else {
            "Xcode"@
        }) + ")"@,
        Err(e) => "Not an Xcode workspace: "@ + match e {
            DetectError::PodfileWithoutWorkspace => "Podfile found but no .xcworkspace. Run `pod install` to generate the workspace."@,
            DetectError::NoXcodeProject => "no .xcworkspace or .xcodeproj found. Open the directory that contains your Xcode project."@,
        },
    }
}

/// The text of the detect tool.
pub fn detect_tool_text(r: &Result<DetectedProject, DetectError>) -> (s: String)
    ensures
        s@ == detect_text(*r),
{
    match r {
        Ok(p) => {
            let mut v = chars_of("Detected ");
            push_lit(&mut v, p.path.as_str());
            push_lit(&mut v, " (");
            push_lit(
                &mut v,
                if p.has_podfile {
                    "CocoaPods"
                } else {
                    "Xcode"
                },
            );
            push_lit(&mut v, ")");
            string_of(v.as_slice())
        },
        Err(e) => {
            let mut v = chars_of("Not an Xcode workspace: ");
            push_lit(&mut v, e.message());
            string_of(v.as_slice())
        },
    }
}

/// The pieces of the setup summary: where things stand, then what was written.
pub open spec fn setup_parts(r: EnsureReport) -> Seq<Seq<char>> {
    seq!["iOS-Runner ready: scheme="@ + r.scheme@ + " destination="@ + r.destination@] + (if r.wrote_config {
        seq!["saved global config "@ + r.global_config@]
    } else {
        Seq::empty()
    }) + (if r.wrote_tasks {
        seq!["created .zed/tasks.json (optional)"@]
    } else {
        Seq::empty()
    }) + (if r.has_podfile {
        seq!["Podfile detected: run「iOS-Runner: Pod Install」if needed"@]
    } else {
        Seq::empty()
    })
}

/// The pieces joined by `; `.
pub open spec fn joined_parts(parts: Seq<Seq<char>>) -> Seq<char>
    decreases parts.len(),
{
    if parts.len() == 0 {
        Seq::empty()
    } else if parts.len() == 1 {
        parts[0]
    } else {
        joined_parts(parts.drop_last()) + "; "@ + parts.last()
    }
}

/// The setup summary: none without a project; else the setup's error, or
/// its report.
pub open spec fn setup_text(detected: bool, ensured: Result<EnsureReport, Seq<char>>) -> Seq<char> {
    if !detected {
        "No Xcode project in this folder."@
    } else {
        match ensured {
            Ok(r) => joined_parts(setup_parts(r)),
            Err(e) => "Setup failed: "@ + e,
        }
    }
}

fn push_part(parts: &mut Vec<String>, s: String)
    ensures
        str_views(final(parts)@) == str_views(old(parts)@).push(s@),
{
    let ghost before = str_views(parts@);
    parts.push(s);
    assert(str_views(parts@) =~= before.push(s@));
}

fn join_parts(parts: &Vec<String>) -> (s: String)
    ensures
        s@ == joined_parts(str_views(parts@)),
{
    let ghost pv = str_views(parts@);
    let mut out: Vec<char> = Vec::new();
    let mut i: usize = 0;
    assert(pv.subrange(0, 0).len() == 0);
    while i < parts.len()
        invariant
            pv == str_views(parts@),
            i <= parts@.len(),
            out@ == joined_parts(pv.subrange(0, i as int)),
        decreases parts@.len() - i,
    {
        let ghost next = pv.subrange(0, i + 1);
        assert(next.drop_last() =~= pv.subrange(0, i as int));
        assert(next.last() == parts@[i as int]@);
        if i > 0 {
            push_lit(&mut out, "; ");
        } else {
            assert(out@ =~= Seq::<char>::empty());
            assert(next.len() == 1);
        }
        push_lit(&mut out, parts[i].as_str());
        i = i + 1;
    }
    assert(pv.subrange(0, pv.len() as int) =~= pv);
    string_of(out.as_slice())
}

/// The text of the setup tool and of the `initialize` log line.
pub fn auto_setup_text(detected: bool, ensured: &Result<EnsureReport, String>) -> (s: String)
    ensures
        s@ == setup_text(
            detected,
            match *ensured {
                Ok(r) => Ok(r),
                Err(e) => Err(e@),
            },
        ),
{
    if !detected {
        return owned("No Xcode project in this folder.");
    }
    match ensured {
        Err(e) => {
            let mut v = chars_of("Setup failed: ");
            push_lit(&mut v, e.as_str());
            string_of(v.as_slice())
        },
        Ok(r) => {
            let mut parts: Vec<String> = Vec::new();
            let mut first = chars_of("iOS-Runner ready: scheme=");
            push_lit(&mut first, r.scheme.as_str());
            push_lit(&mut first, " destination=");
            push_lit(&mut first, r.destination.as_str());
            push_part(&mut parts, string_of(first.as_slice()));
            if r.wrote_config {
                let mut v = chars_of("saved global config ");
                push_lit(&mut v, r.global_config.as_str());
                push_part(&mut parts, string_of(v.as_slice()));
            }
            if r.wrote_tasks {
                push_part(&mut parts, owned("created .zed/tasks.json (optional)"));
            }
            if r.has_podfile {
                push_part(&mut parts, owned("Podfile detected: run「iOS-Runner: Pod Install」if needed"));
            }
            assert(str_views(parts@) =~= setup_parts(*r));
            join_parts(&parts)
        },
    }
}

/// The text of a build or run tool that succeeded.
pub fn tool_success_text(tool: McpTool) -> (s: &'static str)
    requires
        tool == McpTool::Build || tool == McpTool::Run,
    ensures
        s@ == (if tool == McpTool::Build {
            "Build succeeded."@
        } else {
            "Run succeeded."@
        }),
{
    if matches!(tool, McpTool::Build) {
        "Build succeeded."
    } else {
        "Run succeeded."
    }
}

/// The text for a tool the server does not have.
pub fn unknown_tool_text(name: Option<&str>) -> (s: String)
    ensures
        s@ == "Unknown tool: "@ + match name {
            Some(n) => n@,
            None => Seq::empty(),
        },
{
    let mut v = chars_of("Unknown tool: ");
    match name {
        Some(n) => push_lit(&mut v, n),
        None => {},
    }
    string_of(v.as_slice())
}

/// What the server reads of one request line: the `id` (as JSON text), the
/// `method`, the tool named by `params.name`, and the tool's optional
/// arguments, each when it has the right JSON type.
pub struct McpRequest {
    pub id: Option<String>,
    pub method: Option<String>,
    pub tool: Option<String>,
    pub scheme: Option<String>,
    pub destination: Option<String>,
    pub configuration: Option<String>,
    pub verbose: Option<bool>,
}

pub struct McpRequestView {
    pub id: Option<Seq<char>>,
    pub method: Option<Seq<char>>,
    pub tool: Option<Seq<char>>,
    pub scheme: Option<Seq<char>>,
    pub destination: Option<Seq<char>>,
    pub configuration: Option<Seq<char>>,
    pub verbose: Option<bool>,
}

impl View for McpRequest {
    type V = McpRequestView;

    open spec fn view(&self) -> McpRequestView {
        McpRequestView {
            id: opt_view(self.id),
            method: opt_view(self.method),
            tool: opt_view(self.tool),
            scheme: opt_view(self.scheme),
            destination: opt_view(self.destination),
            configuration: opt_view(self.configuration),
            verbose: self.verbose,
        }
    }
}

/// The request that `serde_json` reads from a line; `None` when the line is
/// not JSON.
pub uninterp spec fn mcp_request_of(line: Seq<char>) -> Option<McpRequestView>;

/// `serde_json::from_str::<serde_json::Value>` on a request line, then its
/// fields: the result is `mcp_request_of` the line. The JSON grammar behind it
/// is not stated.
#[verifier::external_body]
pub(crate) fn parse_mcp_request(line: &str) -> (r: Option<McpRequest>)
    ensures
        match r {
            Some(q) => mcp_request_of(line@) == Some(q@),
            None => mcp_request_of(line@) is None,
        },
{
    let v: serde_json::Value = serde_json::from_str(line).ok()?;
    let (p, a) = (&v["params"], &v["params"]["arguments"]);
    let s = |x: &serde_json::Value| x.as_str().map(str::to_string);
    Some(McpRequest {
        id: v.get("id").map(|i| i.to_string()),
        method: s(&v["method"]),
        tool: s(&p["name"]),
        scheme: s(&a["scheme"]),
        destination: s(&a["destination"]),
        configuration: s(&a["configuration"]),
        verbose: a["verbose"].as_bool(),
    })
}

/// What the server does with a request.
#[derive(Debug, Clone, Copy, PartialEq, Eq, Structural)]
pub enum McpAction {
    /// No answer (the `initialized` notification).
    Skip,
    /// Set the project up and describe the server.
    Initialize,
    /// Answer with the tool list.
    ListTools,
    /// Run a tool and answer with its text.
    CallTool(McpTool),
    /// Answer with an empty result.
    Empty,
}

pub open spec fn text_or_empty(o: Option<Seq<char>>) -> Seq<char> {
    match o {
        Some(s) => s,
        None => Seq::empty(),
    }
}

pub open spec fn mcp_action(req: McpRequestView) -> McpAction {
    match method_of(text_or_empty(req.method)) {
        McpMethod::Initialize => McpAction::Initialize,
        McpMethod::Initialized => McpAction::Skip,
        McpMethod::ToolsList => McpAction::ListTools,
        McpMethod::ToolsCall => McpAction::CallTool(tool_of(text_or_empty(req.tool))),
        McpMethod::Other => McpAction::Empty,
    }
}

/// The action for a request.
pub fn mcp_step(req: &McpRequest) -> (a: McpAction)
    ensures
        a == mcp_action(req@),
{
    let method = match &req.method {
        Some(m) => Some(m.as_str()),
        None => None,
    };
    match mcp_method(method) {
        McpMethod::Initialize => McpAction::Initialize,
        McpMethod::Initialized => McpAction::Skip,
        McpMethod::ToolsList => McpAction::ListTools,
        McpMethod::ToolsCall => {
            let tool = match &req.tool {
                Some(t) => Some(t.as_str()),
                None => None,
            };
            McpAction::CallTool(mcp_tool(tool))
        },
        McpMethod::Other => McpAction::Empty,
    }
}

/// The config for one build or run call: the saved one, with the scheme,
/// destination and configuration that the call gives in place of the saved ones.
pub fn apply_tool_arguments(config: &mut RunnerConfig, req: &McpRequest)
    ensures
        final(config)@ == (RunnerConfigView {
            scheme: match req@.scheme {
                Some(s) => s,
                None => old(config)@.scheme,
            },
            destination: match req@.destination {
                Some(d) => d,
                None => old(config)@.destination,
            },
            configuration: match req@.configuration {
                Some(c) => c,
                None => old(config)@.configuration,
            },
            ..old(config)@
        }),
{
    match &req.scheme {
        Some(s) => {
            config.scheme = owned(s.as_str());
        },
        None => {},
    }
    match &req.destination {
        Some(d) => {
            config.destination = owned(d.as_str());
        },
        None => {},
    }
    match &req.configuration {
        Some(c) => {
            config.configuration = owned(c.as_str());
        },
        None => {},
    }
}

/// A request line and what the server does with it; `None` when the line is
/// not JSON (the server stops with an error).
pub fn mcp_request_step(line: &str) -> (r: Option<(McpRequest, McpAction)>)
    ensures
        match mcp_request_of(line@) {
            Some(q) => r matches Some((x, a)) && x@ == q && a == mcp_action(q),
            None => r is None,
        },
{
    match parse_mcp_request(line) {
        Some(req) => {
            let a = mcp_step(&req);
            Some((req, a))
        },
        None => None,
    }
}

} // verus!
