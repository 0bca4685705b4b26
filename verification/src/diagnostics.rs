//! Hints read from a failed build's log and from `devicectl` output, and the
//! check that a device is unlocked.
use vstd::prelude::*;

use crate::locale::{t, Lang};
use crate::text::{
    chars_of, contains_lit, contains_sub, owned, push_all, push_lit, str_views, string_of, trim,
    trimmed,
};

verus! {

/// The Unicode lowercase of a text, as `str::to_lowercase` maps it.
pub uninterp spec fn lowercase_of(s: Seq<char>) -> Seq<char>;

/// `str::to_lowercase`: its result is `lowercase_of` the argument. The Unicode
/// case tables behind it are not stated.
#[verifier::external_body]
pub(crate) fn to_lowercase(s: &str) -> (r: String)
    ensures
        r@ == lowercase_of(s@),
{
    s.to_lowercase()
}

/// The message of `lang` among a Chinese and an English one.
pub open spec fn pick(lang: Lang, zh: Seq<char>, en: Seq<char>) -> Seq<char> {
    match lang {
        Lang::ZhCn => zh,
        Lang::En => en,
    }
}

pub open spec fn hint_if(cond: bool, h: Seq<char>) -> Seq<Seq<char>> {
    if cond {
        seq![h]
    } else {
        Seq::empty()
    }
}

pub open spec fn signing_issue(l: Seq<char>) -> bool {
    contains_sub(l, "signing"@) || contains_sub(l, "development team"@) || contains_sub(
        l,
        "provisioning profile"@,
    )
}

pub open spec fn pods_issue(l: Seq<char>) -> bool {
    contains_sub(l, "pod install"@) || contains_sub(l, "sandbox is not in sync"@)
}

pub open spec fn package_issue(l: Seq<char>) -> bool {
    contains_sub(l, "could not resolve package"@) || contains_sub(l, "swift package"@)
}

pub open spec fn destination_issue(l: Seq<char>) -> bool {
    contains_sub(l, "unable to find a destination"@) || contains_sub(l, "ineligible destination"@)
}

pub open spec fn compile_issue(l: Seq<char>) -> bool {
    contains_sub(l, "error:"@) && (contains_sub(l, "swift"@) || contains_sub(l, "expected"@))
}

pub open spec fn link_issue(l: Seq<char>) -> bool {
    contains_sub(l, "linker command failed"@) || contains_sub(l, "ld:"@)
}

/// The hints for a lowercased build log, in this order: signing, CocoaPods,
/// Swift packages, destination, compile error, link error.
pub open spec fn build_hints(l: Seq<char>, lang: Lang) -> Seq<Seq<char>> {
    hint_if(
        signing_issue(l),
        pick(
            lang,
            "签名问题：在 Xcode → Signing & Capabilities 中选择 Team，或在 config.toml 设置 development_team"@,
            "Signing: select a Team in Xcode → Signing & Capabilities, or set development_team in config.toml"@,
        ),
    ) + hint_if(
        pods_issue(l),
        pick(
            lang,
            "依赖问题：在工程目录运行 pod install"@,
            "Dependencies: run pod install in the project directory"@,
        ),
    ) + hint_if(
        package_issue(l),
        pick(
            lang,
            "Swift Package 未解析：运行 ios-runner resolve-packages"@,
            "Swift packages unresolved: run ios-runner resolve-packages"@,
        ),
    ) + hint_if(
        destination_issue(l),
        pick(
            lang,
            "运行目标无效：运行 ios-runner switch，或在 Zed 中运行「iOS-Runner: 选择 Scheme 与设备」"@,
            "Invalid destination: run ios-runner switch, or use Zed task「iOS-Runner: Select Scheme & Device」"@,
        ),
    ) + hint_if(
        compile_issue(l),
        pick(lang, "编译错误：查看上方日志中的 error: 行"@, "Compile error: check error: lines in the log above"@),
    ) + hint_if(
        link_issue(l),
        pick(lang, "链接错误：检查 Framework 依赖与签名设置"@, "Link error: check frameworks and signing settings"@),
    )
}

proof fn lemma_hint_kept(a: Seq<Seq<char>>, b: Seq<Seq<char>>, h: Seq<char>)
    ensures
        a.contains(h) ==> (a + b).contains(h),
        b.contains(h) ==> (a + b).contains(h),
{
    if a.contains(h) {
        let i = choose|i: int| 0 <= i < a.len() && a[i] == h;
        assert((a + b)[i] == h);
    }
    if b.contains(h) {
        let i = choose|i: int| 0 <= i < b.len() && b[i] == h;
        assert((a + b)[a.len() + i] == h);
    }
}

proof fn lemma_hint_given(cond: bool, h: Seq<char>)
    ensures
        cond ==> hint_if(cond, h).contains(h),
{
    if cond {
        assert(hint_if(cond, h)[0] == h);
    }
}

/// Each kind of trouble that a lowercased build log shows gets its hint, in
/// the log's language: signing, CocoaPods, unresolved Swift packages, an
/// invalid destination, a compile error and a link error.
pub proof fn law_build_hints_given(l: Seq<char>, lang: Lang)
    ensures
        contains_sub(l, "signing"@) || contains_sub(l, "development team"@) || contains_sub(
            l,
            "provisioning profile"@,
        ) ==> build_hints(l, lang).contains(
            pick(
                lang,
                "签名问题：在 Xcode → Signing & Capabilities 中选择 Team，或在 config.toml 设置 development_team"@,
                "Signing: select a Team in Xcode → Signing & Capabilities, or set development_team in config.toml"@,
            ),
        ),
        contains_sub(l, "pod install"@) || contains_sub(l, "sandbox is not in sync"@)
            ==> build_hints(l, lang).contains(
            pick(
                lang,
                "依赖问题：在工程目录运行 pod install"@,
                "Dependencies: run pod install in the project directory"@,
            ),
        ),
        contains_sub(l, "could not resolve package"@) || contains_sub(l, "swift package"@)
            ==> build_hints(l, lang).contains(
            pick(
                lang,
                "Swift Package 未解析：运行 ios-runner resolve-packages"@,
                "Swift packages unresolved: run ios-runner resolve-packages"@,
            ),
        ),
        contains_sub(l, "unable to find a destination"@) || contains_sub(l, "ineligible destination"@)
            ==> build_hints(l, lang).contains(
            pick(
                lang,
                "运行目标无效：运行 ios-runner switch，或在 Zed 中运行「iOS-Runner: 选择 Scheme 与设备」"@,
                "Invalid destination: run ios-runner switch, or use Zed task「iOS-Runner: Select Scheme & Device」"@,
            ),
        ),
        contains_sub(l, "error:"@) && (contains_sub(l, "swift"@) || contains_sub(l, "expected"@))
            ==> build_hints(l, lang).contains(
            pick(lang, "编译错误：查看上方日志中的 error: 行"@, "Compile error: check error: lines in the log above"@),
        ),
        contains_sub(l, "linker command failed"@) || contains_sub(l, "ld:"@) ==> build_hints(
            l,
            lang,
        ).contains(
            pick(lang, "链接错误：检查 Framework 依赖与签名设置"@, "Link error: check frameworks and signing settings"@),
        ),
{
    let h1 = pick(
        lang,
        "签名问题：在 Xcode → Signing & Capabilities 中选择 Team，或在 config.toml 设置 development_team"@,
        "Signing: select a Team in Xcode → Signing & Capabilities, or set development_team in config.toml"@,
    );
    let h2 = pick(
        lang,
        "依赖问题：在工程目录运行 pod install"@,
        "Dependencies: run pod install in the project directory"@,
    );
    let h3 = pick(
        lang,
        "Swift Package 未解析：运行 ios-runner resolve-packages"@,
        "Swift packages unresolved: run ios-runner resolve-packages"@,
    );
    let h4 = pick(
        lang,
        "运行目标无效：运行 ios-runner switch，或在 Zed 中运行「iOS-Runner: 选择 Scheme 与设备」"@,
        "Invalid destination: run ios-runner switch, or use Zed task「iOS-Runner: Select Scheme & Device」"@,
    );
    let h5 = pick(lang, "编译错误：查看上方日志中的 error: 行"@, "Compile error: check error: lines in the log above"@);
    let h6 = pick(lang, "链接错误：检查 Framework 依赖与签名设置"@, "Link error: check frameworks and signing settings"@);
    let p1 = hint_if(signing_issue(l), h1);
    let p2 = hint_if(pods_issue(l), h2);
    let p3 = hint_if(package_issue(l), h3);
    let p4 = hint_if(destination_issue(l), h4);
    let p5 = hint_if(compile_issue(l), h5);
    let p6 = hint_if(link_issue(l), h6);
    assert(build_hints(l, lang) == p1 + p2 + p3 + p4 + p5 + p6);
    lemma_hint_given(signing_issue(l), h1);
    lemma_hint_given(pods_issue(l), h2);
    lemma_hint_given(package_issue(l), h3);
    lemma_hint_given(destination_issue(l), h4);
    lemma_hint_given(compile_issue(l), h5);
    lemma_hint_given(link_issue(l), h6);
    let q1 = p1;
    let q2 = q1 + p2;
    let q3 = q2 + p3;
    let q4 = q3 + p4;
    let q5 = q4 + p5;
    let q6 = q5 + p6;
    lemma_hint_kept(Seq::empty(), p1, h1);
    assert(Seq::<Seq<char>>::empty() + p1 =~= p1);
    lemma_hint_kept(q1, p2, h1);
    lemma_hint_kept(q1, p2, h2);
    lemma_hint_kept(q2, p3, h1);
    lemma_hint_kept(q2, p3, h2);
    lemma_hint_kept(q2, p3, h3);
    lemma_hint_kept(q3, p4, h1);
    lemma_hint_kept(q3, p4, h2);
    lemma_hint_kept(q3, p4, h3);
    lemma_hint_kept(q3, p4, h4);
    lemma_hint_kept(q4, p5, h1);
    lemma_hint_kept(q4, p5, h2);
    lemma_hint_kept(q4, p5, h3);
    lemma_hint_kept(q4, p5, h4);
    lemma_hint_kept(q4, p5, h5);
    lemma_hint_kept(q5, p6, h1);
    lemma_hint_kept(q5, p6, h2);
    lemma_hint_kept(q5, p6, h3);
    lemma_hint_kept(q5, p6, h4);
    lemma_hint_kept(q5, p6, h5);
    lemma_hint_kept(q5, p6, h6);
}

fn push_hint(hints: &mut Vec<String>, cond: bool, h: &str)
    ensures
        str_views(final(hints)@) == str_views(old(hints)@) + hint_if(cond, h@),
{
    let ghost before = str_views(hints@);
    if cond {
        hints.push(owned(h));
        assert(str_views(hints@) =~= before + seq![h@]);
    } else {
        assert(before + hint_if(cond, h@) =~= before);
    }
}

/// The hints for a build log that is already lowercased.
pub fn diagnose_lowercased(lower: &str, lang: Lang) -> (hints: Vec<String>)
    ensures
        str_views(hints@) == build_hints(lower@, lang),
{
    let l = chars_of(lower);
    let v = l.as_slice();
    let mut hints: Vec<String> = Vec::new();
    let signing = contains_lit(v, "signing") || contains_lit(v, "development team") || contains_lit(
        v,
        "provisioning profile",
    );
    push_hint(
        &mut hints,
        signing,
        t(
            lang,
            "签名问题：在 Xcode → Signing & Capabilities 中选择 Team，或在 config.toml 设置 development_team",
            "Signing: select a Team in Xcode → Signing & Capabilities, or set development_team in config.toml",
        ),
    );
    let pods = contains_lit(v, "pod install") || contains_lit(v, "sandbox is not in sync");
    push_hint(
        &mut hints,
        pods,
        t(lang, "依赖问题：在工程目录运行 pod install", "Dependencies: run pod install in the project directory"),
    );
    let packages = contains_lit(v, "could not resolve package") || contains_lit(v, "swift package");
    push_hint(
        &mut hints,
        packages,
        t(
            lang,
            "Swift Package 未解析：运行 ios-runner resolve-packages",
            "Swift packages unresolved: run ios-runner resolve-packages",
        ),
    );
    let dest = contains_lit(v, "unable to find a destination") || contains_lit(
        v,
        "ineligible destination",
    );
    push_hint(
        &mut hints,
        dest,
        t(
            lang,
            "运行目标无效：运行 ios-runner switch，或在 Zed 中运行「iOS-Runner: 选择 Scheme 与设备」",
            "Invalid destination: run ios-runner switch, or use Zed task「iOS-Runner: Select Scheme & Device」",
        ),
    );
    let compile = contains_lit(v, "error:") && (contains_lit(v, "swift") || contains_lit(
        v,
        "expected",
    ));
    push_hint(
        &mut hints,
        compile,
        t(lang, "编译错误：查看上方日志中的 error: 行", "Compile error: check error: lines in the log above"),
    );
    let link = contains_lit(v, "linker command failed") || contains_lit(v, "ld:");
    push_hint(
        &mut hints,
        link,
        t(lang, "链接错误：检查 Framework 依赖与签名设置", "Link error: check frameworks and signing settings"),
    );
    hints
}

/// The hints for a build log, matched case-insensitively.
pub fn diagnose_build_output(log: &str, lang: Lang) -> (hints: Vec<String>)
    ensures
        str_views(hints@) == build_hints(lowercase_of(log@), lang),
{
    let lower = to_lowercase(log);
    diagnose_lowercased(lower.as_str(), lang)
}

pub open spec fn bullet(h: Seq<char>) -> Seq<char> {
    "  • "@ + h
}

/// What a build failure prints for these hints: nothing when there are none,
/// else a warning line and one bullet per hint.
pub open spec fn failure_lines(hints: Seq<Seq<char>>, lang: Lang) -> Seq<Seq<char>> {
    if hints.len() == 0 {
        Seq::empty()
    } else {
        seq![pick(lang, "构建失败 — 可能原因："@, "Build failed — hints:"@)] + hints.map_values(
            |h: Seq<char>| bullet(h),
        )
    }
}

/// The lines printed after a failed build: the first as a warning, the rest
/// as details.
pub fn print_build_failure_diagnostics(log: &str, lang: Lang) -> (lines: Vec<String>)
    ensures
        str_views(lines@) == failure_lines(build_hints(lowercase_of(log@), lang), lang),
{
    let hints = diagnose_build_output(log, lang);
    let ghost hv = str_views(hints@);
    let mut lines: Vec<String> = Vec::new();
    if hints.len() == 0 {
        assert(str_views(lines@) =~= Seq::<Seq<char>>::empty());
        return lines;
    }
    lines.push(owned(t(lang, "构建失败 — 可能原因：", "Build failed — hints:")));
    let mut i: usize = 0;
    while i < hints.len()
        invariant
            hv == str_views(hints@),
            i <= hints@.len(),
            str_views(lines@) == seq![pick(lang, "构建失败 — 可能原因："@, "Build failed — hints:"@)]
                + hv.subrange(0, i as int).map_values(|h: Seq<char>| bullet(h)),
        decreases hints@.len() - i,
    {
        let mut b: Vec<char> = Vec::new();
        push_lit(&mut b, "  • ");
        push_all(&mut b, chars_of(hints[i].as_str()).as_slice());
        let ghost before = str_views(lines@);
        lines.push(string_of(b.as_slice()));
        assert(hv.subrange(0, i + 1).map_values(|h: Seq<char>| bullet(h)) =~= hv.subrange(
            0,
            i as int,
        ).map_values(|h: Seq<char>| bullet(h)).push(bullet(hv[i as int])));
        assert(str_views(lines@) =~= before.push(bullet(hv[i as int])));
        i = i + 1;
    }
    assert(hv.subrange(0, hv.len() as int) =~= hv);
    lines
}

/// The text saved as the build log: the non-blank stdout and stderr under
/// their headings, or a note that nothing was captured.
pub open spec fn captured_log(stderr: Seq<char>, stdout: Seq<char>, lang: Lang) -> Seq<char> {
    let out = if trimmed(stdout).len() > 0 {
        "--- stdout ---\n"@ + stdout + "\n"@
    } else {
        Seq::empty()
    };
    let err = if trimmed(stderr).len() > 0 {
        "--- stderr ---\n"@ + stderr + "\n"@
    } else {
        Seq::empty()
    };
    if (out + err).len() == 0 {
        pick(lang, "(无捕获输出)"@, "(no captured output)"@)
    } else {
        out + err
    }
}

/// The log text that `append_and_persist` saves for a failed build.
pub fn captured_log_text(stderr: &str, stdout: &str, lang: Lang) -> (s: String)
    ensures
        s@ == captured_log(stderr@, stdout@, lang),
{
    let out = chars_of(stdout);
    let err = chars_of(stderr);
    let mut buf: Vec<char> = Vec::new();
    if trim(out.as_slice()).len() > 0 {
        push_lit(&mut buf, "--- stdout ---\n");
        push_all(&mut buf, out.as_slice());
        push_lit(&mut buf, "\n");
    }
    let ghost o = buf@;
    if trim(err.as_slice()).len() > 0 {
        push_lit(&mut buf, "--- stderr ---\n");
        push_all(&mut buf, err.as_slice());
        push_lit(&mut buf, "\n");
    }
    if buf.len() == 0 {
        return owned(t(lang, "(无捕获输出)", "(no captured output)"));
    }
    string_of(buf.as_slice())
}

/// `devicectl` output tells of a locked device.
pub open spec fn locked_text(l: Seq<char>) -> bool {
    ||| contains_sub(l, "locked"@)
    ||| contains_sub(l, "unlock your device"@)
    ||| contains_sub(l, "device is locked"@)
    ||| contains_sub(l, "passcode"@)
    ||| contains_sub(l, "screen is locked"@)
}

/// The hint for lowercased `devicectl` output: a locked device first, then
/// Developer Mode, then trust; none otherwise.
pub open spec fn devicectl_hint(l: Seq<char>, lang: Lang) -> Option<Seq<char>> {
    if locked_text(l) {
        Some(
            pick(
                lang,
                "真机处于锁屏状态：请先解锁 iPhone 并保持亮屏，必要时在手机上点击「信任此电脑」后重试。"@,
                "Device is locked: unlock the iPhone, keep the screen on, and trust this Mac if prompted."@,
            ),
        )
    } else if contains_sub(l, "developer mode"@) {
        Some(
            pick(
                lang,
                "请在 iPhone 上开启「开发者模式」：设置 → 隐私与安全性 → 开发者模式。"@,
                "Enable Developer Mode on the iPhone: Settings → Privacy & Security → Developer Mode."@,
            ),
        )
    } else if contains_sub(l, "not trusted"@) || contains_sub(l, "trust"@) {
        Some(
            pick(
                lang,
                "请在 iPhone 上信任此 Mac：连接后解锁设备，按提示点「信任」。"@,
                "Trust this Mac on the iPhone: unlock the device and tap Trust when prompted."@,
            ),
        )
    } else {
        None
    }
}

/// The hint for `devicectl` output that is already lowercased.
pub fn devicectl_hint_lowercased(lower: &str, lang: Lang) -> (r: Option<String>)
    ensures
        crate::text::opt_view(r) == devicectl_hint(lower@, lang),
{
    let l = chars_of(lower);
    let v = l.as_slice();
    if contains_lit(v, "locked") || contains_lit(v, "unlock your device") || contains_lit(
        v,
        "device is locked",
    ) || contains_lit(v, "passcode") || contains_lit(v, "screen is locked") {
        return Some(
            owned(
                t(
                    lang,
                    "真机处于锁屏状态：请先解锁 iPhone 并保持亮屏，必要时在手机上点击「信任此电脑」后重试。",
                    "Device is locked: unlock the iPhone, keep the screen on, and trust this Mac if prompted.",
                ),
            ),
        );
    }
    if contains_lit(v, "developer mode") {
        return Some(
            owned(
                t(
                    lang,
                    "请在 iPhone 上开启「开发者模式」：设置 → 隐私与安全性 → 开发者模式。",
                    "Enable Developer Mode on the iPhone: Settings → Privacy & Security → Developer Mode.",
                ),
            ),
        );
    }
    if contains_lit(v, "not trusted") || contains_lit(v, "trust") {
        return Some(
            owned(
                t(
                    lang,
                    "请在 iPhone 上信任此 Mac：连接后解锁设备，按提示点「信任」。",
                    "Trust this Mac on the iPhone: unlock the device and tap Trust when prompted.",
                ),
            ),
        );
    }
    None
}

/// The hint for a failed `devicectl` call, read from its stderr and stdout
/// joined by a newline and lowercased.
pub fn devicectl_failure_hint(stderr: &str, stdout: &str, lang: Lang) -> (r: Option<String>)
    ensures
        crate::text::opt_view(r) == devicectl_hint(lowercase_of(stderr@ + "\n"@ + stdout@), lang),
{
    let mut c = chars_of(stderr);
    push_lit(&mut c, "\n");
    push_all(&mut c, chars_of(stdout).as_slice());
    let combined = string_of(c.as_slice());
    let lower = to_lowercase(combined.as_str());
    devicectl_hint_lowercased(lower.as_str(), lang)
}

/// What a failed `devicectl` step reports: a warning with the hint, or the
/// trimmed stderr as detail, and the error that ends the command.
pub struct DevicectlFailure {
    pub warning: Option<String>,
    pub detail: Option<String>,
    pub error: String,
}

pub open spec fn failed_label(label: Seq<char>, lang: Lang, see_above: bool) -> Seq<char> {
    if see_above {
        label + pick(lang, " 失败（详见上方输出）"@, " failed (see output above)"@)
    } else {
        label + pick(lang, " 失败"@, " failed"@)
    }
}

/// A failed `devicectl` step labelled `label`: with a hint, the hint is the
/// warning and the error says the step failed; without one, a non-blank
/// stderr is shown trimmed and the error points at the output above.
pub fn report_devicectl_failure(label: &str, stderr: &str, stdout: &str, lang: Lang) -> (r:
    DevicectlFailure)
    ensures
        ({
            let hint = devicectl_hint(lowercase_of(stderr@ + "\n"@ + stdout@), lang);
            match hint {
                Some(h) => crate::text::opt_view(r.warning) == Some(h) && r.detail is None && r.error@ == failed_label(
                    label@,
                    lang,
                    false,
                ),
                None => r.warning is None && crate::text::opt_view(r.detail) == (if trimmed(
                    stderr@,
                ).len() > 0 {
                    Some(trimmed(stderr@))
                } else {
                    None
                }) && r.error@ == failed_label(label@, lang, true),
            }
        }),
{
    let hint = devicectl_failure_hint(stderr, stdout, lang);
    let mut e = chars_of(label);
    match hint {
        Some(h) => {
            push_lit(&mut e, t(lang, " 失败", " failed"));
            DevicectlFailure { warning: Some(h), detail: None, error: string_of(e.as_slice()) }
        },
        None => {
            let tr = trim(chars_of(stderr).as_slice());
            let detail = if tr.len() > 0 {
                Some(string_of(tr.as_slice()))
            } else {
                None
            };
            push_lit(&mut e, t(lang, " 失败（详见上方输出）", " failed (see output above)"));
            DevicectlFailure { warning: None, detail, error: string_of(e.as_slice()) }
        },
    }
}

/// What `devicectl device info lockState` reports.
#[derive(Debug, Clone, Copy, PartialEq, Eq, Structural)]
pub struct LockState {
    pub passcode_required: Option<bool>,
    pub unlocked_since_boot: Option<bool>,
}

/// The device needs its passcode and has not been unlocked since boot.
pub open spec fn is_locked(s: LockState) -> bool {
    s.passcode_required == Some(true) && s.unlocked_since_boot == Some(false)
}

/// The device cannot be used before it is unlocked.
#[derive(Debug, Clone, Copy, PartialEq, Eq, Structural)]
pub struct DeviceLocked;

impl DeviceLocked {
    pub fn message(&self, lang: Lang) -> (s: &'static str)
        ensures
            s@ == pick(lang, "真机尚未解锁（开机后需要输入密码）"@, "Device is locked (enter passcode after boot)"@),
    {
        t(lang, "真机尚未解锁（开机后需要输入密码）", "Device is locked (enter passcode after boot)")
    }
}

/// Checks the lock state before install and launch; an unknown state (the
/// query failed or gave nothing) lets the run go on.
pub fn ensure_device_ready(state: Option<LockState>) -> (r: Result<(), DeviceLocked>)
    ensures
        r is Err <==> (state matches Some(s) && is_locked(s)),
{
    match state {
        Some(s) => {
            if s.passcode_required == Some(true) && s.unlocked_since_boot == Some(false) {
                Err(DeviceLocked)
            } else {
                Ok(())
            }
        },
        None => Ok(()),
    }
}

pub open spec fn locked_hint(device_id: Seq<char>, lang: Lang) -> Seq<char> {
    match lang {
        Lang::ZhCn => "真机 ("@ + device_id + ") 需要先解锁：按电源键亮屏并输入密码，保持解锁后再运行 iOS-Runner: Run。"@,
        Lang::En => "Device ("@ + device_id
            + ") must be unlocked first: wake the iPhone, enter passcode, then run iOS-Runner: Run."@,
    }
}

/// The warning shown before the locked-device error.
pub fn device_locked_hint(device_id: &str, lang: Lang) -> (s: String)
    ensures
        s@ == locked_hint(device_id@, lang),
{
    let mut r: Vec<char> = Vec::new();
    match lang {
        Lang::ZhCn => {
            push_lit(&mut r, "真机 (");
            push_lit(&mut r, device_id);
            push_lit(&mut r, ") 需要先解锁：按电源键亮屏并输入密码，保持解锁后再运行 iOS-Runner: Run。");
        },
        Lang::En => {
            push_lit(&mut r, "Device (");
            push_lit(&mut r, device_id);
            push_lit(
                &mut r,
                ") must be unlocked first: wake the iPhone, enter passcode, then run iOS-Runner: Run.",
            );
        },
    }
    string_of(r.as_slice())
}

/// `devicectl` output that speaks of a lock or a passcode gets the unlock
/// hint; otherwise Developer Mode, then trust, get theirs; output that
/// mentions none of these gets no hint.
pub proof fn law_devicectl_hints(l: Seq<char>, lang: Lang)
    ensures
        contains_sub(l, "locked"@) || contains_sub(l, "passcode"@) || contains_sub(
            l,
            "unlock your device"@,
        ) ==> devicectl_hint(l, lang) == Some(
            pick(
                lang,
                "真机处于锁屏状态：请先解锁 iPhone 并保持亮屏，必要时在手机上点击「信任此电脑」后重试。"@,
                "Device is locked: unlock the iPhone, keep the screen on, and trust this Mac if prompted."@,
            ),
        ),
        !locked_text(l) && contains_sub(l, "developer mode"@) ==> devicectl_hint(l, lang) == Some(
            pick(
                lang,
                "请在 iPhone 上开启「开发者模式」：设置 → 隐私与安全性 → 开发者模式。"@,
                "Enable Developer Mode on the iPhone: Settings → Privacy & Security → Developer Mode."@,
            ),
        ),
        !locked_text(l) && !contains_sub(l, "developer mode"@) && contains_sub(l, "trust"@)
            ==> devicectl_hint(l, lang) == Some(
            pick(
                lang,
                "请在 iPhone 上信任此 Mac：连接后解锁设备，按提示点「信任」。"@,
                "Trust this Mac on the iPhone: unlock the device and tap Trust when prompted."@,
            ),
        ),
        !contains_sub(l, "locked"@) && !contains_sub(l, "unlock your device"@) && !contains_sub(
            l,
            "passcode"@,
        ) && !contains_sub(l, "developer mode"@) && !contains_sub(l, "trust"@) ==> (
        devicectl_hint(l, lang) is None <==> !contains_sub(l, "device is locked"@) && !contains_sub(
            l,
            "screen is locked"@,
        ) && !contains_sub(l, "not trusted"@)),
{
}

/// The device is refused exactly when it reports that it needs its passcode
/// and has not been unlocked since it booted; an unknown state is no reason
/// to refuse it.
pub proof fn law_device_lock(state: Option<LockState>)
    ensures
        (state matches Some(s) && is_locked(s)) <==> (state matches Some(s) && s.passcode_required
            == Some(true) && s.unlocked_since_boot == Some(false)),
        state is None ==> !(state matches Some(s) && is_locked(s)),
{
}

} // verus!
