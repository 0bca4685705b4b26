//! Shell snippet prepended to Zed tasks, and the language of task scripts.
//!
//! Zed pre-expands `$VAR` before zsh runs. Use `$HOME` (env) in quoted paths, not `${HOME}`.
use vstd::prelude::*;

use crate::global_store::{lookup, GlobalConfigFile};
use crate::locale::Lang;
use crate::text::{chars_of, push_lit, string_of, trimmed};

verus! {

/// Install directory of the CLI, relative to the home directory.
pub const INSTALL_DIR: &'static str = ".ios-runner/bin";

/// Quoted CLI path for task scripts (`$HOME` is preserved by Zed).
pub const CLI_PATH_SHELL: &'static str = "\"$HOME/.ios-runner/bin/ios-runner\"";

/// The first lines of the message shown when the CLI is not installed yet,
/// from the closing quote of the tested path on.
pub open spec fn not_ready_head(lang: Lang) -> Seq<char> {
    match lang {
        Lang::ZhCn => "\"; then\n  echo \"\"\n  echo \"  iOS Runner 尚未就绪。\"\n  echo \"\"\n  echo \"  在 Zed 里任选一种方式（无需终端）：\"\n  echo \"    · Cmd+Q 完全退出 Zed，再重新打开\"\n"@,
        Lang::En => "\"; then\n  echo \"\"\n  echo \"  iOS Runner is not ready yet.\"\n  echo \"\"\n  echo \"  In Zed (no terminal):\"\n  echo \"    · Cmd+Q to quit Zed completely, then reopen\"\n"@,
    }
}

/// The rest of that message, up to the closing `fi`.
pub open spec fn not_ready_tail(lang: Lang) -> Seq<char> {
    match lang {
        Lang::ZhCn => "  echo \"    · 或 Cmd+Shift+P → 搜 extensions → 打开扩展页 → 重装 iOS Runner\"\n  echo \"\"\n  echo \"  扩展会在加载时自动安装运行环境。\"\n  echo \"\"\n  exit 1\nfi"@,
        Lang::En => "  echo \"    · Or Cmd+Shift+P → extensions → reinstall iOS Runner\"\n  echo \"\"\n  echo \"  The extension installs everything when it loads.\"\n  echo \"\"\n  exit 1\nfi"@,
    }
}

/// The line that puts the installed CLI on `PATH`.
pub open spec fn path_line() -> Seq<char> {
    "export PATH=\""@ + "$HOME"@ + "/.ios-runner/bin:"@ + "$PATH"@ + "\""@
}

/// The preamble of every task script:
///
/// ```text
/// export PATH="$HOME/.ios-runner/bin:$PATH"
/// if ! test -x "$HOME/.ios-runner/bin/ios-runner"; then
///   echo …   (how to get the CLI installed)
///   exit 1
/// fi
/// ```
pub open spec fn preamble_view(lang: Lang) -> Seq<char> {
    path_line() + "\nif ! test -x \""@ + "$HOME"@ + "/.ios-runner/bin/ios-runner"@ + not_ready_head(lang)
        + not_ready_tail(lang)
}

/// Every `$` of the script names `HOME`, `PATH` or a `ZED_` variable: Zed
/// blanks any other `$` reference before the shell runs.
pub open spec fn refs_env_only(s: Seq<char>) -> bool {
    forall|i: int|
        0 <= i < s.len() && s[i] == '$' ==> crate::text::occurs_at(s, "$HOME"@, i)
            || crate::text::occurs_at(s, "$PATH"@, i) || crate::text::occurs_at(s, "$ZED_"@, i)
            || crate::text::occurs_at(s, "${ZED_"@, i)
}

proof fn lemma_occurs_concat(a: Seq<char>, b: Seq<char>, p: Seq<char>, i: int)
    ensures
        crate::text::occurs_at(a, p, i) ==> crate::text::occurs_at(a + b, p, i),
        crate::text::occurs_at(b, p, i) ==> crate::text::occurs_at(a + b, p, i + a.len()),
{
    if crate::text::occurs_at(a, p, i) {
        assert((a + b).subrange(i, i + p.len()) =~= a.subrange(i, i + p.len()));
    }
    if crate::text::occurs_at(b, p, i) {
        assert((a + b).subrange(i + a.len(), i + a.len() + p.len()) =~= b.subrange(i, i + p.len()));
    }
}

proof fn lemma_refs_concat(a: Seq<char>, b: Seq<char>)
    requires
        refs_env_only(a),
        refs_env_only(b),
    ensures
        refs_env_only(a + b),
{
    let s = a + b;
    assert forall|i: int| 0 <= i < s.len() && s[i] == '$' implies crate::text::occurs_at(
        s,
        "$HOME"@,
        i,
    ) || crate::text::occurs_at(s, "$PATH"@, i) || crate::text::occurs_at(s, "$ZED_"@, i)
        || crate::text::occurs_at(s, "${ZED_"@, i) by {
        if i < a.len() {
            assert(a[i] == s[i]);
            lemma_occurs_concat(a, b, "$HOME"@, i);
            lemma_occurs_concat(a, b, "$PATH"@, i);
            lemma_occurs_concat(a, b, "$ZED_"@, i);
            lemma_occurs_concat(a, b, "${ZED_"@, i);
        } else {
            let j = i - a.len();
            assert(b[j] == s[i]);
            lemma_occurs_concat(a, b, "$HOME"@, j);
            lemma_occurs_concat(a, b, "$PATH"@, j);
            lemma_occurs_concat(a, b, "$ZED_"@, j);
            lemma_occurs_concat(a, b, "${ZED_"@, j);
        }
    }
}

proof fn lemma_plain_refs(s: Seq<char>)
    requires
        !crate::text::has_char(s, '$'),
    ensures
        refs_env_only(s),
{
    assert forall|i: int| 0 <= i < s.len() implies s[i] != '$' by {}
}

proof fn lemma_var_refs(v: Seq<char>)
    requires
        v == "$HOME"@ || v == "$PATH"@,
    ensures
        refs_env_only(v),
{
    reveal_strlit("$HOME");
    reveal_strlit("$PATH");
    assert forall|i: int| 0 <= i < v.len() && v[i] == '$' implies crate::text::occurs_at(
        v,
        "$HOME"@,
        i,
    ) || crate::text::occurs_at(v, "$PATH"@, i) by {
        assert(i == 0);
        assert(v.subrange(0, 5) =~= v);
    }
}

proof fn lemma_no_dollar(s: Seq<char>)
    requires
        s == "export PATH=\""@ || s == "/.ios-runner/bin:"@ || s == "\""@ || s
            == "\nif ! test -x \""@ || s == "/.ios-runner/bin/ios-runner"@,
    ensures
        !crate::text::has_char(s, '$'),
{
    reveal_strlit("export PATH=\"");
    reveal_strlit("/.ios-runner/bin:");
    reveal_strlit("\"");
    reveal_strlit("\nif ! test -x \"");
    reveal_strlit("/.ios-runner/bin/ios-runner");
    if crate::text::has_char(s, '$') {
        let i = choose|i: int| 0 <= i < s.len() && s[i] == '$';
    }
}

proof fn lemma_message_no_dollar(lang: Lang)
    ensures
        !crate::text::has_char(not_ready_head(lang), '$'),
        !crate::text::has_char(not_ready_tail(lang), '$'),
{
    let h = not_ready_head(lang);
    let t = not_ready_tail(lang);
    match lang {
        Lang::ZhCn => {
            reveal_strlit("\"; then\n  echo \"\"\n  echo \"  iOS Runner 尚未就绪。\"\n  echo \"\"\n  echo \"  在 Zed 里任选一种方式（无需终端）：\"\n  echo \"    · Cmd+Q 完全退出 Zed，再重新打开\"\n");
            reveal_strlit("  echo \"    · 或 Cmd+Shift+P → 搜 extensions → 打开扩展页 → 重装 iOS Runner\"\n  echo \"\"\n  echo \"  扩展会在加载时自动安装运行环境。\"\n  echo \"\"\n  exit 1\nfi");
        },
        Lang::En => {
            reveal_strlit("\"; then\n  echo \"\"\n  echo \"  iOS Runner is not ready yet.\"\n  echo \"\"\n  echo \"  In Zed (no terminal):\"\n  echo \"    · Cmd+Q to quit Zed completely, then reopen\"\n");
            reveal_strlit("  echo \"    · Or Cmd+Shift+P → extensions → reinstall iOS Runner\"\n  echo \"\"\n  echo \"  The extension installs everything when it loads.\"\n  echo \"\"\n  exit 1\nfi");
        },
    }
    assert(!crate::text::has_char(h, '$')) by {
        if crate::text::has_char(h, '$') {
            let i = choose|i: int| 0 <= i < h.len() && h[i] == '$';
        }
    }
    assert(!crate::text::has_char(t, '$')) by {
        if crate::text::has_char(t, '$') {
            let i = choose|i: int| 0 <= i < t.len() && t[i] == '$';
        }
    }
}

/// The preamble refers to no shell variable but `HOME` and `PATH`, is its own
/// trim, and starts by putting the installed CLI on `PATH`.
proof fn lemma_preamble_shape(lang: Lang)
    ensures
        refs_env_only(preamble_view(lang)),
        trimmed(preamble_view(lang)) == preamble_view(lang),
        crate::text::has_prefix(preamble_view(lang), path_line()),
{
    let a = "export PATH=\""@;
    let b = "/.ios-runner/bin:"@;
    let q = "\""@;
    let c = "\nif ! test -x \""@;
    let d = "/.ios-runner/bin/ios-runner"@;
    let home = "$HOME"@;
    let path = "$PATH"@;
    lemma_no_dollar(a);
    lemma_no_dollar(b);
    lemma_no_dollar(q);
    lemma_no_dollar(c);
    lemma_no_dollar(d);
    lemma_plain_refs(a);
    lemma_plain_refs(b);
    lemma_plain_refs(q);
    lemma_plain_refs(c);
    lemma_plain_refs(d);
    lemma_var_refs(home);
    lemma_var_refs(path);
    lemma_message_no_dollar(lang);
    lemma_plain_refs(not_ready_head(lang));
    lemma_plain_refs(not_ready_tail(lang));
    lemma_refs_concat(a, home);
    lemma_refs_concat(a + home, b);
    lemma_refs_concat(a + home + b, path);
    lemma_refs_concat(a + home + b + path, q);
    let pl = path_line();
    lemma_refs_concat(pl, c);
    lemma_refs_concat(pl + c, home);
    lemma_refs_concat(pl + c + home, d);
    lemma_refs_concat(pl + c + home + d, not_ready_head(lang));
    lemma_refs_concat(pl + c + home + d + not_ready_head(lang), not_ready_tail(lang));
    let s = preamble_view(lang);
    reveal_strlit("export PATH=\"");
    assert(s[0] == 'e');
    let t = not_ready_tail(lang);
    match lang {
        Lang::ZhCn => {
            reveal_strlit("  echo \"    · 或 Cmd+Shift+P → 搜 extensions → 打开扩展页 → 重装 iOS Runner\"\n  echo \"\"\n  echo \"  扩展会在加载时自动安装运行环境。\"\n  echo \"\"\n  exit 1\nfi");
        },
        Lang::En => {
            reveal_strlit("  echo \"    · Or Cmd+Shift+P → extensions → reinstall iOS Runner\"\n  echo \"\"\n  echo \"  The extension installs everything when it loads.\"\n  echo \"\"\n  exit 1\nfi");
        },
    }
    assert(s.last() == t.last());
    assert(t.last() == 'i');
    crate::text::lemma_trimmed_keeps(s);
    let rest = c + home + d + not_ready_head(lang) + not_ready_tail(lang);
    assert(s =~= pl + rest);
    assert(s.subrange(0, pl.len() as int) =~= pl);
}

/// Prepended to Zed tasks (PATH + extension-ready check only). The script
/// tests the installed CLI by its `$HOME` path and uses no shell variable of
/// its own, which Zed would blank before the shell runs.
pub fn zed_task_preamble(lang: Lang) -> (s: String)
    ensures
        s@ == preamble_view(lang),
        refs_env_only(s@),
        trimmed(s@) == s@,
        crate::text::has_prefix(s@, path_line()),
{
    proof {
        lemma_preamble_shape(lang);
    }
    let mut r: Vec<char> = Vec::new();
    push_lit(&mut r, "export PATH=\"");
    push_lit(&mut r, "$HOME");
    push_lit(&mut r, "/.ios-runner/bin:");
    push_lit(&mut r, "$PATH");
    push_lit(&mut r, "\"");
    push_lit(&mut r, "\nif ! test -x \"");
    push_lit(&mut r, "$HOME");
    push_lit(&mut r, "/.ios-runner/bin/ios-runner");
    match lang {
        Lang::ZhCn => {
            push_lit(&mut r, "\"; then\n  echo \"\"\n  echo \"  iOS Runner 尚未就绪。\"\n  echo \"\"\n  echo \"  在 Zed 里任选一种方式（无需终端）：\"\n  echo \"    · Cmd+Q 完全退出 Zed，再重新打开\"\n");
            push_lit(&mut r, "  echo \"    · 或 Cmd+Shift+P → 搜 extensions → 打开扩展页 → 重装 iOS Runner\"\n  echo \"\"\n  echo \"  扩展会在加载时自动安装运行环境。\"\n  echo \"\"\n  exit 1\nfi");
        },
        Lang::En => {
            push_lit(&mut r, "\"; then\n  echo \"\"\n  echo \"  iOS Runner is not ready yet.\"\n  echo \"\"\n  echo \"  In Zed (no terminal):\"\n  echo \"    · Cmd+Q to quit Zed completely, then reopen\"\n");
            push_lit(&mut r, "  echo \"    · Or Cmd+Shift+P → extensions → reinstall iOS Runner\"\n  echo \"\"\n  echo \"  The extension installs everything when it loads.\"\n  echo \"\"\n  exit 1\nfi");
        },
    }
    string_of(r.as_slice())
}

pub open spec fn opt_text(o: Option<&str>) -> Option<Seq<char>> {
    match o {
        Some(s) => Some(s@),
        None => None,
    }
}

/// Language for task scripts: `IOS_RUNNER_LANG`, else the language saved for
/// the project, else the global default; Chinese when the store could not be read.
pub open spec fn task_script_lang(env: Option<Seq<char>>, file: Option<GlobalConfigFile>, root: Option<Seq<char>>) -> Lang {
    match env {
        Some(v) => Lang::parsed(v),
        None => match file {
            Some(f) => match root {
                Some(k) => match lookup(f.projects@, k) {
                    Some(c) => Lang::parsed(c.language),
                    None => Lang::parsed(f.defaults.language@),
                },
                None => Lang::parsed(f.defaults.language@),
            },
            None => Lang::ZhCn,
        },
    }
}

/// Language for task scripts: env → global config for project → global defaults → zh-CN.
pub fn lang_for_task_script(env: Option<&str>, file: Option<&GlobalConfigFile>, root: Option<&str>) -> (l: Lang)
    ensures
        l == task_script_lang(
            opt_text(env),
            match file {
                Some(f) => Some(*f),
                None => None,
            },
            opt_text(root),
        ),
{
    match env {
        Some(v) => Lang::parse(v),
        None => match file {
            Some(f) => {
                match root {
                    Some(k) => match crate::global_store::find_project(&f.projects, k) {
                        Some(i) => {
                            return Lang::parse(f.projects[i].config.language.as_str());
                        },
                        None => {},
                    },
                    None => {},
                }
                Lang::parse(f.defaults.language.as_str())
            },
            None => Lang::ZhCn,
        },
    }
}

/// The language `init_locale` switches to: `IOS_RUNNER_LANG`, else (for a
/// project whose store could be read) the project's or the default language;
/// `None` leaves the current language.
pub open spec fn startup_lang(env: Option<Seq<char>>, file: Option<GlobalConfigFile>, root: Option<Seq<char>>) -> Option<Lang> {
    match env {
        Some(v) => Some(Lang::parsed(v)),
        None => match (root, file) {
            (Some(k), Some(f)) => Some(
                match lookup(f.projects@, k) {
                    Some(c) => Lang::parsed(c.language),
                    None => Lang::parsed(f.defaults.language@),
                },
            ),
            _ => None,
        },
    }
}

pub fn locale_for_startup(env: Option<&str>, file: Option<&GlobalConfigFile>, root: Option<&str>) -> (l: Option<Lang>)
    ensures
        l == startup_lang(
            opt_text(env),
            match file {
                Some(f) => Some(*f),
                None => None,
            },
            opt_text(root),
        ),
{
    match env {
        Some(v) => Some(Lang::parse(v)),
        None => match (root, file) {
            (Some(k), Some(f)) => match crate::global_store::find_project(&f.projects, k) {
                Some(i) => Some(Lang::parse(f.projects[i].config.language.as_str())),
                None => Some(Lang::parse(f.defaults.language.as_str())),
            },
            _ => None,
        },
    }
}

} // verus!
