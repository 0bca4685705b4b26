//! The one-key Zed bindings of iOS-Runner: which keys they use, which
//! bindings are ours, and how they are merged into a keymap.
use vstd::prelude::*;

use crate::locale::Lang;
use crate::tasks::{def_label, def_views, task_defs, task_label_for_def, task_table};
use crate::text::{chars_of, eq, eq_lit, has_prefix, owned, starts_with_lit, str_views};

verus! {

pub open spec fn binding_keys() -> Seq<Seq<char>> {
    seq!["cmd-shift-r"@, "cmd-shift-b"@, "cmd-shift-i"@, "cmd-shift-u"@]
}

/// Keys written by the keymap install: Run, Build, Select Scheme &
/// Destination, and Initialize Project.
pub fn ios_runner_binding_keys() -> (keys: Vec<&'static str>)
    ensures
        keys@.map_values(|k: &'static str| k@) == binding_keys(),
{
    let keys: Vec<&'static str> = vec!["cmd-shift-r", "cmd-shift-b", "cmd-shift-i", "cmd-shift-u"];
    assert(keys@.map_values(|k: &'static str| k@) =~= binding_keys());
    keys
}

/// A binding that spawns a Zed task by name.
#[derive(Debug, Clone)]
pub struct KeyBinding {
    pub key: String,
    pub task_name: String,
}

/// Our bindings: each key spawns the global task of the table row given by
/// its index, by the task's label in `lang` (Run, Build, Select Scheme &
/// Destination, Initialize Project).
pub open spec fn default_bindings(lang: Lang) -> Seq<(Seq<char>, Seq<char>)> {
    let t = task_table();
    seq![
        ("cmd-shift-r"@, def_label(t[2], lang)),
        ("cmd-shift-b"@, def_label(t[4], lang)),
        ("cmd-shift-i"@, def_label(t[3], lang)),
        ("cmd-shift-u"@, def_label(t[1], lang)),
    ]
}

pub open spec fn binding_views(v: Seq<KeyBinding>) -> Seq<(Seq<char>, Seq<char>)> {
    v.map_values(|b: KeyBinding| (b.key@, b.task_name@))
}

/// Recommended one-key actions (no `task: spawn` picker), each as
/// `["task::Spawn", { "task_name": <name> }]`, naming the global tasks as
/// they are labelled in `lang`.
pub fn default_ios_runner_bindings(lang: Lang) -> (v: Vec<KeyBinding>)
    ensures
        binding_views(v@) == default_bindings(lang),
{
    let defs = task_defs();
    assert(def_views(defs@).len() == task_table().len());
    assert(forall|k: int| 0 <= k < defs@.len() ==> defs@[k]@ == #[trigger] task_table()[k]);
    let mut v: Vec<KeyBinding> = Vec::new();
    v.push(KeyBinding { key: owned("cmd-shift-r"), task_name: task_label_for_def(&defs[2], lang) });
    v.push(KeyBinding { key: owned("cmd-shift-b"), task_name: task_label_for_def(&defs[4], lang) });
    v.push(KeyBinding { key: owned("cmd-shift-i"), task_name: task_label_for_def(&defs[3], lang) });
    v.push(KeyBinding { key: owned("cmd-shift-u"), task_name: task_label_for_def(&defs[1], lang) });
    assert(binding_views(v@) =~= default_bindings(lang));
    v
}

/// What a binding's value holds, as far as the check reads it: the first
/// element when the value is an array whose first element is a string, and
/// the `task_name` string of its second element.
pub struct BindingAction {
    pub action: Option<String>,
    pub task_name: Option<String>,
}

/// The binding spawns an iOS-Runner task.
pub open spec fn targets_ios_runner(b: BindingAction) -> bool {
    &&& b.action matches Some(a) && a@ == "task::Spawn"@
    &&& b.task_name matches Some(n) && has_prefix(n@, "iOS-Runner:"@)
}

pub fn binding_targets_ios_runner(b: &BindingAction) -> (r: bool)
    ensures
        r == targets_ios_runner(*b),
{
    let spawn = match &b.action {
        Some(a) => eq_lit(chars_of(a.as_str()).as_slice(), "task::Spawn"),
        None => false,
    };
    if !spawn {
        return false;
    }
    match &b.task_name {
        Some(n) => starts_with_lit(chars_of(n.as_str()).as_slice(), "iOS-Runner:"),
        None => false,
    }
}

fn is_binding_key(key: &str) -> (r: bool)
    ensures
        r == binding_keys().contains(key@),
{
    let k = chars_of(key);
    let s = k.as_slice();
    let r = eq_lit(s, "cmd-shift-r") || eq_lit(s, "cmd-shift-b") || eq_lit(s, "cmd-shift-i")
        || eq_lit(s, "cmd-shift-u");
    if r {
        assert(binding_keys().contains(key@)) by {
            if key@ == "cmd-shift-r"@ {
                assert(binding_keys()[0] == key@);
            } else if key@ == "cmd-shift-b"@ {
                assert(binding_keys()[1] == key@);
            } else if key@ == "cmd-shift-i"@ {
                assert(binding_keys()[2] == key@);
            } else {
                assert(binding_keys()[3] == key@);
            }
        }
    }
    r
}

/// The uninstall removes a binding that spawns an iOS-Runner task or uses one
/// of our keys.
pub fn should_remove_binding(key: &str, b: &BindingAction) -> (r: bool)
    ensures
        r == (targets_ios_runner(*b) || binding_keys().contains(key@)),
{
    binding_targets_ios_runner(b) || is_binding_key(key)
}

/// An entry of `keymap.json`, as far as the install reads it.
pub struct KeymapEntry {
    /// `"context": "Workspace"`.
    pub workspace: bool,
    /// The keys of its `bindings` object; `None` when it has no such object.
    pub binding_keys: Option<Vec<String>>,
}

/// How the install changes the keymap.
#[derive(Debug, Clone)]
pub enum KeymapInstall {
    /// Add to the first Workspace entry's bindings the keys of ours it lacks.
    AddMissing { entry: usize, keys: Vec<String> },
    /// Give the first Workspace entry, which has no bindings object, all of ours.
    SetBindings { entry: usize },
    /// Append a Workspace entry with all of ours.
    AppendEntry,
}

pub open spec fn first_workspace(entries: Seq<KeymapEntry>) -> Option<int> {
    if exists|i: int| 0 <= i < entries.len() && entries[i].workspace {
        Some(
            choose|i: int|
                0 <= i < entries.len() && entries[i].workspace && forall|j: int|
                    0 <= j < i ==> !entries[j].workspace,
        )
    } else {
        None
    }
}

/// Our keys that `present` lacks, in our order.
pub open spec fn missing_keys(present: Seq<Seq<char>>) -> Seq<Seq<char>> {
    binding_keys().filter(|k: Seq<char>| !present.contains(k))
}

fn contains_key(keys: &Vec<String>, k: &str) -> (r: bool)
    ensures
        r == str_views(keys@).contains(k@),
{
    let ghost kv = str_views(keys@);
    let mut i: usize = 0;
    while i < keys.len()
        invariant
            kv == str_views(keys@),
            i <= keys@.len(),
            forall|j: int| 0 <= j < i ==> kv[j] != k@,
        decreases keys@.len() - i,
    {
        assert(kv[i as int] == keys@[i as int]@);
        if eq(chars_of(keys[i].as_str()).as_slice(), chars_of(k).as_slice()) {
            return true;
        }
        i = i + 1;
    }
    false
}

fn first_workspace_index(entries: &Vec<KeymapEntry>) -> (r: Option<usize>)
    ensures
        match r {
            Some(i) => i < entries@.len() && first_workspace(entries@) == Some(i as int),
            None => first_workspace(entries@) is None,
        },
{
    let mut i: usize = 0;
    while i < entries.len()
        invariant
            i <= entries@.len(),
            forall|j: int| 0 <= j < i ==> !entries@[j].workspace,
        decreases entries@.len() - i,
    {
        if entries[i].workspace {
            let ghost s = entries@;
            let ghost c = choose|k: int|
                0 <= k < s.len() && s[k].workspace && forall|j: int| 0 <= j < k ==> !s[j].workspace;
            assert(0 <= i < s.len() && s[i as int].workspace);
            assert(c == i) by {
                if c < i {
                    assert(!s[c].workspace);
                }
                if i < c {
                    assert(!s[i as int].workspace);
                }
            }
            return Some(i);
        }
        i = i + 1;
    }
    None
}

/// The change the install makes to a keymap with these entries: our missing
/// keys go into the first Workspace entry's bindings (all of ours when it has
/// none); without a Workspace entry, one is appended.
pub fn keymap_install(entries: &Vec<KeymapEntry>) -> (r: KeymapInstall)
    ensures
        match first_workspace(entries@) {
            None => r is AppendEntry,
            Some(i) => match entries@[i].binding_keys {
                None => r matches KeymapInstall::SetBindings { entry } && entry == i,
                Some(present) => r matches KeymapInstall::AddMissing { entry, keys } && entry == i
                    && str_views(keys@) == missing_keys(str_views(present@)),
            },
        },
{
    let i = match first_workspace_index(entries) {
        Some(i) => i,
        None => {
            return KeymapInstall::AppendEntry;
        },
    };
    match &entries[i].binding_keys {
        None => KeymapInstall::SetBindings { entry: i },
        Some(present) => {
            let ours = ios_runner_binding_keys();
            let ghost pv = str_views(present@);
            let ghost ov = ours@.map_values(|k: &'static str| k@);
            let mut keys: Vec<String> = Vec::new();
            let mut k: usize = 0;
            proof {
                reveal(Seq::filter);
            }
            assert(ov.subrange(0, 0).filter(|x: Seq<char>| !pv.contains(x)) =~= Seq::<
                Seq<char>,
            >::empty());
            while k < ours.len()
                invariant
                    ov == ours@.map_values(|k: &'static str| k@),
                    ov == binding_keys(),
                    pv == str_views(present@),
                    k <= ours@.len(),
                    str_views(keys@) == ov.subrange(0, k as int).filter(
                        |x: Seq<char>| !pv.contains(x),
                    ),
                decreases ours@.len() - k,
            {
                let ghost pre = ov.subrange(0, k as int);
                let ghost next = ov.subrange(0, k + 1);
                assert(next.drop_last() =~= pre);
                assert(next.last() == ov[k as int]);
                proof {
                    reveal(Seq::filter);
                }
                assert(ov[k as int] == ours@[k as int]@);
                if !contains_key(present, ours[k]) {
                    let ghost before = str_views(keys@);
                    keys.push(owned(ours[k]));
                    assert(str_views(keys@) =~= before.push(ov[k as int]));
                }
                k = k + 1;
            }
            assert(ov.subrange(0, ov.len() as int) =~= ov);
            KeymapInstall::AddMissing { entry: i, keys }
        },
    }
}

/// The uninstall removes every binding that the install adds: each uses one
/// of our keys and spawns an iOS-Runner task.
pub proof fn law_uninstall_removes_installed_bindings(i: int, lang: Lang)
    requires
        0 <= i < default_bindings(lang).len(),
    ensures
        binding_keys().contains(default_bindings(lang)[i].0),
        has_prefix(default_bindings(lang)[i].1, "iOS-Runner:"@),
{
    let t = task_table();
    crate::tasks::law_task_labels_carry_prefix(t[1], lang);
    crate::tasks::law_task_labels_carry_prefix(t[2], lang);
    crate::tasks::law_task_labels_carry_prefix(t[3], lang);
    crate::tasks::law_task_labels_carry_prefix(t[4], lang);
    assert(crate::tasks::TASK_LABEL_PREFIX@ == "iOS-Runner:"@);
    assert(binding_keys()[i] == default_bindings(lang)[i].0);
}

/// The install adds exactly our keys that the Workspace bindings lack: none
/// already there, and afterwards every one of ours is there.
pub proof fn law_install_adds_only_missing_keys(present: Seq<Seq<char>>)
    ensures
        forall|k: Seq<char>| #[trigger] missing_keys(present).contains(k) ==> !present.contains(k)
            && binding_keys().contains(k),
        forall|k: Seq<char>|
            #[trigger] binding_keys().contains(k) ==> present.contains(k) || missing_keys(
                present,
            ).contains(k),
{
    let ks = binding_keys();
    let pred = |k: Seq<char>| !present.contains(k);
    assert forall|k: Seq<char>| #[trigger] missing_keys(present).contains(k) implies !present.contains(k)
        && binding_keys().contains(k) by {
        ks.filter_lemma(pred);
        ks.lemma_filter_contains_rev(pred, k);
        let i = choose|i: int| 0 <= i < ks.filter(pred).len() && ks.filter(pred)[i] == k;
        assert(pred(ks.filter(pred)[i]));
    }
    assert forall|k: Seq<char>| #[trigger] binding_keys().contains(k) implies present.contains(k)
        || missing_keys(present).contains(k) by {
        if !present.contains(k) {
            ks.filter_lemma(pred);
            let i = choose|i: int| 0 <= i < ks.len() && ks[i] == k;
            assert(pred(ks[i]));
        }
    }
}

} // verus!
