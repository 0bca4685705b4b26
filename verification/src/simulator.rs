//! iOS simulators as `xcrun simctl list devices available -j` reports them.
use vstd::prelude::*;

use crate::text::{
    chars_of, contains_lit, contains_sub, eq, has_prefix, push_lit, seq_lt, starts_with_lit,
    string_of,
};

verus! {

#[derive(Debug, Clone)]
pub struct Simulator {
    pub name: String,
    pub udid: String,
    pub runtime: String,
}

pub struct SimulatorView {
    pub name: Seq<char>,
    pub udid: Seq<char>,
    pub runtime: Seq<char>,
}

impl View for Simulator {
    type V = SimulatorView;

    open spec fn view(&self) -> SimulatorView {
        SimulatorView { name: self.name@, udid: self.udid@, runtime: self.runtime@ }
    }
}

pub open spec fn sim_views(v: Seq<Simulator>) -> Seq<SimulatorView> {
    v.map_values(|s: Simulator| s@)
}

/// One device entry of the `simctl` listing.
#[derive(Debug, Clone)]
pub struct SimDevice {
    pub name: String,
    pub udid: String,
    pub is_available: Option<bool>,
}

/// The devices `simctl` lists under one runtime identifier.
#[derive(Debug, Clone)]
pub struct RuntimeDevices {
    pub runtime: String,
    pub devices: Vec<SimDevice>,
}

/// An iPhone or iPad of an iOS runtime that `simctl` does not mark unavailable.
pub open spec fn listed_simulator(runtime: Seq<char>, d: SimDevice) -> bool {
    &&& contains_sub(runtime, "iOS"@)
    &&& d.is_available != Some(false)
    &&& (has_prefix(d.name@, "iPhone"@) || has_prefix(d.name@, "iPad"@))
}

pub open spec fn sims_of_runtime(runtime: Seq<char>, devices: Seq<SimDevice>) -> Seq<SimulatorView>
    decreases devices.len(),
{
    if devices.len() == 0 {
        Seq::empty()
    } else {
        let rest = sims_of_runtime(runtime, devices.drop_last());
        let d = devices.last();
        if listed_simulator(runtime, d) {
            rest.push(SimulatorView { name: d.name@, udid: d.udid@, runtime })
        } else {
            rest
        }
    }
}

/// The simulators of the listing, in listing order.
pub open spec fn listed_sims(listing: Seq<RuntimeDevices>) -> Seq<SimulatorView>
    decreases listing.len(),
{
    if listing.len() == 0 {
        Seq::empty()
    } else {
        listed_sims(listing.drop_last()) + sims_of_runtime(
            listing.last().runtime@,
            listing.last().devices@,
        )
    }
}

/// `a` does not sort after `b`: newest runtime (greatest identifier) first, then by name.
pub open spec fn sim_le(a: SimulatorView, b: SimulatorView) -> bool {
    seq_lt(b.runtime, a.runtime) || (a.runtime == b.runtime && !seq_lt(b.name, a.name))
}

pub open spec fn insert_sim(s: Seq<SimulatorView>, x: SimulatorView) -> Seq<SimulatorView>
    decreases s.len(),
{
    if s.len() == 0 {
        seq![x]
    } else if sim_le(s.last(), x) {
        s.push(x)
    } else {
        insert_sim(s.drop_last(), x).push(s.last())
    }
}

/// The stable sort of `s`, newest runtime first, then by name.
pub open spec fn sort_sims(s: Seq<SimulatorView>) -> Seq<SimulatorView>
    decreases s.len(),
{
    if s.len() == 0 {
        s
    } else {
        insert_sim(sort_sims(s.drop_last()), s.last())
    }
}

proof fn lemma_insert_sim_at(s: Seq<SimulatorView>, x: SimulatorView, j: int)
    requires
        0 <= j <= s.len(),
        forall|k: int| j <= k < s.len() ==> !sim_le(s[k], x),
        j > 0 ==> sim_le(s[j - 1], x),
    ensures
        insert_sim(s, x) == s.subrange(0, j).push(x) + s.subrange(j, s.len() as int),
    decreases s.len(),
{
    if s.len() == 0 {
        assert(s.subrange(0, j).push(x) + s.subrange(j, s.len() as int) =~= seq![x]);
    } else if j == s.len() {
        assert(s.subrange(0, j) =~= s);
        assert(s.push(x) + s.subrange(j, s.len() as int) =~= s.push(x));
    } else {
        let t = s.drop_last();
        assert(forall|k: int| j <= k < t.len() ==> t[k] == s[k]);
        lemma_insert_sim_at(t, x, j);
        assert(t.subrange(0, j) =~= s.subrange(0, j));
        assert((t.subrange(0, j).push(x) + t.subrange(j, t.len() as int)).push(s.last())
            =~= s.subrange(0, j).push(x) + s.subrange(j, s.len() as int));
    }
}

fn sim_le_exec(a: &Simulator, b: &Simulator) -> (r: bool)
    ensures
        r == sim_le(a@, b@),
{
    let ar = chars_of(a.runtime.as_str());
    let br = chars_of(b.runtime.as_str());
    crate::text::lt(br.as_slice(), ar.as_slice()) || (eq(ar.as_slice(), br.as_slice())
        && !crate::text::lt(
        chars_of(b.name.as_str()).as_slice(),
        chars_of(a.name.as_str()).as_slice(),
    ))
}

fn is_listed(runtime: &[char], d: &SimDevice) -> (b: bool)
    ensures
        b == listed_simulator(runtime@, *d),
{
    let name = chars_of(d.name.as_str());
    let unavailable = match d.is_available {
        Some(v) => !v,
        None => false,
    };
    contains_lit(runtime, "iOS") && !unavailable && (starts_with_lit(name.as_slice(), "iPhone")
        || starts_with_lit(name.as_slice(), "iPad"))
}

/// Available iOS simulators (iPhone / iPad), newest runtimes first.
pub fn simulators_from_listing(listing: &Vec<RuntimeDevices>) -> (r: Vec<Simulator>)
    ensures
        sim_views(r@) == sort_sims(listed_sims(listing@)),
{
    let ghost all = listed_sims(listing@);
    let mut sims: Vec<Simulator> = Vec::new();
    let mut i: usize = 0;
    assert(listing@.subrange(0, 0).len() == 0);
    while i < listing.len()
        invariant
            i <= listing@.len(),
            sim_views(sims@) == listed_sims(listing@.subrange(0, i as int)),
        decreases listing@.len() - i,
    {
        let entry = &listing[i];
        let rt = chars_of(entry.runtime.as_str());
        let ghost before = sim_views(sims@);
        let mut j: usize = 0;
        assert(entry.devices@.subrange(0, 0).len() == 0);
        assert(before + sims_of_runtime(entry.runtime@, entry.devices@.subrange(0, 0)) =~= before);
        while j < entry.devices.len()
            invariant
                j <= entry.devices@.len(),
                rt@ == entry.runtime@,
                sim_views(sims@) == before + sims_of_runtime(
                    entry.runtime@,
                    entry.devices@.subrange(0, j as int),
                ),
            decreases entry.devices@.len() - j,
        {
            let d = &entry.devices[j];
            let ghost ds = entry.devices@.subrange(0, j + 1);
            assert(ds.drop_last() =~= entry.devices@.subrange(0, j as int));
            assert(ds.last() == *d);
            let ghost prev = sims_of_runtime(entry.runtime@, entry.devices@.subrange(0, j as int));
            assert(ds.len() > 0);
            if is_listed(rt.as_slice(), d) {
                assert(sims_of_runtime(entry.runtime@, ds) == prev.push(
                    SimulatorView { name: d.name@, udid: d.udid@, runtime: entry.runtime@ },
                ));
                let sim = Simulator {
                    name: d.name.clone(),
                    udid: d.udid.clone(),
                    runtime: entry.runtime.clone(),
                };
                assert(sim@ == SimulatorView { name: d.name@, udid: d.udid@, runtime: entry.runtime@ });
                let ghost old_views = sim_views(sims@);
                sims.push(sim);
                assert(sim_views(sims@) =~= old_views.push(sim@));
            } else {
                assert(sims_of_runtime(entry.runtime@, ds) == prev);
            }
            assert(sim_views(sims@) =~= before + sims_of_runtime(entry.runtime@, ds));
            j = j + 1;
        }
        assert(entry.devices@.subrange(0, entry.devices@.len() as int) =~= entry.devices@);
        assert(listing@.subrange(0, i + 1).drop_last() =~= listing@.subrange(0, i as int));
        assert(listing@.subrange(0, i + 1).last() == listing@[i as int]);
        i = i + 1;
    }
    assert(listing@.subrange(0, listing@.len() as int) =~= listing@);
    sort_simulators(sims)
}

/// Sorts newest runtime first, then by name; stable.
pub fn sort_simulators(v: Vec<Simulator>) -> (r: Vec<Simulator>)
    ensures
        sim_views(r@) == sort_sims(sim_views(v@)),
{
    let ghost input = sim_views(v@);
    let mut out: Vec<Simulator> = Vec::new();
    let mut rest = v;
    let mut items: Vec<Simulator> = Vec::new();
    while rest.len() > 0
        invariant
            sim_views(items@) + sim_views(rest@).reverse() == input.reverse(),
        decreases rest@.len(),
    {
        let x = rest.pop().unwrap();
        items.push(x);
        assert(sim_views(items@) + sim_views(rest@).reverse() =~= input.reverse());
    }
    assert(sim_views(items@) =~= input.reverse());
    let ghost mut k: int = 0;
    while items.len() > 0
        invariant
            0 <= k <= input.len(),
            sim_views(items@) == input.subrange(k, input.len() as int).reverse(),
            sim_views(out@) == sort_sims(input.subrange(0, k)),
        decreases items@.len(),
    {
        let ghost items_before = sim_views(items@);
        let x = items.pop().unwrap();
        proof {
            assert(input.subrange(k, input.len() as int).reverse().last() == input[k]);
            assert(sim_views(items@) =~= items_before.drop_last());
            assert(input.subrange(k, input.len() as int).reverse().drop_last()
                =~= input.subrange(k + 1, input.len() as int).reverse());
        }
        let mut j = out.len();
        while j > 0 && !sim_le_exec(&out[j - 1], &x)
            invariant
                j <= out@.len(),
                forall|m: int| j <= m < out@.len() ==> !sim_le(sim_views(out@)[m], x@),
            decreases j,
        {
            j = j - 1;
        }
        let ghost before = sim_views(out@);
        proof {
            lemma_insert_sim_at(before, x@, j as int);
            assert(input.subrange(0, k + 1).drop_last() =~= input.subrange(0, k));
            assert(input.subrange(0, k + 1).last() == input[k]);
        }
        out.insert(j, x);
        assert(sim_views(out@) =~= before.subrange(0, j as int).push(x@) + before.subrange(
            j as int,
            before.len() as int,
        ));
        proof {
            k = k + 1;
        }
    }
    assert(input.subrange(0, input.len() as int) =~= input);
    out
}

proof fn lemma_insert_sim_contains(s: Seq<SimulatorView>, x: SimulatorView, y: SimulatorView)
    ensures
        insert_sim(s, x).contains(y) <==> (s.contains(y) || y == x),
    decreases s.len(),
{
    if s.len() == 0 {
        assert(insert_sim(s, x) =~= seq![x]);
        assert(insert_sim(s, x)[0] == x);
    } else if sim_le(s.last(), x) {
        let r = s.push(x);
        if s.contains(y) {
            let i = choose|i: int| 0 <= i < s.len() && s[i] == y;
            assert(r[i] == y);
        }
        if y == x {
            assert(r[s.len() as int] == y);
        }
        if r.contains(y) {
            let i = choose|i: int| 0 <= i < r.len() && r[i] == y;
            if i < s.len() {
                assert(s[i] == y);
            }
        }
    } else {
        let t = s.drop_last();
        lemma_insert_sim_contains(t, x, y);
        let u = insert_sim(t, x);
        let r = u.push(s.last());
        if s.contains(y) {
            let i = choose|i: int| 0 <= i < s.len() && s[i] == y;
            if i < t.len() {
                assert(t[i] == y);
                let k = choose|k: int| 0 <= k < u.len() && u[k] == y;
                assert(r[k] == y);
            } else {
                assert(r[u.len() as int] == y);
            }
        }
        if y == x {
            let k = choose|k: int| 0 <= k < u.len() && u[k] == y;
            assert(r[k] == y);
        }
        if r.contains(y) {
            let i = choose|i: int| 0 <= i < r.len() && r[i] == y;
            if i < u.len() {
                assert(u[i] == y);
                if t.contains(y) {
                    let k = choose|k: int| 0 <= k < t.len() && t[k] == y;
                    assert(s[k] == y);
                }
            } else {
                assert(s[s.len() - 1] == y);
            }
        }
    }
}

proof fn lemma_sort_sims_contains(s: Seq<SimulatorView>, y: SimulatorView)
    ensures
        sort_sims(s).contains(y) <==> s.contains(y),
    decreases s.len(),
{
    if s.len() > 0 {
        let t = s.drop_last();
        lemma_sort_sims_contains(t, y);
        lemma_insert_sim_contains(sort_sims(t), s.last(), y);
        if s.contains(y) {
            let i = choose|i: int| 0 <= i < s.len() && s[i] == y;
            if i < t.len() {
                assert(t[i] == y);
            }
        }
        if t.contains(y) {
            let i = choose|i: int| 0 <= i < t.len() && t[i] == y;
            assert(s[i] == y);
        }
        if y == s.last() {
            assert(s[s.len() - 1] == y);
        }
    }
}

/// The simulator entry of a device of a runtime.
pub open spec fn device_view(runtime: Seq<char>, d: SimDevice) -> SimulatorView {
    SimulatorView { name: d.name@, udid: d.udid@, runtime }
}

proof fn lemma_runtime_contains(runtime: Seq<char>, devices: Seq<SimDevice>, y: SimulatorView)
    ensures
        sims_of_runtime(runtime, devices).contains(y) <==> exists|j: int|
            0 <= j < devices.len() && listed_simulator(runtime, #[trigger] devices[j]) && y
                == device_view(runtime, devices[j]),
    decreases devices.len(),
{
    if devices.len() > 0 {
        let t = devices.drop_last();
        lemma_runtime_contains(runtime, t, y);
        let rest = sims_of_runtime(runtime, t);
        let d = devices.last();
        if exists|j: int|
            0 <= j < devices.len() && listed_simulator(runtime, #[trigger] devices[j]) && y
                == device_view(runtime, devices[j]) {
            let j = choose|j: int|
                0 <= j < devices.len() && listed_simulator(runtime, #[trigger] devices[j]) && y
                    == device_view(runtime, devices[j]);
            if j < t.len() {
                assert(t[j] == devices[j]);
                let k = choose|k: int| 0 <= k < rest.len() && rest[k] == y;
                if listed_simulator(runtime, d) {
                    assert(rest.push(device_view(runtime, d))[k] == y);
                }
            } else {
                assert(devices[j] == d);
                assert(rest.push(device_view(runtime, d))[rest.len() as int] == y);
            }
        }
        if sims_of_runtime(runtime, devices).contains(y) {
            if listed_simulator(runtime, d) {
                let r = rest.push(device_view(runtime, d));
                let k = choose|k: int| 0 <= k < r.len() && r[k] == y;
                if k < rest.len() {
                    assert(rest[k] == y);
                    let j = choose|j: int|
                        0 <= j < t.len() && listed_simulator(runtime, #[trigger] t[j]) && y
                            == device_view(runtime, t[j]);
                    assert(devices[j] == t[j]);
                } else {
                    assert(devices[devices.len() - 1] == d);
                }
            } else {
                let j = choose|j: int|
                    0 <= j < t.len() && listed_simulator(runtime, #[trigger] t[j]) && y
                        == device_view(runtime, t[j]);
                assert(devices[j] == t[j]);
            }
        }
    }
}

proof fn lemma_listing_contains(listing: Seq<RuntimeDevices>, y: SimulatorView)
    ensures
        listed_sims(listing).contains(y) <==> exists|i: int|
            0 <= i < listing.len() && sims_of_runtime(
                (#[trigger] listing[i]).runtime@,
                listing[i].devices@,
            ).contains(y),
    decreases listing.len(),
{
    if listing.len() > 0 {
        let t = listing.drop_last();
        lemma_listing_contains(t, y);
        let a = listed_sims(t);
        let last = listing.last();
        let b = sims_of_runtime(last.runtime@, last.devices@);
        if exists|i: int|
            0 <= i < listing.len() && sims_of_runtime(
                (#[trigger] listing[i]).runtime@,
                listing[i].devices@,
            ).contains(y) {
            let i = choose|i: int|
                0 <= i < listing.len() && sims_of_runtime(
                    (#[trigger] listing[i]).runtime@,
                    listing[i].devices@,
                ).contains(y);
            if i < t.len() {
                assert(t[i] == listing[i]);
                let k = choose|k: int| 0 <= k < a.len() && a[k] == y;
                assert((a + b)[k] == y);
            } else {
                let k = choose|k: int| 0 <= k < b.len() && b[k] == y;
                assert((a + b)[a.len() + k] == y);
            }
        }
        if (a + b).contains(y) {
            let k = choose|k: int| 0 <= k < (a + b).len() && (a + b)[k] == y;
            if k < a.len() {
                assert(a[k] == y);
                let i = choose|i: int|
                    0 <= i < t.len() && sims_of_runtime(
                        (#[trigger] t[i]).runtime@,
                        t[i].devices@,
                    ).contains(y);
                assert(listing[i] == t[i]);
            } else {
                assert(b[k - a.len()] == y);
                assert(listing[listing.len() - 1] == last);
            }
        }
    }
}

/// The simulator list holds exactly the iPhone and iPad devices of iOS
/// runtimes that `simctl` does not mark unavailable, each with its name,
/// UDID and runtime.
pub proof fn law_listed_simulators(listing: Seq<RuntimeDevices>, y: SimulatorView)
    ensures
        sort_sims(listed_sims(listing)).contains(y) <==> exists|i: int, j: int|
            0 <= i < listing.len() && 0 <= j < listing[i].devices@.len() && contains_sub(
                (#[trigger] listing[i]).runtime@,
                "iOS"@,
            ) && (#[trigger] listing[i].devices@[j]).is_available != Some(false) && (has_prefix(
                listing[i].devices@[j].name@,
                "iPhone"@,
            ) || has_prefix(listing[i].devices@[j].name@, "iPad"@)) && y == (SimulatorView {
                name: listing[i].devices@[j].name@,
                udid: listing[i].devices@[j].udid@,
                runtime: listing[i].runtime@,
            }),
{
    lemma_sort_sims_contains(listed_sims(listing), y);
    lemma_listing_contains(listing, y);
    if listed_sims(listing).contains(y) {
        let i = choose|i: int|
            0 <= i < listing.len() && sims_of_runtime(
                (#[trigger] listing[i]).runtime@,
                listing[i].devices@,
            ).contains(y);
        lemma_runtime_contains(listing[i].runtime@, listing[i].devices@, y);
        let ds = listing[i].devices@;
        let j = choose|j: int|
            0 <= j < ds.len() && listed_simulator(listing[i].runtime@, #[trigger] ds[j]) && y
                == device_view(listing[i].runtime@, ds[j]);
        assert(listing[i].devices@[j] == ds[j]);
    }
    if exists|i: int, j: int|
        0 <= i < listing.len() && 0 <= j < listing[i].devices@.len() && contains_sub(
            (#[trigger] listing[i]).runtime@,
            "iOS"@,
        ) && (#[trigger] listing[i].devices@[j]).is_available != Some(false) && (has_prefix(
            listing[i].devices@[j].name@,
            "iPhone"@,
        ) || has_prefix(listing[i].devices@[j].name@, "iPad"@)) && y == (SimulatorView {
            name: listing[i].devices@[j].name@,
            udid: listing[i].devices@[j].udid@,
            runtime: listing[i].runtime@,
        }) {
        let (i, j) = choose|i: int, j: int|
            0 <= i < listing.len() && 0 <= j < listing[i].devices@.len() && contains_sub(
                (#[trigger] listing[i]).runtime@,
                "iOS"@,
            ) && (#[trigger] listing[i].devices@[j]).is_available != Some(false) && (has_prefix(
                listing[i].devices@[j].name@,
                "iPhone"@,
            ) || has_prefix(listing[i].devices@[j].name@, "iPad"@)) && y == (SimulatorView {
                name: listing[i].devices@[j].name@,
                udid: listing[i].devices@[j].udid@,
                runtime: listing[i].runtime@,
            });
        lemma_runtime_contains(listing[i].runtime@, listing[i].devices@, y);
        assert(listed_simulator(listing[i].runtime@, listing[i].devices@[j]));
    }
}

pub open spec fn sorted_sims(s: Seq<SimulatorView>) -> bool {
    forall|i: int| 0 <= i < s.len() - 1 ==> sim_le(#[trigger] s[i], s[i + 1])
}

proof fn lemma_sim_le_total(a: SimulatorView, b: SimulatorView)
    ensures
        sim_le(a, b) || sim_le(b, a),
{
    crate::destination::lemma_seq_lt_asym(a.name, b.name);
    crate::destination::lemma_seq_lt_asym(a.runtime, b.runtime);
    lemma_seq_lt_total(a.runtime, b.runtime);
}

proof fn lemma_seq_lt_total(a: Seq<char>, b: Seq<char>)
    ensures
        a == b || seq_lt(a, b) || seq_lt(b, a),
    decreases a.len(),
{
    if a.len() > 0 && b.len() > 0 && a[0] == b[0] {
        let a1 = a.subrange(1, a.len() as int);
        let b1 = b.subrange(1, b.len() as int);
        lemma_seq_lt_total(a1, b1);
        if a1 == b1 {
            assert(a =~= seq![a[0]] + a1);
            assert(b =~= seq![b[0]] + b1);
        }
    } else if a.len() == 0 && b.len() == 0 {
        assert(a =~= b);
    } else if a.len() > 0 && b.len() > 0 {
        let x = a[0];
        let y = b[0];
        vstd::utf8::char_u32_cast(x, x as u32);
        vstd::utf8::char_u32_cast(y, y as u32);
        assert((x as u32) != (y as u32));
    }
}

proof fn lemma_insert_sim_keeps_order(s: Seq<SimulatorView>, x: SimulatorView)
    requires
        sorted_sims(s),
    ensures
        sorted_sims(insert_sim(s, x)),
        insert_sim(s, x).last() == x || (s.len() > 0 && insert_sim(s, x).last() == s.last()),
        insert_sim(s, x).len() == s.len() + 1,
    decreases s.len(),
{
    if s.len() == 0 {
    } else if sim_le(s.last(), x) {
        let r = s.push(x);
        assert forall|i: int| 0 <= i < r.len() - 1 implies sim_le(#[trigger] r[i], r[i + 1]) by {
            if i < s.len() - 1 {
                assert(r[i] == s[i] && r[i + 1] == s[i + 1]);
            }
        }
    } else {
        let t = s.drop_last();
        assert(sorted_sims(t)) by {
            assert forall|i: int| 0 <= i < t.len() - 1 implies sim_le(#[trigger] t[i], t[i + 1]) by {
                assert(t[i] == s[i] && t[i + 1] == s[i + 1]);
            }
        }
        lemma_insert_sim_keeps_order(t, x);
        let u = insert_sim(t, x);
        let r = u.push(s.last());
        lemma_sim_le_total(s.last(), x);
        if t.len() > 0 {
            assert(s[t.len() - 1] == t.last());
            assert(sim_le(s[t.len() - 1], s[t.len() as int]));
        }
        assert(sim_le(u.last(), s.last()));
        assert forall|i: int| 0 <= i < r.len() - 1 implies sim_le(#[trigger] r[i], r[i + 1]) by {
            if i < u.len() - 1 {
                assert(r[i] == u[i] && r[i + 1] == u[i + 1]);
            } else {
                assert(r[i] == u.last() && r[i + 1] == s.last());
            }
        }
    }
}

proof fn lemma_sort_sims_sorted(s: Seq<SimulatorView>)
    ensures
        sorted_sims(sort_sims(s)),
        sort_sims(s).len() == s.len(),
    decreases s.len(),
{
    if s.len() > 0 {
        lemma_sort_sims_sorted(s.drop_last());
        lemma_insert_sim_keeps_order(sort_sims(s.drop_last()), s.last());
    }
}

/// The simulators come out newest runtime first (a later runtime identifier
/// never follows an earlier one), and by name within a runtime; none is lost
/// or added.
pub proof fn law_simulators_sorted(s: Seq<SimulatorView>)
    ensures
        sort_sims(s).len() == s.len(),
        forall|y: SimulatorView| #[trigger] sort_sims(s).contains(y) <==> s.contains(y),
        forall|i: int|
            0 <= i < sort_sims(s).len() - 1 ==> !seq_lt(
                (#[trigger] sort_sims(s)[i]).runtime,
                sort_sims(s)[i + 1].runtime,
            ) && (sort_sims(s)[i].runtime == sort_sims(s)[i + 1].runtime ==> !seq_lt(
                sort_sims(s)[i + 1].name,
                sort_sims(s)[i].name,
            )),
{
    lemma_sort_sims_sorted(s);
    assert forall|y: SimulatorView| #[trigger] sort_sims(s).contains(y) <==> s.contains(y) by {
        lemma_sort_sims_contains(s, y);
    }
    let r = sort_sims(s);
    assert forall|i: int| 0 <= i < r.len() - 1 implies !seq_lt((#[trigger] r[i]).runtime, r[i + 1].runtime)
        && (r[i].runtime == r[i + 1].runtime ==> !seq_lt(r[i + 1].name, r[i].name)) by {
        assert(sim_le(r[i], r[i + 1]));
        crate::destination::lemma_seq_lt_asym(r[i].runtime, r[i + 1].runtime);
        if r[i].runtime == r[i + 1].runtime {
            crate::destination::lemma_seq_lt_asym(r[i].runtime, r[i].runtime);
        }
    }
}

/// The `-destination` string that names a simulator.
pub fn destination_for_simulator(sim: &Simulator) -> (s: String)
    ensures
        s@ == "platform=iOS Simulator,name="@ + sim.name@,
{
    let mut r: Vec<char> = Vec::new();
    push_lit(&mut r, "platform=iOS Simulator,name=");
    push_lit(&mut r, sim.name.as_str());
    string_of(r.as_slice())
}

/// No listed simulator has the requested name.
#[derive(Debug, Clone)]
pub struct SimulatorNotFound {
    pub name: String,
}

impl SimulatorNotFound {
    pub fn message(&self) -> (s: String)
        ensures
            s@ == "simulator not found for name="@ + self.name@,
    {
        let mut r: Vec<char> = Vec::new();
        push_lit(&mut r, "simulator not found for name=");
        push_lit(&mut r, self.name.as_str());
        string_of(r.as_slice())
    }
}

pub open spec fn first_named(s: Seq<SimulatorView>, name: Seq<char>) -> Option<int> {
    if exists|i: int| 0 <= i < s.len() && s[i].name == name {
        Some(choose|i: int| 0 <= i < s.len() && s[i].name == name && forall|j: int| 0 <= j < i ==> s[j].name != name)
    } else {
        None
    }
}

/// The UDID of the first listed simulator called `name`.
pub fn udid_for_destination_name(sims: &Vec<Simulator>, name: &str) -> (r: Result<String, SimulatorNotFound>)
    ensures
        match r {
            Ok(u) => first_named(sim_views(sims@), name@) matches Some(i) && u@ == sim_views(sims@)[i].udid,
            Err(e) => first_named(sim_views(sims@), name@) is None && e.name@ == name@,
        },
{
    let ghost s = sim_views(sims@);
    let n = chars_of(name);
    let mut i: usize = 0;
    while i < sims.len()
        invariant
            s == sim_views(sims@),
            n@ == name@,
            i <= sims@.len(),
            forall|k: int| 0 <= k < i ==> s[k].name != name@,
        decreases sims@.len() - i,
    {
        if eq(chars_of(sims[i].name.as_str()).as_slice(), n.as_slice()) {
            let ghost w = i as int;
            assert(0 <= w < s.len() && s[w].name == name@ && forall|j: int| 0 <= j < w ==> s[j].name != name@);
            let ghost c = choose|k: int| 0 <= k < s.len() && s[k].name == name@ && forall|j: int| 0 <= j < k ==> s[j].name != name@;
            assert(c == w) by {
                if c < w {
                    assert(s[c].name != name@);
                }
                if w < c {
                    assert(s[w].name != name@);
                }
            }
            return Ok(sims[i].udid.clone());
        }
        i = i + 1;
    }
    Err(SimulatorNotFound { name: string_of(n.as_slice()) })
}

} // verus!
