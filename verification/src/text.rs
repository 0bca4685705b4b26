//! Character-level text primitives shared by every parser of the library.
//!
//! Strings are modelled by their view, a `Seq<char>`. The spec functions here
//! say what `str::trim`, `str::split`, `str::split_once`, `str::contains`,
//! `str::starts_with` and friends compute; the executable functions compute
//! the same on a `Vec<char>` copy of the text.
use vstd::prelude::*;
use vstd::std_specs::iter::IteratorSpec;

verus! {

/// Unicode `White_Space`, the set that `char::is_whitespace` (and so `str::trim`) uses.
pub open spec fn is_ws(c: char) -> bool {
    let u = c as u32;
    ||| u == 0x20
    ||| (0x09 <= u && u <= 0x0d)
    ||| u == 0x85
    ||| u == 0xa0
    ||| u == 0x1680
    ||| (0x2000 <= u && u <= 0x200a)
    ||| u == 0x2028
    ||| u == 0x2029
    ||| u == 0x202f
    ||| u == 0x205f
    ||| u == 0x3000
}

pub open spec fn trim_start(s: Seq<char>) -> Seq<char>
    decreases s.len(),
{
    if s.len() > 0 && is_ws(s[0]) {
        trim_start(s.subrange(1, s.len() as int))
    } else {
        s
    }
}

pub open spec fn trim_end(s: Seq<char>) -> Seq<char>
    decreases s.len(),
{
    if s.len() > 0 && is_ws(s.last()) {
        trim_end(s.drop_last())
    } else {
        s
    }
}

/// What `str::trim` returns.
pub open spec fn trimmed(s: Seq<char>) -> Seq<char> {
    trim_end(trim_start(s))
}

pub open spec fn has_prefix(s: Seq<char>, p: Seq<char>) -> bool {
    p.len() <= s.len() && s.subrange(0, p.len() as int) == p
}

pub open spec fn has_suffix(s: Seq<char>, p: Seq<char>) -> bool {
    p.len() <= s.len() && s.subrange(s.len() - p.len(), s.len() as int) == p
}

pub open spec fn occurs_at(s: Seq<char>, p: Seq<char>, i: int) -> bool {
    0 <= i && i + p.len() <= s.len() && s.subrange(i, i + p.len()) == p
}

/// What `str::contains` with a string pattern returns.
pub open spec fn contains_sub(s: Seq<char>, p: Seq<char>) -> bool {
    exists|i: int| occurs_at(s, p, i)
}

pub open spec fn has_char(s: Seq<char>, c: char) -> bool {
    exists|i: int| 0 <= i < s.len() && s[i] == c
}

pub open spec fn is_first_index(s: Seq<char>, c: char, i: int) -> bool {
    &&& 0 <= i < s.len()
    &&& s[i] == c
    &&& forall|j: int| 0 <= j < i ==> s[j] != c
}

pub open spec fn is_last_index(s: Seq<char>, c: char, i: int) -> bool {
    &&& 0 <= i < s.len()
    &&& s[i] == c
    &&& forall|j: int| i < j < s.len() ==> s[j] != c
}

/// What `str::find` with a `char` pattern returns, counted in chars.
pub open spec fn find_char(s: Seq<char>, c: char) -> Option<int> {
    if has_char(s, c) {
        Some(choose|i: int| is_first_index(s, c, i))
    } else {
        None
    }
}

/// What `str::rfind` with a `char` pattern returns, counted in chars.
pub open spec fn rfind_char(s: Seq<char>, c: char) -> Option<int> {
    if has_char(s, c) {
        Some(choose|i: int| is_last_index(s, c, i))
    } else {
        None
    }
}

/// What `str::split_once` with a `char` pattern returns.
pub open spec fn split_once_seq(s: Seq<char>, c: char) -> Option<(Seq<char>, Seq<char>)> {
    match find_char(s, c) {
        Some(i) => Some((s.subrange(0, i), s.subrange(i + 1, s.len() as int))),
        None => None,
    }
}

/// What `str::strip_prefix` returns.
pub open spec fn strip_prefix(s: Seq<char>, p: Seq<char>) -> Option<Seq<char>> {
    if has_prefix(s, p) {
        Some(s.subrange(p.len() as int, s.len() as int))
    } else {
        None
    }
}

/// The pieces that `str::split` with a `char` pattern yields, in order.
pub open spec fn split_char(s: Seq<char>, c: char) -> Seq<Seq<char>>
    decreases s.len(),
{
    if s.len() == 0 {
        seq![Seq::<char>::empty()]
    } else {
        let rest = split_char(s.drop_last(), c);
        if s.last() == c {
            rest.push(Seq::<char>::empty())
        } else {
            rest.update(rest.len() - 1, rest.last().push(s.last()))
        }
    }
}

/// `char::to_ascii_lowercase`.
pub open spec fn ascii_lower(c: char) -> char {
    if 'A' <= c && c <= 'Z' {
        ((c as u32) + 32) as char
    } else {
        c
    }
}

/// `str::to_ascii_lowercase`.
pub open spec fn ascii_lower_seq(s: Seq<char>) -> Seq<char> {
    Seq::new(s.len(), |i: int| ascii_lower(s[i]))
}

pub proof fn lemma_split_nonempty(s: Seq<char>, c: char)
    ensures
        split_char(s, c).len() >= 1,
    decreases s.len(),
{
    if s.len() > 0 {
        lemma_split_nonempty(s.drop_last(), c);
    }
}

pub proof fn lemma_first_index_unique(s: Seq<char>, c: char, i: int)
    requires
        is_first_index(s, c, i),
    ensures
        find_char(s, c) == Some(i),
{
    assert(has_char(s, c));
    let k = choose|k: int| is_first_index(s, c, k);
    assert(is_first_index(s, c, k));
    if k < i {
        assert(s[k] != c);
    }
    if i < k {
        assert(s[i] != c);
    }
}

pub proof fn lemma_last_index_unique(s: Seq<char>, c: char, i: int)
    requires
        is_last_index(s, c, i),
    ensures
        rfind_char(s, c) == Some(i),
{
    assert(has_char(s, c));
    let k = choose|k: int| is_last_index(s, c, k);
    assert(is_last_index(s, c, k));
    if k < i {
        assert(s[i] != c);
    }
    if i < k {
        assert(s[k] != c);
    }
}

/// Splitting `a`, then `c`, then `b` at `c` gives the pieces of `a`, then those of `b`.
pub proof fn lemma_split_concat(a: Seq<char>, b: Seq<char>, c: char)
    ensures
        split_char(a + seq![c] + b, c) == split_char(a, c) + split_char(b, c),
    decreases b.len(),
{
    let x = a + seq![c] + b;
    lemma_split_nonempty(a, c);
    if b.len() == 0 {
        assert(x.drop_last() =~= a);
        assert(x.last() == c);
        assert(split_char(b, c) =~= seq![Seq::<char>::empty()]);
        assert(split_char(x, c) =~= split_char(a, c) + split_char(b, c));
    } else {
        lemma_split_concat(a, b.drop_last(), c);
        assert(x.drop_last() =~= a + seq![c] + b.drop_last());
        assert(x.last() == b.last());
        lemma_split_nonempty(b.drop_last(), c);
        let sa = split_char(a, c);
        let sb = split_char(b.drop_last(), c);
        if b.last() == c {
            assert(split_char(x, c) =~= sa + split_char(b, c));
        } else {
            let rest = sa + sb;
            assert(rest.last() == sb.last());
            assert(rest.update(rest.len() - 1, rest.last().push(b.last())) =~= sa + sb.update(
                sb.len() - 1,
                sb.last().push(b.last()),
            ));
        }
    }
}

/// Text without `c` is one piece.
pub proof fn lemma_split_without_sep(s: Seq<char>, c: char)
    requires
        !has_char(s, c),
    ensures
        split_char(s, c) == seq![s],
    decreases s.len(),
{
    if s.len() > 0 {
        let t = s.drop_last();
        assert(!has_char(t, c)) by {
            if has_char(t, c) {
                let i = choose|i: int| 0 <= i < t.len() && t[i] == c;
                assert(s[i] == c);
            }
        }
        lemma_split_without_sep(t, c);
        assert(s[s.len() - 1] == s.last());
        assert(t.push(s.last()) =~= s);
        assert(seq![t].update(0, t.push(s.last())) =~= seq![s]);
    } else {
        assert(s =~= Seq::<char>::empty());
    }
}

/// A part of text without `c` has no `c`.
pub proof fn lemma_sub_lacks(s: Seq<char>, i: int, j: int, c: char)
    requires
        !has_char(s, c),
        0 <= i <= j <= s.len(),
    ensures
        !has_char(s.subrange(i, j), c),
{
    if has_char(s.subrange(i, j), c) {
        let k = choose|k: int| 0 <= k < s.subrange(i, j).len() && s.subrange(i, j)[k] == c;
        assert(s[i + k] == c);
    }
}

/// The pieces of a split hold no separator.
pub proof fn lemma_split_pieces_lack_sep(s: Seq<char>, c: char)
    ensures
        forall|i: int|
            0 <= i < split_char(s, c).len() ==> !has_char(#[trigger] split_char(s, c)[i], c),
    decreases s.len(),
{
    if s.len() > 0 {
        lemma_split_pieces_lack_sep(s.drop_last(), c);
        lemma_split_nonempty(s.drop_last(), c);
        let rest = split_char(s.drop_last(), c);
        if s.last() != c {
            let last = rest.last().push(s.last());
            assert(!has_char(last, c)) by {
                assert(!has_char(rest[rest.len() - 1], c));
                if has_char(last, c) {
                    let k = choose|k: int| 0 <= k < last.len() && last[k] == c;
                    if k < last.len() - 1 {
                        assert(rest.last()[k] == c);
                    }
                }
            }
            let r = rest.update(rest.len() - 1, last);
            assert forall|i: int| 0 <= i < r.len() implies !has_char(#[trigger] r[i], c) by {
                if i < rest.len() - 1 {
                    assert(r[i] == rest[i]);
                }
            }
        } else {
            let r = rest.push(Seq::<char>::empty());
            assert forall|i: int| 0 <= i < r.len() implies !has_char(#[trigger] r[i], c) by {
                if i < rest.len() {
                    assert(r[i] == rest[i]);
                }
            }
        }
    }
}

proof fn lemma_trim_start_shape(s: Seq<char>)
    ensures
        trim_start(s).len() <= s.len(),
        trim_start(s) == s.subrange(s.len() - trim_start(s).len(), s.len() as int),
        trim_start(s).len() == 0 || !is_ws(trim_start(s)[0]),
    decreases s.len(),
{
    if s.len() > 0 && is_ws(s[0]) {
        lemma_trim_start_shape(s.subrange(1, s.len() as int));
        assert(s.subrange(1, s.len() as int).subrange(
            s.len() - 1 - trim_start(s).len(),
            s.len() - 1,
        ) =~= s.subrange(s.len() - trim_start(s).len(), s.len() as int));
    } else {
        assert(s.subrange(0, s.len() as int) =~= s);
    }
}

proof fn lemma_trim_end_shape(s: Seq<char>)
    ensures
        trim_end(s).len() <= s.len(),
        trim_end(s) == s.subrange(0, trim_end(s).len() as int),
        trim_end(s).len() == 0 || !is_ws(trim_end(s).last()),
        s.len() > 0 && !is_ws(s[0]) ==> trim_end(s).len() > 0,
    decreases s.len(),
{
    if s.len() > 0 && is_ws(s.last()) {
        lemma_trim_end_shape(s.drop_last());
        assert(s.drop_last().subrange(0, trim_end(s).len() as int) =~= s.subrange(
            0,
            trim_end(s).len() as int,
        ));
        if s.len() > 1 && !is_ws(s[0]) {
            assert(s.drop_last()[0] == s[0]);
        }
    } else {
        assert(s.subrange(0, s.len() as int) =~= s);
    }
}

/// Trimming the end of text stops at its last non-whitespace character: text
/// whose first character is not whitespace trims to a prefix that keeps every
/// such character.
pub proof fn lemma_trim_end_keeps(s: Seq<char>, j: int)
    requires
        0 <= j < s.len(),
        !is_ws(s[j]),
    ensures
        j < trim_end(s).len() <= s.len(),
        trim_end(s) == s.subrange(0, trim_end(s).len() as int),
        !is_ws(s[0]) ==> trimmed(s) == trim_end(s),
    decreases s.len(),
{
    lemma_trim_end_shape(s);
    if is_ws(s.last()) {
        assert(j < s.len() - 1);
        assert(s.drop_last()[j] == s[j]);
        lemma_trim_end_keeps(s.drop_last(), j);
    }
}

/// What trimming the end of text removes is whitespace.
pub proof fn lemma_trim_end_tail(s: Seq<char>)
    ensures
        trim_end(s) == s.subrange(0, trim_end(s).len() as int),
        forall|j: int| trim_end(s).len() <= j < s.len() ==> is_ws(#[trigger] s[j]),
    decreases s.len(),
{
    lemma_trim_end_shape(s);
    if s.len() > 0 && is_ws(s.last()) {
        let t = s.drop_last();
        lemma_trim_end_tail(t);
        assert forall|j: int| trim_end(s).len() <= j < s.len() implies is_ws(#[trigger] s[j]) by {
            if j < s.len() - 1 {
                assert(s[j] == t[j]);
            }
        }
    }
}

proof fn lemma_all_ws_trim_start(s: Seq<char>)
    requires
        forall|j: int| 0 <= j < s.len() ==> is_ws(#[trigger] s[j]),
    ensures
        trim_start(s).len() == 0,
    decreases s.len(),
{
    if s.len() > 0 {
        let t = s.subrange(1, s.len() as int);
        assert forall|j: int| 0 <= j < t.len() implies is_ws(#[trigger] t[j]) by {
            assert(t[j] == s[j + 1]);
        }
        lemma_all_ws_trim_start(t);
    }
}

proof fn lemma_trim_end_ws_suffix(x: Seq<char>, w: Seq<char>)
    requires
        forall|j: int| 0 <= j < w.len() ==> is_ws(#[trigger] w[j]),
    ensures
        trim_end(x + w) == trim_end(x),
    decreases w.len(),
{
    if w.len() == 0 {
        assert(x + w =~= x);
    } else {
        let v = w.drop_last();
        assert forall|j: int| 0 <= j < v.len() implies is_ws(#[trigger] v[j]) by {
            assert(v[j] == w[j]);
        }
        assert((x + w).drop_last() =~= x + v);
        assert((x + w).last() == w[w.len() - 1]);
        lemma_trim_end_ws_suffix(x, v);
    }
}

proof fn lemma_trim_start_prefix(s: Seq<char>, w: Seq<char>, i: int)
    requires
        0 <= i < s.len(),
        !is_ws(s[i]),
    ensures
        trim_start(s + w) == trim_start(s) + w,
    decreases s.len(),
{
    if is_ws(s[0]) {
        let t = s.subrange(1, s.len() as int);
        assert(t[i - 1] == s[i]);
        assert((s + w).subrange(1, (s + w).len() as int) =~= t + w);
        assert((s + w)[0] == s[0]);
        lemma_trim_start_prefix(t, w, i - 1);
    } else {
        assert((s + w)[0] == s[0]);
    }
}

/// Whitespace at the end of text does not change its trim.
pub proof fn lemma_trimmed_ws_tail(n: Seq<char>, k: int)
    requires
        0 <= k <= n.len(),
        forall|j: int| k <= j < n.len() ==> is_ws(#[trigger] n[j]),
    ensures
        trimmed(n.subrange(0, k)) == trimmed(n),
{
    let s = n.subrange(0, k);
    let w = n.subrange(k, n.len() as int);
    assert(n =~= s + w);
    assert forall|j: int| 0 <= j < w.len() implies is_ws(#[trigger] w[j]) by {
        assert(w[j] == n[k + j]);
    }
    if exists|i: int| 0 <= i < s.len() && !is_ws(s[i]) {
        let i = choose|i: int| 0 <= i < s.len() && !is_ws(s[i]);
        lemma_trim_start_prefix(s, w, i);
        lemma_trim_end_ws_suffix(trim_start(s), w);
    } else {
        lemma_all_ws_trim_start(s);
        assert forall|j: int| 0 <= j < n.len() implies is_ws(#[trigger] n[j]) by {
            if j < k {
                assert(n[j] == s[j]);
            }
        }
        lemma_all_ws_trim_start(n);
    }
}

/// Text without whitespace at its ends is its own trim.
pub proof fn lemma_trimmed_keeps(s: Seq<char>)
    requires
        s.len() > 0 ==> !is_ws(s[0]) && !is_ws(s.last()),
    ensures
        trimmed(s) == s,
{
}

/// Trimmed text is empty or has no whitespace at its ends.
pub proof fn lemma_trimmed_ends(s: Seq<char>)
    ensures
        trimmed(s).len() == 0 || (!is_ws(trimmed(s)[0]) && !is_ws(trimmed(s).last())),
{
    lemma_trim_start_shape(s);
    let a = trim_start(s);
    lemma_trim_end_shape(a);
    let b = trim_end(a);
    if b.len() > 0 {
        assert(b[0] == a[0]);
    }
}

/// Trimming twice is trimming once.
pub proof fn lemma_trimmed_twice(s: Seq<char>)
    ensures
        trimmed(trimmed(s)) == trimmed(s),
{
    lemma_trim_start_shape(s);
    let a = trim_start(s);
    lemma_trim_end_shape(a);
    let b = trim_end(a);
    if b.len() > 0 {
        assert(b[0] == a[0]);
    }
}

/// Trimmed text without `c` keeps lacking `c`, and text whose first
/// character is not whitespace stays non-empty when trimmed.
pub proof fn lemma_trimmed_part(s: Seq<char>, c: char)
    ensures
        !has_char(s, c) ==> !has_char(trimmed(s), c),
        s.len() > 0 && !is_ws(s[0]) ==> trimmed(s).len() > 0,
{
    lemma_trim_start_shape(s);
    let a = trim_start(s);
    lemma_trim_end_shape(a);
    if !has_char(s, c) {
        lemma_sub_lacks(s, s.len() - a.len(), s.len() as int, c);
        lemma_sub_lacks(a, 0, trim_end(a).len() as int, c);
    }
    if s.len() > 0 && !is_ws(s[0]) {
        assert(a == s);
    }
}

proof fn lemma_has_first_index(s: Seq<char>, c: char, i: int)
    requires
        0 <= i < s.len(),
        s[i] == c,
    ensures
        exists|k: int| is_first_index(s, c, k),
    decreases i,
{
    if exists|j: int| 0 <= j < i && s[j] == c {
        let j = choose|j: int| 0 <= j < i && s[j] == c;
        lemma_has_first_index(s, c, j);
    } else {
        assert(is_first_index(s, c, i));
    }
}

/// `find_char` gives the first index of `c`.
pub proof fn lemma_find_char_first(s: Seq<char>, c: char)
    ensures
        find_char(s, c) matches Some(i) ==> is_first_index(s, c, i),
{
    if has_char(s, c) {
        let i = choose|i: int| 0 <= i < s.len() && s[i] == c;
        lemma_has_first_index(s, c, i);
    }
}

/// Splitting at the first `c`.
pub proof fn lemma_split_once_at(s: Seq<char>, c: char, i: int)
    requires
        is_first_index(s, c, i),
    ensures
        split_once_seq(s, c) == Some((s.subrange(0, i), s.subrange(i + 1, s.len() as int))),
{
    lemma_first_index_unique(s, c, i);
}

/// Copies the characters of `s`.
pub fn chars_of(s: &str) -> (v: Vec<char>)
    ensures
        v@ == s@,
{
    broadcast use vstd::string::group_string_axioms;

    let mut it = s.chars();
    let mut v: Vec<char> = Vec::new();
    loop
        invariant
            v@ + it.remaining() == s@,
            it.obeys_prophetic_iter_laws(),
            it.decrease() is Some,
        ensures
            v@ == s@,
        decreases it.decrease()->0,
    {
        match it.next() {
            Some(c) => {
                v.push(c);
            },
            None => {
                break;
            },
        }
    }
    v
}

/// Builds a `String` from characters (`String: FromIterator<&char>`); the
/// contract claims the string holds exactly these characters, in order.
#[verifier::external_body]
pub(crate) fn string_of(v: &[char]) -> (s: String)
    ensures
        s@ == v@,
{
    String::from_iter(v.iter())
}

pub fn is_ws_char(c: char) -> (b: bool)
    ensures
        b == is_ws(c),
{
    let u = c as u32;
    u == 0x20 || (0x09 <= u && u <= 0x0d) || u == 0x85 || u == 0xa0 || u == 0x1680 || (0x2000
        <= u && u <= 0x200a) || u == 0x2028 || u == 0x2029 || u == 0x202f || u == 0x205f || u
        == 0x3000
}

/// The characters `v[i..j]`.
pub fn slice_of(v: &[char], i: usize, j: usize) -> (r: Vec<char>)
    requires
        i <= j <= v@.len(),
    ensures
        r@ == v@.subrange(i as int, j as int),
{
    let mut r: Vec<char> = Vec::new();
    let mut k = i;
    while k < j
        invariant
            i <= k <= j,
            j <= v@.len(),
            r@ == v@.subrange(i as int, k as int),
        decreases j - k,
    {
        r.push(v[k]);
        k = k + 1;
        assert(r@ =~= v@.subrange(i as int, k as int));
    }
    r
}

pub proof fn lemma_trim_start_step(s: Seq<char>, i: int)
    requires
        0 <= i < s.len(),
        is_ws(s[i]),
    ensures
        trim_start(s.subrange(i, s.len() as int)) == trim_start(s.subrange(i + 1, s.len() as int)),
{
    let t = s.subrange(i, s.len() as int);
    assert(t.subrange(1, t.len() as int) =~= s.subrange(i + 1, s.len() as int));
}

pub proof fn lemma_trim_end_step(s: Seq<char>, i: int, j: int)
    requires
        0 <= i < j <= s.len(),
        is_ws(s[j - 1]),
    ensures
        trim_end(s.subrange(i, j)) == trim_end(s.subrange(i, j - 1)),
{
    let t = s.subrange(i, j);
    assert(t.drop_last() =~= s.subrange(i, j - 1));
}

/// `str::trim` on characters.
pub fn trim(v: &[char]) -> (r: Vec<char>)
    ensures
        r@ == trimmed(v@),
{
    let n = v.len();
    let mut i: usize = 0;
    assert(v@.subrange(0, n as int) =~= v@);
    while i < n && is_ws_char(v[i])
        invariant
            i <= n,
            n == v@.len(),
            trim_start(v@) == trim_start(v@.subrange(i as int, n as int)),
        decreases n - i,
    {
        proof {
            lemma_trim_start_step(v@, i as int);
        }
        i = i + 1;
    }
    assert(v@.subrange(0, n as int) =~= v@);
    assert(trim_start(v@) == v@.subrange(i as int, n as int));
    let mut j: usize = n;
    while j > i && is_ws_char(v[j - 1])
        invariant
            i <= j <= n,
            n == v@.len(),
            trimmed(v@) == trim_end(v@.subrange(i as int, j as int)),
        decreases j - i,
    {
        proof {
            lemma_trim_end_step(v@, i as int, j as int);
        }
        j = j - 1;
    }
    slice_of(v, i, j)
}

pub fn eq(a: &[char], b: &[char]) -> (r: bool)
    ensures
        r == (a@ == b@),
{
    if a.len() != b.len() {
        return false;
    }
    let mut i: usize = 0;
    while i < a.len()
        invariant
            a@.len() == b@.len(),
            i <= a@.len(),
            forall|k: int| 0 <= k < i ==> a@[k] == b@[k],
        decreases a@.len() - i,
    {
        if a[i] != b[i] {
            return false;
        }
        i = i + 1;
    }
    assert(a@ =~= b@);
    true
}

pub fn eq_lit(v: &[char], lit: &str) -> (r: bool)
    ensures
        r == (v@ == lit@),
{
    let l = chars_of(lit);
    eq(v, l.as_slice())
}

pub fn has_prefix_at(v: &[char], p: &[char], i: usize) -> (r: bool)
    requires
        i <= v@.len(),
    ensures
        r == occurs_at(v@, p@, i as int),
{
    let n = v.len();
    if p.len() > n - i {
        return false;
    }
    let mut k: usize = 0;
    while k < p.len()
        invariant
            n == v@.len(),
            i + p@.len() <= v@.len(),
            k <= p@.len(),
            forall|m: int| 0 <= m < k ==> v@[i + m] == p@[m],
        decreases p@.len() - k,
    {
        if v[i + k] != p[k] {
            assert(v@.subrange(i as int, i + p@.len())[k as int] != p@[k as int]);
            return false;
        }
        k = k + 1;
    }
    assert(v@.subrange(i as int, i + p@.len()) =~= p@);
    true
}

pub fn starts_with(v: &[char], p: &[char]) -> (r: bool)
    ensures
        r == has_prefix(v@, p@),
{
    has_prefix_at(v, p, 0)
}

pub fn starts_with_lit(v: &[char], lit: &str) -> (r: bool)
    ensures
        r == has_prefix(v@, lit@),
{
    let l = chars_of(lit);
    starts_with(v, l.as_slice())
}

pub fn ends_with(v: &[char], p: &[char]) -> (r: bool)
    ensures
        r == has_suffix(v@, p@),
{
    if p.len() > v.len() {
        return false;
    }
    has_prefix_at(v, p, v.len() - p.len())
}

pub fn ends_with_lit(v: &[char], lit: &str) -> (r: bool)
    ensures
        r == has_suffix(v@, lit@),
{
    let l = chars_of(lit);
    ends_with(v, l.as_slice())
}

pub fn contains(v: &[char], p: &[char]) -> (r: bool)
    ensures
        r == contains_sub(v@, p@),
{
    let n = v.len();
    if p.len() > n {
        return false;
    }
    if p.len() == 0 {
        assert(v@.subrange(0, 0) =~= p@);
        assert(occurs_at(v@, p@, 0));
        return true;
    }
    let last = n - p.len();
    let mut i: usize = 0;
    while i <= last
        invariant
            n == v@.len(),
            last + p@.len() == n,
            p@.len() > 0,
            i <= last + 1,
            forall|k: int| 0 <= k < i ==> !occurs_at(v@, p@, k),
        decreases last + 1 - i,
    {
        if has_prefix_at(v, p, i) {
            return true;
        }
        i = i + 1;
    }
    false
}

pub fn contains_lit(v: &[char], lit: &str) -> (r: bool)
    ensures
        r == contains_sub(v@, lit@),
{
    let l = chars_of(lit);
    contains(v, l.as_slice())
}

pub fn find(v: &[char], c: char) -> (r: Option<usize>)
    ensures
        match r {
            Some(i) => find_char(v@, c) == Some(i as int) && is_first_index(v@, c, i as int),
            None => find_char(v@, c) is None,
        },
{
    let mut i: usize = 0;
    while i < v.len()
        invariant
            i <= v@.len(),
            forall|k: int| 0 <= k < i ==> v@[k] != c,
        decreases v@.len() - i,
    {
        if v[i] == c {
            proof {
                lemma_first_index_unique(v@, c, i as int);
            }
            return Some(i);
        }
        i = i + 1;
    }
    None
}

pub fn rfind(v: &[char], c: char) -> (r: Option<usize>)
    ensures
        match r {
            Some(i) => rfind_char(v@, c) == Some(i as int) && is_last_index(v@, c, i as int),
            None => rfind_char(v@, c) is None,
        },
{
    let mut i: usize = v.len();
    while i > 0
        invariant
            i <= v@.len(),
            forall|k: int| i <= k < v@.len() ==> v@[k] != c,
        decreases i,
    {
        if v[i - 1] == c {
            proof {
                lemma_last_index_unique(v@, c, i - 1);
            }
            return Some(i - 1);
        }
        i = i - 1;
    }
    None
}

pub fn has(v: &[char], c: char) -> (r: bool)
    ensures
        r == has_char(v@, c),
{
    match find(v, c) {
        Some(_) => true,
        None => false,
    }
}

pub fn split_once(v: &[char], c: char) -> (r: Option<(Vec<char>, Vec<char>)>)
    ensures
        match r {
            Some((a, b)) => split_once_seq(v@, c) == Some((a@, b@)),
            None => split_once_seq(v@, c) is None,
        },
{
    let n = v.len();
    match find(v, c) {
        Some(i) => Some((slice_of(v, 0, i), slice_of(v, i + 1, n))),
        None => None,
    }
}

pub fn strip_prefix_lit(v: &[char], lit: &str) -> (r: Option<Vec<char>>)
    ensures
        match r {
            Some(a) => strip_prefix(v@, lit@) == Some(a@),
            None => strip_prefix(v@, lit@) is None,
        },
{
    let l = chars_of(lit);
    if starts_with(v, l.as_slice()) {
        Some(slice_of(v, l.len(), v.len()))
    } else {
        None
    }
}

pub open spec fn views(vs: Seq<Vec<char>>) -> Seq<Seq<char>> {
    vs.map_values(|x: Vec<char>| x@)
}

/// `str::split` with a `char` pattern.
pub fn split(v: &[char], c: char) -> (r: Vec<Vec<char>>)
    ensures
        views(r@) == split_char(v@, c),
{
    let mut parts: Vec<Vec<char>> = Vec::new();
    let mut cur: Vec<char> = Vec::new();
    let mut i: usize = 0;
    while i < v.len()
        invariant
            i <= v@.len(),
            views(parts@).push(cur@) == split_char(v@.subrange(0, i as int), c),
        decreases v@.len() - i,
    {
        let ghost pre = v@.subrange(0, i as int);
        let ghost next = v@.subrange(0, i + 1);
        assert(next.drop_last() =~= pre);
        proof {
            lemma_split_nonempty(pre, c);
        }
        if v[i] == c {
            let done = cur;
            parts.push(done);
            cur = Vec::new();
            assert(views(parts@) =~= views(parts@).subrange(0, parts@.len() - 1).push(done@));
        } else {
            cur.push(v[i]);
        }
        assert(views(parts@).push(cur@) =~= split_char(next, c));
        i = i + 1;
    }
    assert(v@.subrange(0, v@.len() as int) =~= v@);
    parts.push(cur);
    assert(views(parts@) =~= split_char(v@, c));
    parts
}

pub open spec fn strip_cr(l: Seq<char>) -> Seq<char> {
    if l.len() > 0 && l.last() == '\r' {
        l.drop_last()
    } else {
        l
    }
}

/// What `str::lines` yields: pieces between `\n`, each without a `\r` right
/// before its `\n`, and no empty piece after a final `\n`.
pub open spec fn text_lines(s: Seq<char>) -> Seq<Seq<char>> {
    let parts = split_char(s, '\n');
    let n = parts.len();
    Seq::new((n - 1) as nat, |i: int| strip_cr(parts[i])) + (if parts.last().len() == 0 {
        Seq::<Seq<char>>::empty()
    } else {
        seq![parts.last()]
    })
}

/// `str::lines`.
pub fn lines_of(v: &[char]) -> (r: Vec<Vec<char>>)
    ensures
        views(r@) == text_lines(v@),
{
    let parts = split(v, '\n');
    let ghost ps = split_char(v@, '\n');
    let ghost lines = text_lines(v@);
    proof {
        lemma_split_nonempty(v@, '\n');
    }
    let n = parts.len();
    let mut out: Vec<Vec<char>> = Vec::new();
    let mut i: usize = 0;
    while i + 1 < n
        invariant
            n == parts@.len(),
            n >= 1,
            views(parts@) == ps,
            ps == split_char(v@, '\n'),
            lines == text_lines(v@),
            i + 1 <= n,
            views(out@) == lines.subrange(0, i as int),
        decreases n - i,
    {
        let p = parts[i].as_slice();
        let m = p.len();
        assert(ps[i as int] == p@);
        let piece = if m > 0 && p[m - 1] == '\r' {
            slice_of(p, 0, m - 1)
        } else {
            slice_of(p, 0, m)
        };
        assert(piece@ == lines[i as int]);
        let ghost before = views(out@);
        out.push(piece);
        assert(views(out@) =~= before.push(lines[i as int]));
        assert(lines.subrange(0, i + 1) =~= lines.subrange(0, i as int).push(lines[i as int]));
        i = i + 1;
    }
    assert(ps[n - 1] == parts@[n - 1]@);
    if parts[n - 1].len() > 0 {
        let ghost before = views(out@);
        assert(ps.last().subrange(0, ps.last().len() as int) =~= ps.last());
        out.push(slice_of(parts[n - 1].as_slice(), 0, parts[n - 1].len()));
        assert(views(out@) =~= before.push(ps.last()));
    }
    assert(views(out@) =~= lines);
    out
}

/// The pieces between whitespace characters, empty ones included.
pub open spec fn ws_pieces(s: Seq<char>) -> Seq<Seq<char>>
    decreases s.len(),
{
    if s.len() == 0 {
        seq![Seq::<char>::empty()]
    } else {
        let rest = ws_pieces(s.drop_last());
        if is_ws(s.last()) {
            rest.push(Seq::<char>::empty())
        } else {
            rest.update(rest.len() - 1, rest.last().push(s.last()))
        }
    }
}

pub proof fn lemma_ws_pieces_nonempty(s: Seq<char>)
    ensures
        ws_pieces(s).len() >= 1,
    decreases s.len(),
{
    if s.len() > 0 {
        lemma_ws_pieces_nonempty(s.drop_last());
    }
}

/// The non-empty pieces, in order.
pub open spec fn nonempty_pieces(ps: Seq<Seq<char>>) -> Seq<Seq<char>>
    decreases ps.len(),
{
    if ps.len() == 0 {
        ps
    } else if ps.last().len() > 0 {
        nonempty_pieces(ps.drop_last()).push(ps.last())
    } else {
        nonempty_pieces(ps.drop_last())
    }
}

/// `str::split_whitespace`.
pub open spec fn words(s: Seq<char>) -> Seq<Seq<char>> {
    nonempty_pieces(ws_pieces(s))
}

/// `str::split_whitespace`.
pub fn words_of(v: &[char]) -> (r: Vec<Vec<char>>)
    ensures
        views(r@) == words(v@),
{
    let mut parts: Vec<Vec<char>> = Vec::new();
    let mut cur: Vec<char> = Vec::new();
    let mut i: usize = 0;
    while i < v.len()
        invariant
            i <= v@.len(),
            views(parts@).push(cur@) == ws_pieces(v@.subrange(0, i as int)),
        decreases v@.len() - i,
    {
        let ghost pre = v@.subrange(0, i as int);
        let ghost next = v@.subrange(0, i + 1);
        assert(next.drop_last() =~= pre);
        proof {
            lemma_ws_pieces_nonempty(pre);
        }
        if is_ws_char(v[i]) {
            let done = cur;
            parts.push(done);
            cur = Vec::new();
            assert(views(parts@) =~= views(parts@).subrange(0, parts@.len() - 1).push(done@));
        } else {
            cur.push(v[i]);
        }
        assert(views(parts@).push(cur@) =~= ws_pieces(next));
        i = i + 1;
    }
    assert(v@.subrange(0, v@.len() as int) =~= v@);
    parts.push(cur);
    let ghost ps = views(parts@);
    assert(ps =~= ws_pieces(v@));
    let mut out: Vec<Vec<char>> = Vec::new();
    let mut k: usize = 0;
    assert(ps.subrange(0, 0) =~= Seq::<Seq<char>>::empty());
    while k < parts.len()
        invariant
            ps == views(parts@),
            k <= parts@.len(),
            views(out@) == nonempty_pieces(ps.subrange(0, k as int)),
        decreases parts@.len() - k,
    {
        assert(ps.subrange(0, k + 1).drop_last() =~= ps.subrange(0, k as int));
        assert(ps[k as int] == parts@[k as int]@);
        if parts[k].len() > 0 {
            let ghost before = views(out@);
            assert(ps[k as int].subrange(0, ps[k as int].len() as int) =~= ps[k as int]);
            out.push(slice_of(parts[k].as_slice(), 0, parts[k].len()));
            assert(views(out@) =~= before.push(ps[k as int]));
        }
        k = k + 1;
    }
    assert(ps.subrange(0, ps.len() as int) =~= ps);
    out
}

/// The decimal digits of `n`.
pub open spec fn decimal(n: nat) -> Seq<char>
    decreases n,
{
    if n < 10 {
        seq![((48 + n) as u8) as char]
    } else {
        decimal(n / 10).push(((48 + n % 10) as u8) as char)
    }
}

/// `n` in decimal, with `-` before a negative number.
pub open spec fn signed_decimal(n: int) -> Seq<char> {
    if n < 0 {
        "-"@ + decimal((-n) as nat)
    } else {
        decimal(n as nat)
    }
}

/// `n` in decimal.
pub fn decimal_of(n: u64) -> (r: Vec<char>)
    ensures
        r@ == decimal(n as nat),
    decreases n,
{
    if n < 10 {
        let d = (48u8 + (n as u8)) as char;
        vec![d]
    } else {
        let mut r = decimal_of(n / 10);
        let d = (48u8 + ((n % 10) as u8)) as char;
        r.push(d);
        r
    }
}

/// `str::to_ascii_lowercase`.
pub fn to_ascii_lower(v: &[char]) -> (r: Vec<char>)
    ensures
        r@ == ascii_lower_seq(v@),
{
    let mut r: Vec<char> = Vec::new();
    let mut i: usize = 0;
    while i < v.len()
        invariant
            i <= v@.len(),
            r@ == ascii_lower_seq(v@.subrange(0, i as int)),
        decreases v@.len() - i,
    {
        let c = v[i];
        let l = if 'A' <= c && c <= 'Z' {
            ((c as u8) + 32) as char
        } else {
            c
        };
        r.push(l);
        i = i + 1;
        assert(r@ =~= ascii_lower_seq(v@.subrange(0, i as int)));
    }
    assert(v@.subrange(0, v@.len() as int) =~= v@);
    r
}

/// Appends the characters of `s` to `r`.
pub fn push_all(r: &mut Vec<char>, s: &[char])
    ensures
        final(r)@ == old(r)@ + s@,
{
    let mut i: usize = 0;
    while i < s.len()
        invariant
            i <= s@.len(),
            r@ == old(r)@ + s@.subrange(0, i as int),
        decreases s@.len() - i,
    {
        r.push(s[i]);
        i = i + 1;
        assert(r@ =~= old(r)@ + s@.subrange(0, i as int));
    }
    assert(s@.subrange(0, s@.len() as int) =~= s@);
}

/// Appends the characters of the literal `lit` to `r`.
pub fn push_lit(r: &mut Vec<char>, lit: &str)
    ensures
        final(r)@ == old(r)@ + lit@,
{
    let l = chars_of(lit);
    push_all(r, l.as_slice());
}

pub fn opt_string_of(o: &Option<Vec<char>>) -> (r: Option<String>)
    ensures
        opt_view(r) == opt_chars(*o),
{
    match o {
        Some(v) => Some(string_of(v.as_slice())),
        None => None,
    }
}

/// The text of each string.
pub open spec fn str_views(v: Seq<String>) -> Seq<Seq<char>> {
    v.map_values(|s: String| s@)
}

/// An owned copy of `s`.
pub fn owned(s: &str) -> (r: String)
    ensures
        r@ == s@,
{
    string_of(chars_of(s).as_slice())
}

pub open spec fn opt_view(o: Option<String>) -> Option<Seq<char>> {
    match o {
        Some(s) => Some(s@),
        None => None,
    }
}

pub open spec fn opt_chars(o: Option<Vec<char>>) -> Option<Seq<char>> {
    match o {
        Some(s) => Some(s@),
        None => None,
    }
}

/// Lexicographic order of `String`'s `Ord`: UTF-8 byte order, which is the
/// order of code points.
pub open spec fn seq_lt(a: Seq<char>, b: Seq<char>) -> bool
    decreases a.len(),
{
    if a.len() == 0 {
        b.len() > 0
    } else if b.len() == 0 {
        false
    } else if a[0] != b[0] {
        (a[0] as u32) < (b[0] as u32)
    } else {
        seq_lt(a.subrange(1, a.len() as int), b.subrange(1, b.len() as int))
    }
}

pub fn lt(a: &[char], b: &[char]) -> (r: bool)
    ensures
        r == seq_lt(a@, b@),
{
    let mut i: usize = 0;
    assert(a@.subrange(0, a@.len() as int) =~= a@);
    assert(b@.subrange(0, b@.len() as int) =~= b@);
    while i < a.len() && i < b.len() && a[i] == b[i]
        invariant
            i <= a@.len(),
            i <= b@.len(),
            seq_lt(a@, b@) == seq_lt(a@.subrange(i as int, a@.len() as int), b@.subrange(i as int, b@.len() as int)),
        decreases a@.len() - i,
    {
        let ghost sa = a@.subrange(i as int, a@.len() as int);
        let ghost sb = b@.subrange(i as int, b@.len() as int);
        assert(sa.subrange(1, sa.len() as int) =~= a@.subrange(i + 1, a@.len() as int));
        assert(sb.subrange(1, sb.len() as int) =~= b@.subrange(i + 1, b@.len() as int));
        i = i + 1;
    }
    if i == a.len() {
        i < b.len()
    } else if i == b.len() {
        false
    } else {
        (a[i] as u32) < (b[i] as u32)
    }
}

} // verus!
