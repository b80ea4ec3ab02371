//! Release version strings: parsing them into numeric segments and
//! comparing them segment by segment.
use vstd::prelude::*;

use crate::text::{chars_of, slice_chars, trim_chars};

verus! {

// ---------------------------------------------------------------------------
// Prefix helpers on character sequences
// ---------------------------------------------------------------------------
/// The longest prefix of `s` whose characters all satisfy `f`.
pub open spec fn take_while(s: Seq<char>, f: spec_fn(char) -> bool) -> Seq<char>
    decreases s.len(),
{
    if s.len() > 0 && f(s[0]) {
        seq![s[0]] + take_while(s.drop_first(), f)
    } else {
        Seq::empty()
    }
}

/// `s` without the longest prefix whose characters all satisfy `f`.
pub open spec fn skip_while(s: Seq<char>, f: spec_fn(char) -> bool) -> Seq<char>
    decreases s.len(),
{
    if s.len() > 0 && f(s[0]) {
        skip_while(s.drop_first(), f)
    } else {
        s
    }
}

/// When the first `a` characters satisfy `f` and the next one does not,
/// `take_while` and `skip_while` split `s` at `a`.
pub proof fn lemma_while_split(s: Seq<char>, f: spec_fn(char) -> bool, a: int)
    requires
        0 <= a <= s.len(),
        forall|j: int| 0 <= j < a ==> f(#[trigger] s[j]),
        a == s.len() || !f(s[a]),
    ensures
        take_while(s, f) == s.take(a),
        skip_while(s, f) == s.skip(a),
    decreases a,
{
    if a == 0 {
        assert(s.take(0) =~= Seq::<char>::empty());
        assert(s.skip(0) =~= s);
    } else {
        assert(f(s[0]));
        let t = s.drop_first();
        assert forall|j: int| 0 <= j < a - 1 implies f(#[trigger] t[j]) by {
            assert(t[j] == s[j + 1]);
        }
        if a - 1 < t.len() {
            assert(t[a - 1] == s[a]);
        }
        lemma_while_split(t, f, a - 1);
        assert(seq![s[0]] + t.take(a - 1) =~= s.take(a));
        assert(t.skip(a - 1) =~= s.skip(a));
    }
}

// ---------------------------------------------------------------------------
// The parsing specification
// ---------------------------------------------------------------------------
pub open spec fn is_v(c: char) -> bool {
    c == 'v' || c == 'V'
}

pub open spec fn is_build_mark(c: char) -> bool {
    c == '-' || c == '+'
}

pub open spec fn is_digit(c: char) -> bool {
    '0' <= c && c <= '9'
}

/// The pieces of `s` between the `.` separators, as `str::split('.')` yields
/// them (an empty `s` gives one empty piece).
pub open spec fn split_dots(s: Seq<char>) -> Seq<Seq<char>>
    decreases s.len(),
{
    if s.len() == 0 {
        seq![Seq::empty()]
    } else {
        let init = split_dots(s.drop_last());
        if s.last() == '.' {
            init.push(Seq::empty())
        } else {
            init.update(init.len() - 1, init.last().push(s.last()))
        }
    }
}

pub proof fn lemma_split_dots_nonempty(s: Seq<char>)
    ensures
        split_dots(s).len() >= 1,
    decreases s.len(),
{
    if s.len() > 0 {
        lemma_split_dots_nonempty(s.drop_last());
    }
}

/// The number a run of decimal digits denotes.
pub open spec fn digits_value(d: Seq<char>) -> nat
    decreases d.len(),
{
    if d.len() == 0 {
        0
    } else {
        digits_value(d.drop_last()) * 10 + ((d.last() as u32) - ('0' as u32)) as nat
    }
}

/// The number of one segment: its leading digits read as a `u32`; 0 when there
/// are none or when they do not fit in a `u32`.
pub open spec fn segment_value(p: Seq<char>) -> u32 {
    let d = take_while(p, |c: char| is_digit(c));
    if d.len() == 0 || digits_value(d) > u32::MAX {
        0
    } else {
        digits_value(d) as u32
    }
}

/// The text of a version string that is split into segments: trimmed of white
/// space, stripped of leading `v`/`V`, and cut at the first `-` or `+`.
pub open spec fn version_core(s: Seq<char>) -> Seq<char> {
    take_while(skip_while(crate::text::trim(s), |c: char| is_v(c)), |c: char| !is_build_mark(c))
}

/// The numeric segments of a version string, as `parse_ver` computes them.
pub open spec fn version_numbers(s: Seq<char>) -> Seq<u32> {
    split_dots(version_core(s)).map_values(|p: Seq<char>| segment_value(p))
}

/// Segment `i` of `a`, or 0 past its end.
pub open spec fn seg(a: Seq<u32>, i: int) -> int {
    if 0 <= i < a.len() {
        a[i] as int
    } else {
        0
    }
}

/// `a` is greater than `b` segment by segment, missing segments counting as 0:
/// at the first segment where they differ, `a`'s is the larger.
pub open spec fn numbers_newer(a: Seq<u32>, b: Seq<u32>) -> bool {
    exists|i: int|
        #![trigger seg(a, i), seg(b, i)]
        0 <= i && seg(a, i) > seg(b, i) && forall|j: int|
            0 <= j < i ==> #[trigger] seg(a, j) == #[trigger] seg(b, j)
}

/// The version `latest` is newer than the version `current`.
pub open spec fn version_newer(latest: Seq<char>, current: Seq<char>) -> bool {
    numbers_newer(version_numbers(latest), version_numbers(current))
}

// ---------------------------------------------------------------------------
// Parsing
// ---------------------------------------------------------------------------
proof fn lemma_digits_value_grows(d: Seq<char>, c: char)
    requires
        is_digit(c),
    ensures
        digits_value(d.push(c)) >= digits_value(d) * 10,
{
    assert(d.push(c).drop_last() =~= d);
}

/// The number of one version segment (see `segment_value`).
pub fn segment_number(p: &Vec<char>) -> (res: u32)
    ensures
        res == segment_value(p@),
{
    let n = p.len();
    let mut k: usize = 0;
    while k < n && '0' <= p[k] && p[k] <= '9'
        invariant
            k <= n == p.len(),
            forall|j: int| 0 <= j < k ==> is_digit(#[trigger] p@[j]),
        decreases n - k,
    {
        k = k + 1;
    }
    let ghost f = |c: char| is_digit(c);
    proof {
        lemma_while_split(p@, f, k as int);
    }
    let ghost d = p@.take(k as int);
    let mut acc: u64 = 0;
    let mut over = false;
    let mut i: usize = 0;
    assert(d.take(0) =~= Seq::<char>::empty());
    while i < k
        invariant
            i <= k <= n == p.len(),
            d == p@.take(k as int),
            forall|j: int| 0 <= j < k ==> is_digit(#[trigger] p@[j]),
            over ==> digits_value(d.take(i as int)) > u32::MAX,
            !over ==> acc == digits_value(d.take(i as int)) && acc <= u32::MAX,
        decreases k - i,
    {
        let c = p[i];
        assert(is_digit(p@[i as int]));
        assert(d.take(i + 1) =~= d.take(i as int).push(c));
        assert(d.take(i + 1).drop_last() =~= d.take(i as int));
        proof {
            lemma_digits_value_grows(d.take(i as int), c);
        }
        if !over {
            let v: u64 = acc * 10 + ((c as u32) - ('0' as u32)) as u64;
            if v > 4294967295u64 {
                over = true;
            } else {
                acc = v;
            }
        }
        i = i + 1;
    }
    assert(d.take(k as int) =~= d);
    if k == 0 || over {
        0
    } else {
        acc as u32
    }
}

/// Index of the first character of `v` at or after `from` that does not
/// satisfy the given test, for the three tests that version parsing uses.
fn count_leading_v(v: &Vec<char>) -> (k: usize)
    ensures
        k <= v.len(),
        forall|j: int| 0 <= j < k ==> is_v(#[trigger] v@[j]),
        k == v.len() || !is_v(v@[k as int]),
{
    let mut k: usize = 0;
    while k < v.len() && (v[k] == 'v' || v[k] == 'V')
        invariant
            k <= v.len(),
            forall|j: int| 0 <= j < k ==> is_v(#[trigger] v@[j]),
        decreases v.len() - k,
    {
        k = k + 1;
    }
    k
}

fn count_before_mark(v: &Vec<char>, from: usize) -> (k: usize)
    requires
        from <= v.len(),
    ensures
        from <= k <= v.len(),
        forall|j: int| from <= j < k ==> !is_build_mark(#[trigger] v@[j]),
        k == v.len() || is_build_mark(v@[k as int]),
{
    let mut k: usize = from;
    while k < v.len() && v[k] != '-' && v[k] != '+'
        invariant
            from <= k <= v.len(),
            forall|j: int| from <= j < k ==> !is_build_mark(#[trigger] v@[j]),
        decreases v.len() - k,
    {
        k = k + 1;
    }
    k
}

/// The text of a version string that is split into segments (see
/// `version_core`).
pub fn version_core_chars(s: &str) -> (res: Vec<char>)
    ensures
        res@ == version_core(s@),
{
    let all = chars_of(s);
    let t = trim_chars(&all);
    let a = count_leading_v(&t);
    let ghost fv = |c: char| is_v(c);
    proof {
        lemma_while_split(t@, fv, a as int);
    }
    let b = count_before_mark(&t, a);
    let ghost rest = t@.skip(a as int);
    let ghost fm = |c: char| !is_build_mark(c);
    proof {
        assert forall|j: int| 0 <= j < b - a implies fm(#[trigger] rest[j]) by {
            assert(rest[j] == t@[j + a]);
        }
        if b < t.len() {
            assert(rest[b - a] == t@[b as int]);
        }
        lemma_while_split(rest, fm, b - a);
        assert(rest.take(b - a) =~= t@.subrange(a as int, b as int));
    }
    slice_chars(&t, a, b)
}

/// Parses a version string such as `"v0.3.10-beta"` into comparable numeric
/// segments; a segment without leading digits counts as 0.
pub fn parse_ver(s: &str) -> (res: Vec<u32>)
    ensures
        res@ == version_numbers(s@),
{
    let core = version_core_chars(s);
    let ghost c = core@;
    let mut nums: Vec<u32> = Vec::new();
    let mut cur: Vec<char> = Vec::new();
    let mut i: usize = 0;
    assert(c.take(0) =~= Seq::<char>::empty());
    while i < core.len()
        invariant
            c == core@,
            i <= core.len(),
            split_dots(c.take(i as int)).len() == nums.len() + 1,
            split_dots(c.take(i as int)).last() == cur@,
            forall|j: int|
                0 <= j < nums.len() ==> #[trigger] nums@[j] == segment_value(
                    split_dots(c.take(i as int))[j],
                ),
        decreases core.len() - i,
    {
        let ch = core[i];
        let ghost before = split_dots(c.take(i as int));
        assert(c.take(i + 1).drop_last() =~= c.take(i as int));
        assert(c.take(i + 1).last() == ch);
        if ch == '.' {
            let v = segment_number(&cur);
            nums.push(v);
            cur = Vec::new();
            proof {
                let after = split_dots(c.take(i + 1));
                assert(after == before.push(Seq::<char>::empty()));
                assert forall|j: int| 0 <= j < nums.len() implies #[trigger] nums@[j]
                    == segment_value(after[j]) by {
                    if j < nums.len() - 1 {
                        assert(after[j] == before[j]);
                    }
                }
                assert(cur@ =~= Seq::<char>::empty());
            }
        } else {
            cur.push(ch);
            proof {
                lemma_split_dots_nonempty(c.take(i as int));
                let after = split_dots(c.take(i + 1));
                assert(after == before.update(before.len() - 1, before.last().push(ch)));
                assert forall|j: int| 0 <= j < nums.len() implies #[trigger] nums@[j]
                    == segment_value(after[j]) by {
                    assert(after[j] == before[j]);
                }
            }
        }
        i = i + 1;
    }
    let v = segment_number(&cur);
    nums.push(v);
    assert(c.take(core.len() as int) =~= c);
    proof {
        let parts = split_dots(c);
        assert(nums@ =~= parts.map_values(|p: Seq<char>| segment_value(p))) by {
            assert forall|j: int| 0 <= j < nums.len() implies nums@[j] == parts.map_values(
                |p: Seq<char>| segment_value(p),
            )[j] by {
                if j < nums.len() - 1 {
                } else {
                    assert(parts[j] == cur@);
                }
            }
        }
    }
    nums
}

// ---------------------------------------------------------------------------
// Comparing
// ---------------------------------------------------------------------------
/// Compares two versions segment by segment: `latest` counts as newer only when
/// its numbers are greater at the first segment where they differ (so
/// `0.3.10` is newer than `0.3.9`; this is no string comparison).
pub fn is_newer(latest: &str, current: &str) -> (res: bool)
    ensures
        res == version_newer(latest@, current@),
{
    let a = parse_ver(latest);
    let b = parse_ver(current);
    let n = if a.len() > b.len() {
        a.len()
    } else {
        b.len()
    };
    let mut i: usize = 0;
    while i < n
        invariant
            a@ == version_numbers(latest@),
            b@ == version_numbers(current@),
            n == if a.len() > b.len() { a.len() } else { b.len() },
            i <= n,
            forall|j: int| 0 <= j < i ==> #[trigger] seg(a@, j) == #[trigger] seg(b@, j),
        decreases n - i,
    {
        let x: u32 = if i < a.len() {
            a[i]
        } else {
            0
        };
        let y: u32 = if i < b.len() {
            b[i]
        } else {
            0
        };
        assert(x == seg(a@, i as int) && y == seg(b@, i as int));
        if x != y {
            proof {
                if x < y {
                    assert forall|k: int| 0 <= k && seg(a@, k) > seg(b@, k) implies !(forall|j: int|
                        0 <= j < k ==> #[trigger] seg(a@, j) == #[trigger] seg(b@, j)) by {
                        if k < i {
                        } else if k == i {
                        } else {
                            assert(seg(a@, i as int) != seg(b@, i as int));
                        }
                    }
                }
            }
            return x > y;
        }
        i = i + 1;
    }
    proof {
        assert forall|k: int|
            !(0 <= k && seg(a@, k) > seg(b@, k) && forall|j: int|
                0 <= j < k ==> #[trigger] seg(a@, j) == #[trigger] seg(b@, j)) by {
            if 0 <= k && k < n {
            }
        }
    }
    false
}

// ---------------------------------------------------------------------------
// Laws of the comparison
// ---------------------------------------------------------------------------
/// No version is newer than itself.
pub proof fn lemma_newer_irreflexive(v: Seq<char>)
    ensures
        !version_newer(v, v),
{
}

/// Of two versions, at most one is newer than the other.
pub proof fn lemma_newer_asymmetric(x: Seq<char>, y: Seq<char>)
    ensures
        !(version_newer(x, y) && version_newer(y, x)),
{
    let a = version_numbers(x);
    let b = version_numbers(y);
    if version_newer(x, y) && version_newer(y, x) {
        let i = choose|i: int|
            #![trigger seg(a, i), seg(b, i)]
            0 <= i && seg(a, i) > seg(b, i) && forall|j: int|
                0 <= j < i ==> #[trigger] seg(a, j) == #[trigger] seg(b, j);
        let k = choose|k: int|
            #![trigger seg(b, k), seg(a, k)]
            0 <= k && seg(b, k) > seg(a, k) && forall|j: int|
                0 <= j < k ==> #[trigger] seg(b, j) == #[trigger] seg(a, j);
        if i < k {
            assert(seg(b, i) == seg(a, i));
        } else if k < i {
            assert(seg(a, k) == seg(b, k));
        }
    }
}

/// Being newer is transitive.
pub proof fn lemma_newer_transitive(x: Seq<char>, y: Seq<char>, z: Seq<char>)
    requires
        version_newer(x, y),
        version_newer(y, z),
    ensures
        version_newer(x, z),
{
    let a = version_numbers(x);
    let b = version_numbers(y);
    let c = version_numbers(z);
    let i = choose|i: int|
        #![trigger seg(a, i), seg(b, i)]
        0 <= i && seg(a, i) > seg(b, i) && forall|j: int|
            0 <= j < i ==> #[trigger] seg(a, j) == #[trigger] seg(b, j);
    let k = choose|k: int|
        #![trigger seg(b, k), seg(c, k)]
        0 <= k && seg(b, k) > seg(c, k) && forall|j: int|
            0 <= j < k ==> #[trigger] seg(b, j) == #[trigger] seg(c, j);
    let m = if i < k {
        i
    } else {
        k
    };
    assert forall|j: int| 0 <= j < m implies #[trigger] seg(a, j) == #[trigger] seg(c, j) by {
        assert(seg(a, j) == seg(b, j));
        assert(seg(b, j) == seg(c, j));
    }
    if i < k {
        assert(seg(b, i) == seg(c, i));
    } else if k < i {
        assert(seg(a, k) == seg(b, k));
    }
    assert(seg(a, m) > seg(c, m));
}

/// Trailing zero segments do not matter: appending `.0` to a version makes it
/// neither newer nor older.
pub proof fn lemma_trailing_zero_segments(a: Seq<u32>)
    ensures
        !numbers_newer(a.push(0), a),
        !numbers_newer(a, a.push(0)),
{
    let b = a.push(0);
    assert forall|j: int| #[trigger] seg(a, j) == #[trigger] seg(b, j) by {
        if 0 <= j < a.len() {
            assert(b[j] == a[j]);
        }
    }
}

// ---------------------------------------------------------------------------
// The largest of several versions
// ---------------------------------------------------------------------------
/// The version that a left-to-right scan keeps: start with the first, and take
/// each later one that is newer than the one kept so far.
pub open spec fn newest_of(vs: Seq<Seq<char>>) -> Seq<char>
    decreases vs.len(),
{
    if vs.len() <= 1 {
        if vs.len() == 1 {
            vs[0]
        } else {
            Seq::empty()
        }
    } else {
        let acc = newest_of(vs.drop_last());
        if version_newer(vs.last(), acc) {
            vs.last()
        } else {
            acc
        }
    }
}

/// What the scan keeps is one of the versions, and none of the versions is
/// newer than it.
pub proof fn lemma_newest_of_is_maximal(vs: Seq<Seq<char>>)
    requires
        vs.len() > 0,
    ensures
        vs.contains(newest_of(vs)),
        forall|i: int| 0 <= i < vs.len() ==> !version_newer(#[trigger] vs[i], newest_of(vs)),
    decreases vs.len(),
{
    if vs.len() == 1 {
        assert(vs[0] == newest_of(vs));
        lemma_newer_irreflexive(vs[0]);
    } else {
        let init = vs.drop_last();
        lemma_newest_of_is_maximal(init);
        let acc = newest_of(init);
        let w = vs.last();
        let k = choose|k: int| 0 <= k < init.len() && init[k] == acc;
        if version_newer(w, acc) {
            assert(vs[vs.len() - 1] == w);
            assert forall|i: int| 0 <= i < vs.len() implies !version_newer(
                #[trigger] vs[i],
                newest_of(vs),
            ) by {
                if i < vs.len() - 1 {
                    assert(vs[i] == init[i]);
                    if version_newer(vs[i], w) {
                        lemma_newer_transitive(vs[i], w, acc);
                    }
                } else {
                    lemma_newer_irreflexive(w);
                }
            }
        } else {
            assert(vs[k] == acc);
            assert forall|i: int| 0 <= i < vs.len() implies !version_newer(
                #[trigger] vs[i],
                newest_of(vs),
            ) by {
                if i < vs.len() - 1 {
                    assert(vs[i] == init[i]);
                }
            }
        }
    }
}

/// The views of a list of strings.
pub open spec fn string_views(v: Seq<String>) -> Seq<Seq<char>> {
    v.map_values(|s: String| s@)
}

/// The newest of `versions` by a left-to-right scan (see `newest_of`); `None`
/// when the list is empty.
pub fn newest_version(versions: Vec<String>) -> (res: Option<String>)
    ensures
        versions.len() == 0 ==> res is None,
        versions.len() > 0 ==> (res matches Some(v) && v@ == newest_of(string_views(versions@))),
{
    if versions.len() == 0 {
        return None;
    }
    let ghost vs = string_views(versions@);
    let mut best: usize = 0;
    let mut i: usize = 1;
    assert(vs.take(1).drop_last() =~= Seq::<Seq<char>>::empty());
    assert(newest_of(vs.take(1)) == vs[0]);
    while i < versions.len()
        invariant
            vs == string_views(versions@),
            1 <= i <= versions.len(),
            best < versions.len(),
            versions@[best as int]@ == newest_of(vs.take(i as int)),
        decreases versions.len() - i,
    {
        assert(vs.take(i + 1).drop_last() =~= vs.take(i as int));
        assert(vs.take(i + 1).last() == versions@[i as int]@);
        if is_newer(versions[i].as_str(), versions[best].as_str()) {
            best = i;
        }
        i = i + 1;
    }
    assert(vs.take(versions.len() as int) =~= vs);
    Some(versions[best].clone())
}

} // verus!
