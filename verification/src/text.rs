//! Character-sequence utilities shared by the scanners and the policy engine.
//!
//! Every string the library inspects is first turned into a `Vec<char>`; the
//! functions here work on those vectors and are specified over `Seq<char>`.

use vstd::prelude::*;
use vstd::std_specs::iter::IteratorSpec;

verus! {

// ---------------------------------------------------------------------------
// Conversions
// ---------------------------------------------------------------------------

/// The characters of `s`, in order.
pub fn chars_of(s: &str) -> (r: Vec<char>)
    ensures
        r@ == s@,
{
    broadcast use vstd::string::group_string_axioms;

    let mut r: Vec<char> = Vec::new();
    let mut it = s.chars();
    assert(it.remaining() == s@);
    loop
        invariant
            r@ + it.remaining() == s@,
            it.decrease() is Some,
        ensures
            r@ == s@,
        decreases it.decrease()->0,
    {
        let ghost before = it.remaining();
        match it.next() {
            Some(c) => {
                assert(r@.push(c) + it.remaining() =~= r@ + before);
                r.push(c);
            },
            None => {
                assert(r@ =~= s@);
                break ;
            },
        }
    }
    r
}

/// Builds a `String` holding exactly the given characters
/// (`String: FromIterator<&char>`).
#[verifier::external_body]
pub(crate) fn string_of(v: &[char]) -> (r: String)
    ensures
        r@ == v@,
{
    v.iter().collect()
}

} // verus!

verus! {

/// A fresh copy of `s[a..b]`.
pub fn copy_range(s: &[char], a: usize, b: usize) -> (r: Vec<char>)
    requires
        a <= b <= s@.len(),
    ensures
        r@ == s@.subrange(a as int, b as int),
{
    let mut r: Vec<char> = Vec::new();
    let mut i = a;
    while i < b
        invariant
            a <= i <= b <= s@.len(),
            r@ == s@.subrange(a as int, i as int),
        decreases b - i,
    {
        assert(s@.subrange(a as int, i + 1) =~= s@.subrange(a as int, i as int).push(s@[i as int]));
        r.push(s[i]);
        i = i + 1;
    }
    r
}

/// Appends the characters of `lit` to `v`.
pub fn push_str(v: &mut Vec<char>, lit: &str)
    ensures
        final(v)@ == old(v)@ + lit@,
{
    let l = chars_of(lit);
    push_all(v, &l);
}

/// Appends the characters of `w` to `v`.
pub fn push_all(v: &mut Vec<char>, w: &[char])
    ensures
        final(v)@ == old(v)@ + w@,
{
    let mut i: usize = 0;
    while i < w.len()
        invariant
            i <= w@.len(),
            v@ == old(v)@ + w@.subrange(0, i as int),
        decreases w.len() - i,
    {
        assert(w@.subrange(0, i + 1) =~= w@.subrange(0, i as int).push(w@[i as int]));
        v.push(w[i]);
        i = i + 1;
    }
    assert(w@.subrange(0, w@.len() as int) =~= w@);
}

/// Whether two character sequences are equal.
pub fn same(a: &[char], b: &[char]) -> (r: bool)
    ensures
        r == (a@ == b@),
{
    if a.len() != b.len() {
        return false;
    }
    let mut i: usize = 0;
    while i < a.len()
        invariant
            i <= a@.len(),
            a@.len() == b@.len(),
            forall|k: int| 0 <= k < i ==> a@[k] == b@[k],
        decreases a.len() - i,
    {
        if a[i] != b[i] {
            return false;
        }
        i = i + 1;
    }
    assert(a@ =~= b@);
    true
}

/// Whether `a` spells exactly the literal `lit`.
pub fn is(a: &[char], lit: &str) -> (r: bool)
    ensures
        r == (a@ == lit@),
{
    let l = chars_of(lit);
    same(a, &l)
}

// ---------------------------------------------------------------------------
// Substrings, prefixes and suffixes
// ---------------------------------------------------------------------------

/// `n` occurs in `h` starting at position `i`.
pub open spec fn occurs_at(h: Seq<char>, n: Seq<char>, i: int) -> bool {
    0 <= i && i + n.len() <= h.len() && h.subrange(i, i + n.len()) == n
}

/// `n` occurs somewhere in `h` (`str::contains`).
pub open spec fn has_sub(h: Seq<char>, n: Seq<char>) -> bool {
    exists|i: int| occurs_at(h, n, i)
}

/// `h` begins with `p` (`str::starts_with`).
pub open spec fn has_prefix(h: Seq<char>, p: Seq<char>) -> bool {
    p.len() <= h.len() && h.subrange(0, p.len() as int) == p
}

/// `h` ends with `p` (`str::ends_with`).
pub open spec fn has_suffix(h: Seq<char>, p: Seq<char>) -> bool {
    p.len() <= h.len() && h.subrange(h.len() - p.len(), h.len() as int) == p
}

/// The first position at or after `i` where `n` occurs in `h`.
pub open spec fn find_from(h: Seq<char>, n: Seq<char>, i: int) -> Option<int>
    decreases h.len() + 1 - i,
{
    if i < 0 || i + n.len() > h.len() {
        None
    } else if occurs_at(h, n, i) {
        Some(i)
    } else {
        find_from(h, n, i + 1)
    }
}

/// The first position where `n` occurs in `h` (`str::find`).
pub open spec fn find(h: Seq<char>, n: Seq<char>) -> Option<int> {
    find_from(h, n, 0)
}

/// Whether `n` occurs in `h` at position `i`.
pub fn matches_at(h: &[char], n: &[char], i: usize) -> (r: bool)
    ensures
        r == occurs_at(h@, n@, i as int),
{
    if i > h.len() || n.len() > h.len() - i {
        return false;
    }
    let mut j: usize = 0;
    while j < n.len()
        invariant
            j <= n@.len(),
            i <= h@.len(),
            i + n.len() <= h.len(),
            forall|k: int| 0 <= k < j ==> h@[i + k] == n@[k],
        decreases n.len() - j,
    {
        if h[i + j] != n[j] {
            assert(h@.subrange(i as int, i + n@.len())[j as int] != n@[j as int]);
            return false;
        }
        j = j + 1;
    }
    assert(h@.subrange(i as int, i + n@.len()) =~= n@);
    true
}

/// A failed search rules out every later position.
proof fn lemma_find_from_none(h: Seq<char>, n: Seq<char>, i: int)
    requires
        0 <= i,
        find_from(h, n, i) is None,
    ensures
        forall|j: int| i <= j ==> !occurs_at(h, n, j),
    decreases h.len() + 1 - i,
{
    if i + n.len() <= h.len() {
        lemma_find_from_none(h, n, i + 1);
    }
}

/// A successful search finds an occurrence, and none before it.
proof fn lemma_find_from_some(h: Seq<char>, n: Seq<char>, i: int)
    requires
        0 <= i,
        find_from(h, n, i) is Some,
    ensures
        occurs_at(h, n, find_from(h, n, i)->0),
        i <= find_from(h, n, i)->0,
        forall|j: int| i <= j < find_from(h, n, i)->0 ==> !occurs_at(h, n, j),
    decreases h.len() + 1 - i,
{
    if !occurs_at(h, n, i) {
        lemma_find_from_some(h, n, i + 1);
    }
}

/// What `find` computes: the least position of an occurrence.
pub proof fn lemma_find(h: Seq<char>, n: Seq<char>)
    ensures
        find(h, n) is None <==> !has_sub(h, n),
        find(h, n) matches Some(k) ==> occurs_at(h, n, k) && forall|j: int|
            0 <= j < k ==> !occurs_at(h, n, j),
{
    if find(h, n) is None {
        lemma_find_from_none(h, n, 0);
    } else {
        lemma_find_from_some(h, n, 0);
    }
}

/// The first position at or after `start` where `n` occurs in `h`.
pub fn find_chars_from(h: &[char], n: &[char], start: usize) -> (r: Option<usize>)
    ensures
        r matches Some(k) ==> find_from(h@, n@, start as int) == Some(k as int),
        r is None ==> find_from(h@, n@, start as int) is None,
{
    let mut i = start;
    loop
        invariant
            start <= i,
            find_from(h@, n@, start as int) == find_from(h@, n@, i as int),
        decreases h@.len() + 1 - i,
    {
        if i > h.len() || n.len() > h.len() - i {
            return None;
        }
        if n.len() == 0 {
            assert(h@.subrange(i as int, i as int) =~= n@);
            return Some(i);
        }
        if matches_at(h, n, i) {
            return Some(i);
        }
        i = i + 1;
    }
}

/// The first position where `n` occurs in `h`.
pub fn find_chars(h: &[char], n: &[char]) -> (r: Option<usize>)
    ensures
        r matches Some(k) ==> find(h@, n@) == Some(k as int),
        r is None ==> find(h@, n@) is None,
{
    find_chars_from(h, n, 0)
}

/// Whether `n` occurs in `h`.
pub fn contains_chars(h: &[char], n: &[char]) -> (r: bool)
    ensures
        r == has_sub(h@, n@),
{
    let f = find_chars(h, n);
    proof {
        lemma_find(h@, n@);
    }
    f.is_some()
}

/// Whether the literal `lit` occurs in `h`.
pub fn contains(h: &[char], lit: &str) -> (r: bool)
    ensures
        r == has_sub(h@, lit@),
{
    let l = chars_of(lit);
    contains_chars(h, &l)
}

/// Whether `h` begins with the literal `lit`.
pub fn starts_with(h: &[char], lit: &str) -> (r: bool)
    ensures
        r == has_prefix(h@, lit@),
{
    let l = chars_of(lit);
    let r = matches_at(h, &l, 0);
    assert(has_prefix(h@, l@) == occurs_at(h@, l@, 0));
    r
}

/// Whether `h` begins with `p`.
pub fn starts_with_chars(h: &[char], p: &[char]) -> (r: bool)
    ensures
        r == has_prefix(h@, p@),
{
    let r = matches_at(h, p, 0);
    assert(has_prefix(h@, p@) == occurs_at(h@, p@, 0));
    r
}

/// Whether `h` ends with the literal `lit`.
pub fn ends_with(h: &[char], lit: &str) -> (r: bool)
    ensures
        r == has_suffix(h@, lit@),
{
    let l = chars_of(lit);
    if l.len() > h.len() {
        return false;
    }
    let r = matches_at(h, &l, h.len() - l.len());
    assert(has_suffix(h@, l@) == occurs_at(h@, l@, h@.len() - l@.len()));
    r
}

} // verus!

verus! {

// ---------------------------------------------------------------------------
// Character classes and trimming
// ---------------------------------------------------------------------------

/// The Unicode `White_Space` property, as `char::is_whitespace` defines it.
pub open spec fn is_ws(c: char) -> bool {
    let v = c as u32;
    (9 <= v && v <= 13) || v == 32 || v == 0x85 || v == 0xA0 || v == 0x1680 || (0x2000 <= v
        && v <= 0x200A) || v == 0x2028 || v == 0x2029 || v == 0x202F || v == 0x205F || v == 0x3000
}

/// `char::is_whitespace`.
pub fn is_whitespace(c: char) -> (r: bool)
    ensures
        r == is_ws(c),
{
    let v = c as u32;
    (9 <= v && v <= 13) || v == 32 || v == 0x85 || v == 0xA0 || v == 0x1680 || (0x2000 <= v
        && v <= 0x200A) || v == 0x2028 || v == 0x2029 || v == 0x202F || v == 0x205F || v == 0x3000
}

/// `c` belongs to the class made of the characters of `set`, plus white space when `ws`.
pub open spec fn in_class(c: char, set: Seq<char>, ws: bool) -> bool {
    (ws && is_ws(c)) || set.contains(c)
}

/// Removes every leading character of the class (`trim_start_matches`).
pub open spec fn strip_start(s: Seq<char>, set: Seq<char>, ws: bool) -> Seq<char>
    decreases s.len(),
{
    if s.len() > 0 && in_class(s[0], set, ws) {
        strip_start(s.subrange(1, s.len() as int), set, ws)
    } else {
        s
    }
}

/// Removes every trailing character of the class (`trim_end_matches`).
pub open spec fn strip_end(s: Seq<char>, set: Seq<char>, ws: bool) -> Seq<char>
    decreases s.len(),
{
    if s.len() > 0 && in_class(s.last(), set, ws) {
        strip_end(s.drop_last(), set, ws)
    } else {
        s
    }
}

/// Removes the class from both ends (`trim_matches`).
pub open spec fn strip(s: Seq<char>, set: Seq<char>, ws: bool) -> Seq<char> {
    strip_end(strip_start(s, set, ws), set, ws)
}

/// `str::trim`.
pub open spec fn trim(s: Seq<char>) -> Seq<char> {
    strip(s, Seq::empty(), true)
}

/// Whether `c` belongs to the class.
pub fn in_class_exec(c: char, set: &[char], ws: bool) -> (r: bool)
    ensures
        r == in_class(c, set@, ws),
{
    if ws && is_whitespace(c) {
        return true;
    }
    let mut i: usize = 0;
    while i < set.len()
        invariant
            i <= set@.len(),
            forall|k: int| 0 <= k < i ==> set@[k] != c,
        decreases set.len() - i,
    {
        if set[i] == c {
            assert(set@.contains(c));
            return true;
        }
        i = i + 1;
    }
    false
}

/// Removes the class from the front and/or the back of `s`.
pub fn strip_chars(s: &[char], set: &[char], ws: bool, front: bool, back: bool) -> (r: Vec<char>)
    ensures
        r@ == ({
            let t = if front {
                strip_start(s@, set@, ws)
            } else {
                s@
            };
            if back {
                strip_end(t, set@, ws)
            } else {
                t
            }
        }),
{
    let mut a: usize = 0;
    assert(s@.subrange(0, s@.len() as int) =~= s@);
    if front {
        while a < s.len() && in_class_exec(s[a], set, ws)
            invariant
                a <= s@.len(),
                strip_start(s@, set@, ws) == strip_start(s@.subrange(a as int, s@.len() as int), set@, ws),
            decreases s.len() - a,
        {
            assert(s@.subrange(a as int, s@.len() as int).subrange(1, s@.len() - a) =~= s@.subrange(
                a + 1,
                s@.len() as int,
            ));
            a = a + 1;
        }
    }
    assert(s@.subrange(0, s@.len() as int) =~= s@);
    let mut b: usize = s.len();
    if back {
        while b > a && in_class_exec(s[b - 1], set, ws)
            invariant
                a <= b <= s@.len(),
                strip_end(s@.subrange(a as int, s@.len() as int), set@, ws) == strip_end(
                    s@.subrange(a as int, b as int),
                    set@,
                    ws,
                ),
            decreases b,
        {
            assert(s@.subrange(a as int, b as int).drop_last() =~= s@.subrange(a as int, b - 1));
            b = b - 1;
        }
    }
    copy_range(s, a, b)
}

/// `str::trim`.
pub fn trim_chars(s: &[char]) -> (r: Vec<char>)
    ensures
        r@ == trim(s@),
{
    let empty: Vec<char> = Vec::new();
    strip_chars(s, &empty, true, true, true)
}

/// Removes every character of the literal class `lit` from both ends.
pub fn strip_lit(s: &[char], lit: &str) -> (r: Vec<char>)
    ensures
        r@ == strip(s@, lit@, false),
{
    let l = chars_of(lit);
    strip_chars(s, &l, false, true, true)
}

/// Removes every trailing character of the literal class `lit`.
pub fn strip_end_lit(s: &[char], lit: &str) -> (r: Vec<char>)
    ensures
        r@ == strip_end(s@, lit@, false),
{
    let l = chars_of(lit);
    strip_chars(s, &l, false, false, true)
}

/// Removes repeated leading copies of `p` (`str::trim_start_matches` with a string).
pub open spec fn strip_prefix_all(s: Seq<char>, p: Seq<char>) -> Seq<char>
    decreases s.len(),
{
    if p.len() > 0 && has_prefix(s, p) {
        strip_prefix_all(s.subrange(p.len() as int, s.len() as int), p)
    } else {
        s
    }
}

/// `str::trim_start_matches` with the literal `lit` as the pattern.
pub fn strip_prefix_all_lit(s: &[char], lit: &str) -> (r: Vec<char>)
    ensures
        r@ == strip_prefix_all(s@, lit@),
{
    let p = chars_of(lit);
    let mut a: usize = 0;
    assert(s@.subrange(0, s@.len() as int) =~= s@);
    if p.len() > 0 {
        while a < s.len() && p.len() <= s.len() - a && matches_at(s, &p, a)
            invariant
                a <= s@.len(),
                p@.len() > 0,
                strip_prefix_all(s@, p@) == strip_prefix_all(s@.subrange(a as int, s@.len() as int), p@),
            decreases s.len() - a,
        {
            let ghost t = s@.subrange(a as int, s@.len() as int);
            assert(t.subrange(0, p@.len() as int) =~= s@.subrange(a as int, a + p@.len()));
            assert(t.subrange(p@.len() as int, t.len() as int) =~= s@.subrange(
                a + p@.len(),
                s@.len() as int,
            ));
            a = a + p.len();
        }
        let ghost t = s@.subrange(a as int, s@.len() as int);
        if a < s.len() || p.len() > s.len() - a {
            assert(!has_prefix(t, p@)) by {
                if has_prefix(t, p@) {
                    assert(t.subrange(0, p@.len() as int) =~= s@.subrange(a as int, a + p@.len()));
                }
            }
        }
    }
    assert(s@.subrange(0, s@.len() as int) =~= s@);
    copy_range(s, a, s.len())
}

// ---------------------------------------------------------------------------
// Splitting
// ---------------------------------------------------------------------------

/// `str::split` on any character of `set`: every piece, empty ones included.
pub open spec fn split_by(s: Seq<char>, set: Seq<char>) -> Seq<Seq<char>>
    decreases s.len(),
{
    if s.len() == 0 {
        seq![Seq::empty()]
    } else {
        let prev = split_by(s.drop_last(), set);
        if set.contains(s.last()) {
            prev.push(Seq::empty())
        } else {
            prev.update(prev.len() - 1, prev.last().push(s.last()))
        }
    }
}

/// There is always at least one piece.
pub proof fn lemma_split_nonempty(s: Seq<char>, set: Seq<char>)
    ensures
        split_by(s, set).len() >= 1,
    decreases s.len(),
{
    if s.len() > 0 {
        lemma_split_nonempty(s.drop_last(), set);
    }
}

/// A string with no separator in it is a single piece.
pub proof fn lemma_split_whole(s: Seq<char>, set: Seq<char>)
    requires
        forall|i: int| 0 <= i < s.len() ==> !set.contains(#[trigger] s[i]),
    ensures
        split_by(s, set) == seq![s],
    decreases s.len(),
{
    if s.len() == 0 {
        assert(s =~= Seq::<char>::empty());
    } else {
        assert forall|i: int| 0 <= i < s.drop_last().len() implies !set.contains(
            #[trigger] s.drop_last()[i],
        ) by {
            assert(s.drop_last()[i] == s[i]);
        }
        lemma_split_whole(s.drop_last(), set);
        assert(!set.contains(s[s.len() - 1]));
        assert(s.drop_last().push(s.last()) =~= s);
        assert(seq![s.drop_last()].update(0, s) =~= seq![s]);
    }
}

/// The first piece of `a + b` is `a` when `a` holds no separator and `b`
/// begins with one.
pub proof fn lemma_split_first_piece(a: Seq<char>, b: Seq<char>, set: Seq<char>)
    requires
        forall|i: int| 0 <= i < a.len() ==> !set.contains(#[trigger] a[i]),
        b.len() > 0,
        set.contains(b[0]),
    ensures
        split_by(a + b, set).len() >= 2,
        split_by(a + b, set)[0] == a,
    decreases b.len(),
{
    if b.len() == 1 {
        lemma_split_whole(a, set);
        assert((a + b).drop_last() =~= a);
    } else {
        lemma_split_first_piece(a, b.drop_last(), set);
        assert((a + b).drop_last() =~= a + b.drop_last());
    }
}

/// Stripping the end of `a + b` stops inside `b` when `a` ends outside the class.
pub proof fn lemma_strip_end_after(a: Seq<char>, b: Seq<char>, set: Seq<char>, ws: bool)
    requires
        a.len() > 0,
        !in_class(a.last(), set, ws),
    ensures
        strip_end(a + b, set, ws) == a + strip_end(b, set, ws),
    decreases b.len(),
{
    if b.len() == 0 {
        assert(a + b =~= a);
        assert(a + Seq::<char>::empty() =~= a);
    } else {
        assert((a + b).last() == b.last());
        if in_class(b.last(), set, ws) {
            assert((a + b).drop_last() =~= a + b.drop_last());
            lemma_strip_end_after(a, b.drop_last(), set, ws);
        }
    }
}

/// Stripping the end leaves a prefix.
pub proof fn lemma_strip_end_prefix(s: Seq<char>, set: Seq<char>, ws: bool)
    ensures
        strip_end(s, set, ws).len() <= s.len(),
        strip_end(s, set, ws) == s.subrange(0, strip_end(s, set, ws).len() as int),
    decreases s.len(),
{
    if s.len() > 0 && in_class(s.last(), set, ws) {
        lemma_strip_end_prefix(s.drop_last(), set, ws);
        let r = strip_end(s.drop_last(), set, ws);
        assert(s.drop_last().subrange(0, r.len() as int) =~= s.subrange(0, r.len() as int));
    } else {
        assert(s.subrange(0, s.len() as int) =~= s);
    }
}

/// `str::trim` of `a + b`, where `a` begins and ends with non-white-space,
/// keeps `a` whole and trims only the end of `b`.
pub proof fn lemma_trim_after_head(a: Seq<char>, b: Seq<char>)
    requires
        a.len() > 0,
        !is_ws(a[0]),
        !is_ws(a.last()),
    ensures
        trim(a + b) == a + strip_end(b, Seq::empty(), true),
{
    assert((a + b)[0] == a[0]);
    assert(!Seq::<char>::empty().contains(a[0]));
    assert(!Seq::<char>::empty().contains(a.last()));
    assert(strip_start(a + b, Seq::empty(), true) == a + b);
    lemma_strip_end_after(a, b, Seq::empty(), true);
}

/// Splits `s` at every character of `set`.
pub fn split_chars(s: &[char], set: &[char]) -> (r: Vec<Vec<char>>)
    ensures
        r@.len() == split_by(s@, set@).len(),
        forall|k: int| 0 <= k < r@.len() ==> #[trigger] r@[k]@ == split_by(s@, set@)[k],
{
    let mut done: Vec<Vec<char>> = Vec::new();
    let mut cur: Vec<char> = Vec::new();
    let mut i: usize = 0;
    while i < s.len()
        invariant
            i <= s@.len(),
            done@.len() + 1 == split_by(s@.subrange(0, i as int), set@).len(),
            forall|k: int|
                0 <= k < done@.len() ==> #[trigger] done@[k]@ == split_by(
                    s@.subrange(0, i as int),
                    set@,
                )[k],
            cur@ == split_by(s@.subrange(0, i as int), set@).last(),
        decreases s.len() - i,
    {
        proof {
            lemma_split_nonempty(s@.subrange(0, i as int), set@);
        }
        assert(s@.subrange(0, i + 1).drop_last() =~= s@.subrange(0, i as int));
        let c = s[i];
        if in_class_exec(c, set, false) {
            let piece = cur;
            done.push(piece);
            cur = Vec::new();
        } else {
            cur.push(c);
        }
        i = i + 1;
    }
    assert(s@.subrange(0, s@.len() as int) =~= s@);
    done.push(cur);
    done
}

/// Splits `s` at every character of the literal class `lit`.
pub fn split_lit(s: &[char], lit: &str) -> (r: Vec<Vec<char>>)
    ensures
        r@.len() == split_by(s@, lit@).len(),
        forall|k: int| 0 <= k < r@.len() ==> #[trigger] r@[k]@ == split_by(s@, lit@)[k],
{
    let l = chars_of(lit);
    split_chars(s, &l)
}

/// Drops a carriage return that ends a line.
pub open spec fn strip_cr(s: Seq<char>) -> Seq<char> {
    if s.len() > 0 && s.last() == '\r' {
        s.drop_last()
    } else {
        s
    }
}

/// `str::lines`: pieces between `'\n'`, without a final empty piece, with
/// `"\r\n"` endings accepted.
pub open spec fn lines(s: Seq<char>) -> Seq<Seq<char>> {
    let p = split_by(s, seq!['\n']);
    let n = p.len();
    Seq::new((n - 1) as nat, |i: int| strip_cr(p[i])) + if p[n - 1].len() == 0 {
        Seq::empty()
    } else {
        seq![p[n - 1]]
    }
}

/// The lines of `s`.
pub fn lines_of(s: &[char]) -> (r: Vec<Vec<char>>)
    ensures
        r@.len() == lines(s@).len(),
        forall|k: int| 0 <= k < r@.len() ==> #[trigger] r@[k]@ == lines(s@)[k],
{
    let nl = chars_of("\n");
    assert(nl@ =~= seq!['\n']) by {
        reveal_strlit("\n");
    }
    let p = split_chars(s, &nl);
    proof {
        lemma_split_nonempty(s@, nl@);
    }
    let n = p.len();
    let mut r: Vec<Vec<char>> = Vec::new();
    let mut i: usize = 0;
    while i + 1 < n
        invariant
            n == p@.len(),
            n >= 1,
            i + 1 <= n,
            r@.len() == i,
            forall|k: int| 0 <= k < i ==> #[trigger] r@[k]@ == strip_cr(p@[k]@),
        decreases n - i,
    {
        let line = &p[i];
        let l = line.len();
        if l > 0 && line[l - 1] == '\r' {
            let t = copy_range(line, 0, l - 1);
            assert(t@ =~= line@.drop_last());
            r.push(t);
        } else {
            let t = copy_range(line, 0, l);
            assert(t@ =~= line@);
            r.push(t);
        }
        i = i + 1;
    }
    if p[n - 1].len() > 0 {
        let last = &p[n - 1];
        let t = copy_range(last, 0, last.len());
        assert(t@ =~= last@);
        r.push(t);
    }
    assert(r@.len() == lines(s@).len());
    r
}

/// The first maximal run of non-white-space characters
/// (`str::split_whitespace().next()`).
pub open spec fn first_word(s: Seq<char>) -> Option<Seq<char>> {
    let t = strip_start(s, Seq::empty(), true);
    if t.len() == 0 {
        None
    } else {
        Some(
            t.subrange(
                0,
                if exists|i: int| 0 <= i < t.len() && is_ws(t[i]) {
                    choose|i: int|
                        0 <= i < t.len() && is_ws(t[i]) && forall|j: int| 0 <= j < i ==> !is_ws(t[j])
                } else {
                    t.len() as int
                },
            ),
        )
    }
}

/// The first white-space separated word of `s`, if any.
pub fn first_word_of(s: &[char]) -> (r: Option<Vec<char>>)
    ensures
        r matches Some(w) ==> first_word(s@) == Some(w@),
        r is None ==> first_word(s@) is None,
{
    let empty: Vec<char> = Vec::new();
    let t = strip_chars(s, &empty, true, true, false);
    if t.len() == 0 {
        return None;
    }
    let mut j: usize = 0;
    while j < t.len() && !is_whitespace(t[j])
        invariant
            j <= t@.len(),
            forall|k: int| 0 <= k < j ==> !is_ws(t@[k]),
        decreases t.len() - j,
    {
        j = j + 1;
    }
    let w = copy_range(&t, 0, j);
    proof {
        if j < t@.len() {
            let c = choose|i: int|
                0 <= i < t@.len() && is_ws(t@[i]) && forall|k: int| 0 <= k < i ==> !is_ws(t@[k]);
            assert(is_ws(t@[j as int]));
            assert(c == j as int) by {
                if c < j {
                } else if c > j {
                }
            }
        }
    }
    Some(w)
}

/// Replaces every `a` by `b` (`str::replace` with single characters).
pub open spec fn replace_char(s: Seq<char>, a: char, b: char) -> Seq<char> {
    Seq::new(
        s.len(),
        |i: int|
            if s[i] == a {
                b
            } else {
                s[i]
            },
    )
}

/// Replaces every `a` by `b`.
pub fn replace_char_exec(s: &[char], a: char, b: char) -> (r: Vec<char>)
    ensures
        r@ == replace_char(s@, a, b),
{
    let mut r: Vec<char> = Vec::new();
    let mut i: usize = 0;
    while i < s.len()
        invariant
            i <= s@.len(),
            r@ == replace_char(s@, a, b).subrange(0, i as int),
        decreases s.len() - i,
    {
        assert(replace_char(s@, a, b).subrange(0, i + 1) =~= replace_char(s@, a, b).subrange(
            0,
            i as int,
        ).push(replace_char(s@, a, b)[i as int]));
        if s[i] == a {
            r.push(b);
        } else {
            r.push(s[i]);
        }
        i = i + 1;
    }
    assert(replace_char(s@, a, b).subrange(0, s@.len() as int) =~= replace_char(s@, a, b));
    r
}

} // verus!

verus! {

// ---------------------------------------------------------------------------
// Case mapping
// ---------------------------------------------------------------------------

/// What `str::to_uppercase` returns for the given characters.
pub uninterp spec fn upper(s: Seq<char>) -> Seq<char>;

/// What `str::to_lowercase` returns for the given characters.
pub uninterp spec fn lower(s: Seq<char>) -> Seq<char>;

/// Every character of `s` is ASCII.
pub open spec fn all_ascii(s: Seq<char>) -> bool {
    forall|i: int| 0 <= i < s.len() ==> (s[i] as u32) < 128
}

/// `s` with its ASCII lower-case letters made upper-case.
pub open spec fn ascii_upper(s: Seq<char>) -> Seq<char> {
    s.map_values(|c: char| if 97 <= (c as u32) && (c as u32) <= 122 { ((c as u32) - 32) as char } else { c })
}

/// `s` with its ASCII upper-case letters made lower-case.
pub open spec fn ascii_lower(s: Seq<char>) -> Seq<char> {
    s.map_values(|c: char| if 65 <= (c as u32) && (c as u32) <= 90 { ((c as u32) + 32) as char } else { c })
}

/// `str::to_uppercase`: the Unicode upper-case mapping of `s`. Its result is
/// named `upper`; of it the contract states only the ASCII case, where
/// `a`..`z` become `A`..`Z` and every other character stays.
#[verifier::external_body]
pub(crate) fn std_to_uppercase(s: &str) -> (r: String)
    ensures
        r@ == upper(s@),
        all_ascii(s@) ==> r@ == ascii_upper(s@),
{
    s.to_uppercase()
}

/// `str::to_lowercase`: the Unicode lower-case mapping of `s`. Its result is
/// named `lower`; of it the contract states only the ASCII case, where
/// `A`..`Z` become `a`..`z` and every other character stays.
#[verifier::external_body]
pub(crate) fn std_to_lowercase(s: &str) -> (r: String)
    ensures
        r@ == lower(s@),
        all_ascii(s@) ==> r@ == ascii_lower(s@),
{
    s.to_lowercase()
}

/// The upper-case form of `s`.
pub fn upper_chars(s: &[char]) -> (r: Vec<char>)
    ensures
        r@ == upper(s@),
        all_ascii(s@) ==> r@ == ascii_upper(s@),
{
    let st = string_of(s);
    let u = std_to_uppercase(st.as_str());
    chars_of(u.as_str())
}

/// The lower-case form of `s`.
pub fn lower_chars(s: &[char]) -> (r: Vec<char>)
    ensures
        r@ == lower(s@),
        all_ascii(s@) ==> r@ == ascii_lower(s@),
{
    let st = string_of(s);
    let u = std_to_lowercase(st.as_str());
    chars_of(u.as_str())
}

// ---------------------------------------------------------------------------
// Decimal numerals
// ---------------------------------------------------------------------------

/// The ASCII digit for `d < 10`.
pub open spec fn digit(d: nat) -> char {
    if d == 0 {
        '0'
    } else if d == 1 {
        '1'
    } else if d == 2 {
        '2'
    } else if d == 3 {
        '3'
    } else if d == 4 {
        '4'
    } else if d == 5 {
        '5'
    } else if d == 6 {
        '6'
    } else if d == 7 {
        '7'
    } else if d == 8 {
        '8'
    } else {
        '9'
    }
}

/// The decimal numeral of `n`, as `Display` prints it.
pub open spec fn decimal(n: nat) -> Seq<char>
    decreases n,
{
    if n < 10 {
        seq![digit(n)]
    } else {
        decimal(n / 10).push(digit(n % 10))
    }
}

/// The decimal digit of `d`.
fn digit_exec(d: u64) -> (c: char)
    requires
        d < 10,
    ensures
        c == digit(d as nat),
{
    if d == 0 {
        '0'
    } else if d == 1 {
        '1'
    } else if d == 2 {
        '2'
    } else if d == 3 {
        '3'
    } else if d == 4 {
        '4'
    } else if d == 5 {
        '5'
    } else if d == 6 {
        '6'
    } else if d == 7 {
        '7'
    } else if d == 8 {
        '8'
    } else {
        '9'
    }
}

/// Appends the decimal numeral of `n` to `out`.
pub fn push_decimal(out: &mut Vec<char>, n: u64)
    ensures
        final(out)@ == old(out)@ + decimal(n as nat),
    decreases n,
{
    if n >= 10 {
        push_decimal(out, n / 10);
    }
    out.push(digit_exec(n % 10));
    assert(final(out)@ =~= old(out)@ + decimal(n as nat));
}

// ---------------------------------------------------------------------------
// UTF-8 widths
// ---------------------------------------------------------------------------

/// The number of bytes UTF-8 uses for `c`.
pub open spec fn utf8_width(c: char) -> nat {
    let v = c as u32;
    if v < 0x80 {
        1
    } else if v < 0x800 {
        2
    } else if v < 0x10000 {
        3
    } else {
        4
    }
}

/// The UTF-8 length in bytes of `s` (`str::len`).
pub open spec fn byte_len(s: Seq<char>) -> nat
    decreases s.len(),
{
    if s.len() == 0 {
        0
    } else {
        byte_len(s.drop_last()) + utf8_width(s.last())
    }
}

/// Byte `n` of the UTF-8 encoding of `s` falls on a character boundary.
pub open spec fn char_boundary(s: Seq<char>, n: nat) -> bool {
    exists|k: int| 0 <= k <= s.len() && byte_len(#[trigger] s.subrange(0, k)) == n
}

/// A longer prefix is longer in bytes.
pub proof fn lemma_byte_len_mono(s: Seq<char>, i: int, j: int)
    requires
        0 <= i < j <= s.len(),
    ensures
        byte_len(s.subrange(0, i)) < byte_len(s.subrange(0, j)),
    decreases j - i,
{
    assert(s.subrange(0, j).drop_last() =~= s.subrange(0, j - 1));
    if i < j - 1 {
        lemma_byte_len_mono(s, i, j - 1);
    }
}

/// The prefix of `s` that is `n` bytes long in UTF-8 (`&s[..n]`), when
/// byte `n` is a character boundary.
pub open spec fn prefix_bytes(s: Seq<char>, n: nat) -> Seq<char> {
    s.subrange(0, choose|k: int| 0 <= k <= s.len() && byte_len(#[trigger] s.subrange(0, k)) == n)
}

/// Only one prefix has a given byte length.
pub proof fn lemma_prefix_bytes_unique(s: Seq<char>, n: nat, k: int)
    requires
        0 <= k <= s.len(),
        byte_len(s.subrange(0, k)) == n,
    ensures
        prefix_bytes(s, n) == s.subrange(0, k),
{
    let c = choose|c: int| 0 <= c <= s.len() && byte_len(#[trigger] s.subrange(0, c)) == n;
    if c < k {
        lemma_byte_len_mono(s, c, k);
    } else if k < c {
        lemma_byte_len_mono(s, k, c);
    }
}

/// The prefix of `s` that is `n` bytes long in UTF-8 (`&s[..n]`).
pub fn byte_prefix(s: &[char], n: usize) -> (r: Vec<char>)
    requires
        char_boundary(s@, n as nat),
    ensures
        byte_len(r@) == n,
        r@ == s@.subrange(0, r@.len() as int),
        r@ == prefix_bytes(s@, n as nat),
{
    let ghost k = choose|k: int| 0 <= k <= s@.len() && byte_len(#[trigger] s@.subrange(0, k)) == n;
    let mut acc: usize = 0;
    let mut i: usize = 0;
    assert(s@.subrange(0, 0) =~= Seq::<char>::empty());
    while acc < n
        invariant
            0 <= k <= s@.len(),
            byte_len(s@.subrange(0, k)) == n,
            i <= k,
            acc == byte_len(s@.subrange(0, i as int)),
            acc <= n,
        decreases n - acc,
    {
        proof {
            if i == k {
                assert(false);
            }
        }
        assert(s@.subrange(0, i + 1).drop_last() =~= s@.subrange(0, i as int));
        proof {
            lemma_byte_len_mono(s@, i as int, k);
            if i + 1 < k {
                lemma_byte_len_mono(s@, i + 1, k);
            }
        }
        acc = acc + utf8_width_exec(s[i]);
        i = i + 1;
    }
    proof {
        if i < k {
            lemma_byte_len_mono(s@, i as int, k);
        }
        lemma_prefix_bytes_unique(s@, n as nat, i as int);
    }
    copy_range(s, 0, i)
}

/// `char::len_utf8`.
pub fn utf8_width_exec(c: char) -> (r: usize)
    ensures
        r == utf8_width(c),
{
    let v = c as u32;
    if v < 0x80 {
        1
    } else if v < 0x800 {
        2
    } else if v < 0x10000 {
        3
    } else {
        4
    }
}

} // verus!

verus! {

/// The character views of a sequence of character vectors.
pub open spec fn seqs(v: Seq<Vec<char>>) -> Seq<Seq<char>> {
    v.map_values(|w: Vec<char>| w@)
}

/// Pushing onto a sequence of vectors pushes the view.
pub proof fn lemma_seqs_push(v: Seq<Vec<char>>, w: Vec<char>)
    ensures
        seqs(v.push(w)) == seqs(v).push(w@),
{
    assert(seqs(v.push(w)) =~= seqs(v).push(w@)) by {
        assert forall|k: int| 0 <= k < v.len() + 1 implies seqs(v.push(w))[k] == seqs(v).push(w@)[k] by {
            if k < v.len() {
                assert(v.push(w)[k] == v[k]);
            }
        }
    }
}

/// Whether some element of `v` equals `w`.
pub fn contains_seq(v: &Vec<Vec<char>>, w: &[char]) -> (r: bool)
    ensures
        r == seqs(v@).contains(w@),
{
    let mut i: usize = 0;
    while i < v.len()
        invariant
            i <= v@.len(),
            forall|k: int| 0 <= k < i ==> v@[k]@ != w@,
        decreases v.len() - i,
    {
        if same(&v[i], w) {
            assert(seqs(v@)[i as int] == w@);
            return true;
        }
        i = i + 1;
    }
    assert forall|k: int| 0 <= k < seqs(v@).len() implies seqs(v@)[k] != w@ by {
        assert(seqs(v@)[k] == v@[k]@);
    }
    false
}

/// `parts` joined by `sep`.
pub open spec fn join(parts: Seq<Seq<char>>, sep: Seq<char>) -> Seq<char>
    decreases parts.len(),
{
    if parts.len() == 0 {
        Seq::empty()
    } else if parts.len() == 1 {
        parts[0]
    } else {
        join(parts.drop_last(), sep) + sep + parts.last()
    }
}

/// The parts joined by the separator.
pub fn join_exec(parts: &Vec<Vec<char>>, sep: &str) -> (r: Vec<char>)
    ensures
        r@ == join(seqs(parts@), sep@),
{
    let ghost pv = seqs(parts@);
    let mut r: Vec<char> = Vec::new();
    let mut i: usize = 0;
    while i < parts.len()
        invariant
            i <= parts@.len(),
            pv == seqs(parts@),
            r@ == join(pv.subrange(0, i as int), sep@),
        decreases parts.len() - i,
    {
        assert(pv.subrange(0, i + 1).drop_last() =~= pv.subrange(0, i as int));
        if i > 0 {
            push_str(&mut r, sep);
        }
        push_all(&mut r, &parts[i]);
        assert(pv.subrange(0, i + 1).last() == parts@[i as int]@);
        if i == 0 {
            assert(r@ =~= join(pv.subrange(0, i + 1), sep@));
        }
        i = i + 1;
    }
    assert(pv.subrange(0, pv.len() as int) =~= pv);
    r
}

} // verus!
