//! Git history: the commits of `git log`, the per-commit inventories, and
//! the timeline of cryptographic changes between consecutive commits.

use vstd::prelude::*;

use crate::models::{same_asset, CryptoAsset};
use crate::text::{
    byte_len, byte_prefix, char_boundary, chars_of, copy_range, ends_with, find, find_chars, lemma_find,
    lines, lines_of, string_of, has_suffix,
};

verus! {

/// A single commit's crypto snapshot and its delta from the previous commit.
pub struct CommitCryptoSnapshot {
    /// Short commit hash (7 characters).
    pub hash: String,
    /// Commit subject line.
    pub subject: String,
    /// Author date (YYYY-MM-DD).
    pub date: String,
    /// Number of crypto assets detected in this commit's tree.
    pub total_assets: usize,
    /// Crypto assets newly added compared to the previous commit.
    pub added: Vec<CryptoAsset>,
    /// Crypto assets removed compared to the previous commit.
    pub removed: Vec<CryptoAsset>,
}

// ---------------------------------------------------------------------------
// Asset deltas between commits
// ---------------------------------------------------------------------------

/// Two assets use the same algorithm from the same library.
pub open spec fn same_kind(a: CryptoAsset, b: CryptoAsset) -> bool {
    a.algorithm@ == b.algorithm@ && a.library_source@ == b.library_source@
}

/// Some asset of `s` uses the algorithm of `a` from its library.
pub open spec fn kind_in(a: CryptoAsset, s: Seq<CryptoAsset>) -> bool {
    exists|j: int| 0 <= j < s.len() && same_kind(a, #[trigger] s[j])
}

/// The assets of `s`, in order, whose (algorithm, library) does not occur in `other`.
pub open spec fn kinds_unmatched(s: Seq<CryptoAsset>, other: Seq<CryptoAsset>) -> Seq<CryptoAsset>
    decreases s.len(),
{
    if s.len() == 0 {
        Seq::empty()
    } else if kind_in(s.last(), other) {
        kinds_unmatched(s.drop_last(), other)
    } else {
        kinds_unmatched(s.drop_last(), other).push(s.last())
    }
}

/// `v` holds copies of the assets of `s`, in order.
pub open spec fn copies_of(v: Seq<CryptoAsset>, s: Seq<CryptoAsset>) -> bool {
    v.len() == s.len() && forall|i: int| 0 <= i < v.len() ==> same_asset(#[trigger] v[i], s[i])
}

/// Whether some asset of `others` has the kind of `a`.
fn kind_known(others: &[CryptoAsset], a: &CryptoAsset) -> (r: bool)
    ensures
        r == kind_in(*a, others@),
{
    let mut i: usize = 0;
    while i < others.len()
        invariant
            i <= others@.len(),
            forall|k: int| 0 <= k < i ==> !same_kind(*a, #[trigger] others@[k]),
        decreases others.len() - i,
    {
        if others[i].algorithm == a.algorithm && others[i].library_source == a.library_source {
            assert(same_kind(*a, others@[i as int]));
            return true;
        }
        i = i + 1;
    }
    false
}

/// Copies of the assets of `s` whose kind does not occur in `other`.
fn keep_new_kinds(s: &[CryptoAsset], other: &[CryptoAsset]) -> (r: Vec<CryptoAsset>)
    ensures
        copies_of(r@, kinds_unmatched(s@, other@)),
{
    let mut r: Vec<CryptoAsset> = Vec::new();
    let mut i: usize = 0;
    while i < s.len()
        invariant
            i <= s@.len(),
            copies_of(r@, kinds_unmatched(s@.subrange(0, i as int), other@)),
        decreases s.len() - i,
    {
        assert(s@.subrange(0, i + 1).drop_last() =~= s@.subrange(0, i as int));
        if !kind_known(other, &s[i]) {
            r.push(s[i].duplicate());
        }
        i = i + 1;
    }
    assert(s@.subrange(0, s@.len() as int) =~= s@);
    r
}

/// Compute the delta between two inventories by (algorithm, library):
/// the assets of `current` whose kind is absent from `prev` (added), then
/// those of `prev` whose kind is absent from `current` (removed).
pub fn diff_assets(prev: &[CryptoAsset], current: &[CryptoAsset]) -> (r: (Vec<CryptoAsset>, Vec<CryptoAsset>))
    ensures
        copies_of(r.0@, kinds_unmatched(current@, prev@)),
        copies_of(r.1@, kinds_unmatched(prev@, current@)),
{
    let added = keep_new_kinds(current, prev);
    let removed = keep_new_kinds(prev, current);
    (added, removed)
}

// ---------------------------------------------------------------------------
// git log
// ---------------------------------------------------------------------------

/// (hash, subject, date) of a `git log --format=%H|%s|%as` line: the text
/// before the first `|`, between the first and the second, and after the
/// second; `None` when the line has fewer than two `|`.
pub open spec fn log_entry(l: Seq<char>) -> Option<(Seq<char>, Seq<char>, Seq<char>)> {
    match find(l, seq!['|']) {
        None => None,
        Some(i) => {
            let rest = l.subrange(i + 1, l.len() as int);
            match find(rest, seq!['|']) {
                None => None,
                Some(j) => Some((l.subrange(0, i), rest.subrange(0, j), rest.subrange(j + 1, rest.len() as int))),
            }
        },
    }
}

/// The commits of the lines of a `git log` output, empty lines and lines
/// without the three fields skipped.
pub open spec fn log_commits(ls: Seq<Seq<char>>) -> Seq<(Seq<char>, Seq<char>, Seq<char>)>
    decreases ls.len(),
{
    if ls.len() == 0 {
        Seq::empty()
    } else {
        let prev = log_commits(ls.drop_last());
        if ls.last().len() == 0 {
            prev
        } else {
            match log_entry(ls.last()) {
                Some(e) => prev.push(e),
                None => prev,
            }
        }
    }
}

/// Commit triples as characters.
pub open spec fn commits_view(v: Seq<(String, String, String)>) -> Seq<(Seq<char>, Seq<char>, Seq<char>)> {
    v.map_values(|c: (String, String, String)| (c.0@, c.1@, c.2@))
}

/// The fields of one log line.
fn log_entry_exec(l: &[char]) -> (r: Option<(String, String, String)>)
    ensures
        r matches Some(e) ==> log_entry(l@) == Some((e.0@, e.1@, e.2@)),
        r is None ==> log_entry(l@) is None,
{
    let bar = chars_of("|");
    proof {
        reveal_strlit("|");
        assert(bar@ =~= seq!['|']);
    }
    let i = match find_chars(l, &bar) {
        Some(i) => i,
        None => return None,
    };
    proof {
        lemma_find(l@, bar@);
    }
    let n = l.len();
    assert(i + 1 <= n);
    let rest = copy_range(l, i + 1, n);
    let j = match find_chars(&rest, &bar) {
        Some(j) => j,
        None => return None,
    };
    proof {
        lemma_find(rest@, bar@);
    }
    let a = copy_range(l, 0, i);
    let b = copy_range(&rest, 0, j);
    let c = copy_range(&rest, j + 1, rest.len());
    Some((string_of(&a), string_of(&b), string_of(&c)))
}

/// Parse the output of `git log --format=%H|%s|%as` into (hash, subject,
/// date) triples, newest first as git lists them.
pub fn parse_git_log(log: &str) -> (r: Vec<(String, String, String)>)
    ensures
        commits_view(r@) == log_commits(lines(log@)),
{
    let src = chars_of(log);
    let ls = lines_of(&src);
    let ghost all = lines(log@);
    let mut r: Vec<(String, String, String)> = Vec::new();
    let mut i: usize = 0;
    while i < ls.len()
        invariant
            i <= ls@.len(),
            ls@.len() == all.len(),
            forall|k: int| 0 <= k < ls@.len() ==> #[trigger] ls@[k]@ == all[k],
            commits_view(r@) == log_commits(all.subrange(0, i as int)),
        decreases ls.len() - i,
    {
        assert(all.subrange(0, i + 1).drop_last() =~= all.subrange(0, i as int));
        assert(all.subrange(0, i + 1).last() == ls@[i as int]@);
        if ls[i].len() > 0 {
            match log_entry_exec(&ls[i]) {
                Some(e) => {
                    r.push(e);
                    assert(commits_view(r@) =~= log_commits(all.subrange(0, i as int)).push((e.0@, e.1@, e.2@)));
                },
                None => {},
            }
        }
        i = i + 1;
    }
    assert(all.subrange(0, ls@.len() as int) =~= all);
    r
}

// ---------------------------------------------------------------------------
// The timeline
// ---------------------------------------------------------------------------

/// `r` is the short form of the hash `h`: its first 7 bytes.
pub open spec fn is_short_hash(r: Seq<char>, h: Seq<char>) -> bool {
    if byte_len(h) <= 7 {
        r == h
    } else {
        byte_len(r) == 7 && r == h.subrange(0, r.len() as int)
    }
}

/// A hash that can be cut after 7 bytes (git hashes are ASCII).
pub open spec fn cuttable_hash(h: Seq<char>) -> bool {
    byte_len(h) <= 7 || char_boundary(h, 7)
}

/// The UTF-8 length of a character sequence.
fn byte_len_exec(s: &[char]) -> (r: usize)
    requires
        s@.len() <= usize::MAX / 4,
    ensures
        r == byte_len(s@),
{
    let mut n: usize = 0;
    let mut i: usize = 0;
    while i < s.len()
        invariant
            i <= s@.len(),
            s@.len() <= usize::MAX / 4,
            n == byte_len(s@.subrange(0, i as int)),
            n <= 4 * i,
        decreases s.len() - i,
    {
        assert(s@.subrange(0, i + 1).drop_last() =~= s@.subrange(0, i as int));
        n = n + crate::text::utf8_width_exec(s[i]);
        i = i + 1;
    }
    assert(s@.subrange(0, s@.len() as int) =~= s@);
    n
}

/// The first 7 bytes of a hash (all of it when shorter).
pub fn short_hash(hash: &str) -> (r: String)
    requires
        cuttable_hash(hash@),
    ensures
        is_short_hash(r@, hash@),
{
    let h = chars_of(hash);
    proof {
        lemma_byte_len_at_least(h@);
    }
    let long = if h.len() > 7 {
        true
    } else {
        byte_len_exec(&h) > 7
    };
    if !long {
        return string_of(&h);
    }
    let p = byte_prefix(&h, 7);
    string_of(&p)
}

/// A string is at least as long in bytes as in characters.
proof fn lemma_byte_len_at_least(s: Seq<char>)
    ensures
        byte_len(s) >= s.len(),
        byte_len(s) <= 4 * s.len(),
    decreases s.len(),
{
    if s.len() > 0 {
        lemma_byte_len_at_least(s.drop_last());
    }
}

/// `s` is the snapshot of commit `c` whose inventory is `cur`, after the
/// older commit whose inventory is `prev`.
pub open spec fn is_snapshot(
    s: CommitCryptoSnapshot,
    c: (Seq<char>, Seq<char>, Seq<char>),
    prev: Seq<CryptoAsset>,
    cur: Seq<CryptoAsset>,
) -> bool {
    &&& is_short_hash(s.hash@, c.0)
    &&& s.subject@ == c.1
    &&& s.date@ == c.2
    &&& s.total_assets == cur.len()
    &&& copies_of(s.added@, kinds_unmatched(cur, prev))
    &&& copies_of(s.removed@, kinds_unmatched(prev, cur))
}

/// The inventory of the commit older than commit `k` (none for the oldest).
pub open spec fn older_inventory(scans: Seq<Vec<CryptoAsset>>, k: int) -> Seq<CryptoAsset> {
    if k + 1 < scans.len() {
        scans[k + 1]@
    } else {
        Seq::empty()
    }
}

/// Build the timeline of the commits (newest first, as `git log` lists
/// them) from the inventory of each commit: each snapshot records the
/// delta from the next older commit; the oldest is compared with nothing.
pub fn build_timeline(commits: &Vec<(String, String, String)>, scans: &Vec<Vec<CryptoAsset>>) -> (r: Vec<CommitCryptoSnapshot>)
    requires
        commits@.len() == scans@.len(),
        forall|k: int| 0 <= k < commits@.len() ==> cuttable_hash(#[trigger] commits@[k].0@),
    ensures
        r@.len() == commits@.len(),
        forall|k: int|
            0 <= k < r@.len() ==> is_snapshot(
                #[trigger] r@[k],
                commits_view(commits@)[k],
                older_inventory(scans@, k),
                scans@[k]@,
            ),
{
    let n = commits.len();
    let mut timeline: Vec<CommitCryptoSnapshot> = Vec::new();
    let mut k: usize = 0;
    let empty: Vec<CryptoAsset> = Vec::new();
    while k < n
        invariant
            n == commits@.len(),
            n == scans@.len(),
            k <= n,
            empty@.len() == 0,
            forall|j: int| 0 <= j < commits@.len() ==> cuttable_hash(#[trigger] commits@[j].0@),
            timeline@.len() == k,
            forall|j: int|
                0 <= j < k ==> is_snapshot(
                    #[trigger] timeline@[j],
                    commits_view(commits@)[j],
                    older_inventory(scans@, j),
                    scans@[j]@,
                ),
        decreases n - k,
    {
        let cur = &scans[k];
        let prev: &Vec<CryptoAsset> = if k + 1 < n {
            &scans[k + 1]
        } else {
            &empty
        };
        let (added, removed) = diff_assets(prev.as_slice(), cur.as_slice());
        let c = &commits[k];
        let snap = CommitCryptoSnapshot {
            hash: short_hash(c.0.as_str()),
            subject: c.1.clone(),
            date: c.2.clone(),
            total_assets: cur.len(),
            added,
            removed,
        };
        assert(commits_view(commits@)[k as int] == (c.0@, c.1@, c.2@));
        assert(prev@ == older_inventory(scans@, k as int));
        assert(is_snapshot(snap, commits_view(commits@)[k as int], older_inventory(scans@, k as int), scans@[k as int]@));
        timeline.push(snap);
        k = k + 1;
    }
    timeline
}

/// The file extensions and names that a commit scan reads.
pub open spec fn scannable(p: Seq<char>) -> bool {
    has_suffix(p, ".py"@) || has_suffix(p, ".js"@) || has_suffix(p, ".ts"@) || has_suffix(p, ".java"@)
        || has_suffix(p, ".go"@) || has_suffix(p, ".rs"@) || has_suffix(p, ".cs"@) || has_suffix(p, ".c"@)
        || has_suffix(p, ".cpp"@) || has_suffix(p, ".h"@) || has_suffix(p, ".pem"@) || has_suffix(p, ".crt"@)
        || has_suffix(p, ".cer"@) || has_suffix(p, ".der"@) || has_suffix(p, "requirements.txt"@)
        || has_suffix(p, "Pipfile.lock"@) || has_suffix(p, "package-lock.json"@) || has_suffix(p, "yarn.lock"@)
        || has_suffix(p, "Cargo.lock"@)
}

/// Whether a file of a commit's tree is worth extracting for a scan:
/// source code, certificates and lockfiles.
pub fn is_scannable_path(file_path: &str) -> (r: bool)
    ensures
        r == scannable(file_path@),
{
    let p = chars_of(file_path);
    ends_with(&p, ".py") || ends_with(&p, ".js") || ends_with(&p, ".ts") || ends_with(&p, ".java")
        || ends_with(&p, ".go") || ends_with(&p, ".rs") || ends_with(&p, ".cs") || ends_with(&p, ".c")
        || ends_with(&p, ".cpp") || ends_with(&p, ".h") || ends_with(&p, ".pem") || ends_with(&p, ".crt")
        || ends_with(&p, ".cer") || ends_with(&p, ".der") || ends_with(&p, "requirements.txt")
        || ends_with(&p, "Pipfile.lock") || ends_with(&p, "package-lock.json") || ends_with(&p, "yarn.lock")
        || ends_with(&p, "Cargo.lock")
}

// ---------------------------------------------------------------------------
// Laws
// ---------------------------------------------------------------------------

/// Source extensions the scanner reads on the working tree but that the
/// history timeline does not extract from a commit: only the main
/// extension of each language is.
pub open spec fn history_unextracted_source_extensions() -> Seq<Seq<char>> {
    seq!["mjs"@, "cjs"@, "cc"@, "cxx"@, "hpp"@, "hxx"@]
}

/// Every certificate extension, and every source extension of the scanner
/// (`.py`, `.js`, `.java`, `.go`, `.cs`, `.c`, `.cpp`, `.h`) but the
/// alternative spellings above, is extracted from each commit: a Java,
/// Go or C# project's crypto shows in the timeline.
pub proof fn law_scanned_extensions_are_extracted(p: Seq<char>, e: Seq<char>)
    requires
        crate::files::cert_extensions().contains(e) || (crate::files::source_kind(e) is Some
            && !history_unextracted_source_extensions().contains(e)),
        has_suffix(p, "."@ + e),
    ensures
        scannable(p),
{
    reveal_strlit(".");
    reveal_strlit("pem");
    reveal_strlit("crt");
    reveal_strlit("cer");
    reveal_strlit("der");
    reveal_strlit("py");
    reveal_strlit("js");
    reveal_strlit("java");
    reveal_strlit("c");
    reveal_strlit("h");
    reveal_strlit("cpp");
    reveal_strlit("cs");
    reveal_strlit("go");
    reveal_strlit("mjs");
    reveal_strlit("cjs");
    reveal_strlit("cc");
    reveal_strlit("cxx");
    reveal_strlit("hpp");
    reveal_strlit("hxx");
    reveal_strlit(".pem");
    reveal_strlit(".crt");
    reveal_strlit(".cer");
    reveal_strlit(".der");
    reveal_strlit(".py");
    reveal_strlit(".js");
    reveal_strlit(".java");
    reveal_strlit(".c");
    reveal_strlit(".h");
    reveal_strlit(".cpp");
    reveal_strlit(".cs");
    reveal_strlit(".go");
    if crate::files::cert_extensions().contains(e) {
        let k = choose|k: int| 0 <= k < crate::files::cert_extensions().len() && crate::files::cert_extensions()[k] == e;
        assert(k == 0 || k == 1 || k == 2 || k == 3);
    } else {
        let u = history_unextracted_source_extensions();
        assert(u[0] == "mjs"@ && u[1] == "cjs"@ && u[2] == "cc"@ && u[3] == "cxx"@ && u[4] == "hpp"@ && u[5] == "hxx"@);
    }
    if e == "pem"@ {
        assert("."@ + e =~= ".pem"@);
    } else if e == "crt"@ {
        assert("."@ + e =~= ".crt"@);
    } else if e == "cer"@ {
        assert("."@ + e =~= ".cer"@);
    } else if e == "der"@ {
        assert("."@ + e =~= ".der"@);
    } else if e == "py"@ {
        assert("."@ + e =~= ".py"@);
    } else if e == "js"@ {
        assert("."@ + e =~= ".js"@);
    } else if e == "java"@ {
        assert("."@ + e =~= ".java"@);
    } else if e == "c"@ {
        assert("."@ + e =~= ".c"@);
    } else if e == "h"@ {
        assert("."@ + e =~= ".h"@);
    } else if e == "cpp"@ {
        assert("."@ + e =~= ".cpp"@);
    } else if e == "cs"@ {
        assert("."@ + e =~= ".cs"@);
    } else if e == "go"@ {
        assert("."@ + e =~= ".go"@);
    }
}

/// Every asset of the oldest commit counts as added, and nothing as
/// removed: it is compared with an empty inventory.
pub proof fn law_first_commit_adds_everything(s: Seq<CryptoAsset>)
    ensures
        kinds_unmatched(s, Seq::empty()) == s,
        kinds_unmatched(Seq::<CryptoAsset>::empty(), s).len() == 0,
    decreases s.len(),
{
    if s.len() > 0 {
        law_first_commit_adds_everything(s.drop_last());
        assert(kinds_unmatched(s, Seq::empty()) =~= s);
    }
}

/// Two commits with the same inventory show no change.
pub proof fn law_unchanged_inventory_shows_no_change(s: Seq<CryptoAsset>)
    ensures
        kinds_unmatched(s, s).len() == 0,
{
    lemma_kinds_known(s, s);
}

/// Assets whose kinds all occur in `other` leave nothing unmatched.
proof fn lemma_kinds_known(s: Seq<CryptoAsset>, other: Seq<CryptoAsset>)
    requires
        forall|j: int| 0 <= j < s.len() ==> other.contains(#[trigger] s[j]),
    ensures
        kinds_unmatched(s, other).len() == 0,
    decreases s.len(),
{
    if s.len() > 0 {
        let t = s.drop_last();
        assert forall|j: int| 0 <= j < t.len() implies other.contains(#[trigger] t[j]) by {
            assert(t[j] == s[j]);
        }
        lemma_kinds_known(t, other);
        let k = choose|k: int| 0 <= k < other.len() && other[k] == s.last();
        assert(same_kind(s.last(), other[k]));
    }
}

/// An asset of the newer commit is reported as added exactly when no asset
/// of the older commit uses its algorithm from its library.
pub proof fn law_added_are_new_kinds(cur: Seq<CryptoAsset>, prev: Seq<CryptoAsset>, a: CryptoAsset)
    requires
        cur.contains(a),
    ensures
        kinds_unmatched(cur, prev).contains(a) <==> !kind_in(a, prev),
{
    lemma_unmatched_members(cur, prev, a);
}

/// An asset is left unmatched exactly when it belongs to `s` and its kind
/// is absent from `other`.
proof fn lemma_unmatched_members(s: Seq<CryptoAsset>, other: Seq<CryptoAsset>, a: CryptoAsset)
    ensures
        kinds_unmatched(s, other).contains(a) <==> (s.contains(a) && !kind_in(a, other)),
    decreases s.len(),
{
    if s.len() > 0 {
        let t = s.drop_last();
        let u = kinds_unmatched(t, other);
        lemma_unmatched_members(t, other, a);
        if t.contains(a) {
            let k = choose|k: int| 0 <= k < t.len() && t[k] == a;
            assert(s[k] == a);
        }
        if s.contains(a) && s.last() != a {
            let k = choose|k: int| 0 <= k < s.len() && s[k] == a;
            assert(k < t.len());
            assert(t[k] == a);
        }
        if s.last() == a {
            assert(s[s.len() - 1] == a);
        }
        if kind_in(s.last(), other) {
            assert(kinds_unmatched(s, other) == u);
        } else {
            let w = u.push(s.last());
            assert(kinds_unmatched(s, other) == w);
            if u.contains(a) {
                let j = choose|j: int| 0 <= j < u.len() && u[j] == a;
                assert(w[j] == a);
            }
            if w.contains(a) && !u.contains(a) {
                let j = choose|j: int| 0 <= j < w.len() && w[j] == a;
                if j < u.len() {
                    assert(u[j] == a);
                }
            }
            assert(w[u.len() as int] == s.last());
        }
    }
}

} // verus!
