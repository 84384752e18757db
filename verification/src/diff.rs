//! Diff engine: compares a base CBOM with a head CBOM and reports the
//! cryptographic assets that were introduced or removed.

use vstd::prelude::*;

use crate::models::{same_asset, CryptoAsset};
use crate::policy::{deprecated, evaluate_all, has_critical, has_deprecated, is_evaluation_of};
use crate::text::upper;

verus! {

/// The result of comparing two CBOMs.
pub struct DiffResult {
    /// Crypto assets present in `head` but absent from `base` (evaluated).
    pub added: Vec<CryptoAsset>,
    /// Crypto assets present in `base` but absent from `head`.
    pub removed: Vec<CryptoAsset>,
    /// Whether any added asset violates strict policy.
    pub has_violations: bool,
}

/// The identity used to compare two assets: algorithm, file path, line
/// number and library, ignoring the richer context fields.
pub struct CryptoFingerprint {
    pub algorithm: String,
    pub file_path: String,
    pub line_number: usize,
    pub library_source: String,
}

/// `f` is the fingerprint of `a`.
pub open spec fn fp_of(f: CryptoFingerprint, a: CryptoAsset) -> bool {
    &&& f.algorithm@ == a.algorithm@
    &&& f.file_path@ == a.file_path@
    &&& f.line_number == a.line_number
    &&& f.library_source@ == a.library_source@
}

/// Two assets have the same identity for diff purposes.
pub open spec fn same_identity(a: CryptoAsset, b: CryptoAsset) -> bool {
    &&& a.algorithm@ == b.algorithm@
    &&& a.file_path@ == b.file_path@
    &&& a.line_number == b.line_number
    &&& a.library_source@ == b.library_source@
}

/// Some asset of `s` has the identity of `a`.
pub open spec fn identity_in(a: CryptoAsset, s: Seq<CryptoAsset>) -> bool {
    exists|j: int| 0 <= j < s.len() && same_identity(a, #[trigger] s[j])
}

/// The assets of `s`, in order, whose identity does not occur in `other`.
pub open spec fn unmatched(s: Seq<CryptoAsset>, other: Seq<CryptoAsset>) -> Seq<CryptoAsset>
    decreases s.len(),
{
    if s.len() == 0 {
        Seq::empty()
    } else if identity_in(s.last(), other) {
        unmatched(s.drop_last(), other)
    } else {
        unmatched(s.drop_last(), other).push(s.last())
    }
}

/// `r` is what `diff_cbom(base, head, strict)` returns.
pub open spec fn is_diff_of(base: Seq<CryptoAsset>, head: Seq<CryptoAsset>, strict: bool, r: DiffResult) -> bool {
    let new_assets = unmatched(head, base);
    let gone = unmatched(base, head);
    &&& r.added@.len() == new_assets.len()
    &&& forall|i: int| 0 <= i < new_assets.len() ==> is_evaluation_of(#[trigger] new_assets[i], r.added@[i])
    &&& r.removed@.len() == gone.len()
    &&& forall|i: int| 0 <= i < gone.len() ==> same_asset(#[trigger] r.removed@[i], gone[i])
    &&& r.has_violations == (strict && ((exists|i: int|
        0 <= i < r.added@.len() && deprecated(upper(#[trigger] r.added@[i].algorithm@))) || (exists|i: int|
        0 <= i < r.added@.len() && #[trigger] r.added@[i].severity == crate::models::Severity::Critical)))
}

/// The fingerprint of an asset.
pub fn fingerprint(asset: &CryptoAsset) -> (f: CryptoFingerprint)
    ensures
        fp_of(f, *asset),
{
    CryptoFingerprint {
        algorithm: asset.algorithm.clone(),
        file_path: asset.file_path.clone(),
        line_number: asset.line_number,
        library_source: asset.library_source.clone(),
    }
}

/// The fingerprint of each asset, in order.
fn fingerprints(assets: &[CryptoAsset]) -> (r: Vec<CryptoFingerprint>)
    ensures
        r@.len() == assets@.len(),
        forall|i: int| 0 <= i < r@.len() ==> fp_of(#[trigger] r@[i], assets@[i]),
{
    let mut r: Vec<CryptoFingerprint> = Vec::new();
    let mut i: usize = 0;
    while i < assets.len()
        invariant
            i <= assets@.len(),
            r@.len() == i,
            forall|k: int| 0 <= k < i ==> fp_of(#[trigger] r@[k], assets@[k]),
        decreases assets.len() - i,
    {
        r.push(fingerprint(&assets[i]));
        i = i + 1;
    }
    r
}

/// Whether the identity of `asset` occurs among the fingerprinted assets.
fn fingerprint_known(set: &Vec<CryptoFingerprint>, others: Ghost<Seq<CryptoAsset>>, asset: &CryptoAsset) -> (r: bool)
    requires
        set@.len() == others@.len(),
        forall|i: int| 0 <= i < set@.len() ==> fp_of(#[trigger] set@[i], others@[i]),
    ensures
        r == identity_in(*asset, others@),
{
    let mut i: usize = 0;
    while i < set.len()
        invariant
            i <= set@.len(),
            set@.len() == others@.len(),
            forall|k: int| 0 <= k < set@.len() ==> fp_of(#[trigger] set@[k], others@[k]),
            forall|k: int| 0 <= k < i ==> !same_identity(*asset, #[trigger] others@[k]),
        decreases set.len() - i,
    {
        let f = &set[i];
        if f.algorithm == asset.algorithm && f.file_path == asset.file_path && f.line_number
            == asset.line_number && f.library_source == asset.library_source {
            assert(same_identity(*asset, others@[i as int]));
            return true;
        }
        i = i + 1;
    }
    false
}

/// Copies of the assets of `s` whose identity is absent from `other`.
fn keep_unmatched(s: &[CryptoAsset], other: &[CryptoAsset]) -> (r: Vec<CryptoAsset>)
    ensures
        r@.len() == unmatched(s@, other@).len(),
        forall|i: int| 0 <= i < r@.len() ==> same_asset(#[trigger] r@[i], unmatched(s@, other@)[i]),
{
    let set = fingerprints(other);
    let mut r: Vec<CryptoAsset> = Vec::new();
    let mut i: usize = 0;
    while i < s.len()
        invariant
            i <= s@.len(),
            set@.len() == other@.len(),
            forall|k: int| 0 <= k < set@.len() ==> fp_of(#[trigger] set@[k], other@[k]),
            r@.len() == unmatched(s@.subrange(0, i as int), other@).len(),
            forall|k: int|
                0 <= k < r@.len() ==> same_asset(
                    #[trigger] r@[k],
                    unmatched(s@.subrange(0, i as int), other@)[k],
                ),
        decreases s.len() - i,
    {
        assert(s@.subrange(0, i + 1).drop_last() =~= s@.subrange(0, i as int));
        if !fingerprint_known(&set, Ghost(other@), &s[i]) {
            r.push(s[i].duplicate());
        }
        i = i + 1;
    }
    assert(s@.subrange(0, s@.len() as int) =~= s@);
    r
}

/// Compare a base CBOM against a head CBOM: `added` are the head assets
/// whose identity (algorithm, file path, line number, library) is absent
/// from the base, evaluated by the policy engine; `removed` are the base
/// assets whose identity is absent from the head; in strict mode
/// `has_violations` tells whether an added asset is deprecated or critical.
pub fn diff_cbom(base: &[CryptoAsset], head: &[CryptoAsset], strict: bool) -> (r: DiffResult)
    ensures
        is_diff_of(base@, head@, strict, r),
{
    let mut added = keep_unmatched(head, base);
    let removed = keep_unmatched(base, head);
    let ghost copies = added@;
    // Evaluate added assets through the policy engine
    evaluate_all(&mut added);
    proof {
        assert forall|i: int| 0 <= i < unmatched(head@, base@).len() implies is_evaluation_of(
            #[trigger] unmatched(head@, base@)[i],
            added@[i],
        ) by {
            assert(same_asset(copies[i], unmatched(head@, base@)[i]));
            assert(is_evaluation_of(copies[i], added@[i]));
        }
    }
    let has_violations = if strict {
        has_deprecated(added.as_slice()) || has_critical(added.as_slice())
    } else {
        false
    };
    DiffResult { added, removed, has_violations }
}

} // verus!

verus! {

// ---------------------------------------------------------------------------
// Laws
// ---------------------------------------------------------------------------

/// The unmatched assets are exactly the assets of `s` whose identity is
/// absent from `other`.
proof fn lemma_unmatched_members(s: Seq<CryptoAsset>, other: Seq<CryptoAsset>)
    ensures
        forall|k: int|
            0 <= k < unmatched(s, other).len() ==> !identity_in(
                #[trigger] unmatched(s, other)[k],
                other,
            ) && exists|j: int| 0 <= j < s.len() && s[j] == unmatched(s, other)[k],
        forall|j: int|
            0 <= j < s.len() && !identity_in(#[trigger] s[j], other) ==> exists|k: int|
                0 <= k < unmatched(s, other).len() && unmatched(s, other)[k] == s[j],
    decreases s.len(),
{
    if s.len() > 0 {
        let t = s.drop_last();
        lemma_unmatched_members(t, other);
        let u = unmatched(s, other);
        assert forall|k: int| 0 <= k < u.len() implies !identity_in(#[trigger] u[k], other) && exists|
            j: int,
        | 0 <= j < s.len() && s[j] == u[k] by {
            if k < unmatched(t, other).len() {
                let j = choose|j: int| 0 <= j < t.len() && t[j] == unmatched(t, other)[k];
                assert(s[j] == u[k]);
            } else {
                assert(s[s.len() - 1] == u[k]);
            }
        }
        assert forall|j: int| 0 <= j < s.len() && !identity_in(#[trigger] s[j], other) implies exists|
            k: int,
        | 0 <= k < u.len() && u[k] == s[j] by {
            if j < s.len() - 1 {
                assert(t[j] == s[j]);
                let k = choose|k: int|
                    0 <= k < unmatched(t, other).len() && unmatched(t, other)[k] == t[j];
                assert(u[k] == s[j]);
            } else {
                assert(u[u.len() - 1] == s[j]);
            }
        }
    }
}

/// Assets whose identities all occur in `other` leave nothing unmatched.
proof fn lemma_unmatched_all_known(s: Seq<CryptoAsset>, other: Seq<CryptoAsset>)
    requires
        forall|j: int| 0 <= j < s.len() ==> identity_in(#[trigger] s[j], other),
    ensures
        unmatched(s, other).len() == 0,
    decreases s.len(),
{
    if s.len() > 0 {
        let t = s.drop_last();
        assert forall|j: int| 0 <= j < t.len() implies identity_in(#[trigger] t[j], other) by {
            assert(t[j] == s[j]);
        }
        lemma_unmatched_all_known(t, other);
        assert(identity_in(s[s.len() - 1], other));
    }
}

/// Comparing an inventory with itself reports nothing added and nothing
/// removed, and no violation.
pub proof fn law_identical_inventories_have_no_delta(s: Seq<CryptoAsset>, strict: bool, r: DiffResult)
    requires
        is_diff_of(s, s, strict, r),
    ensures
        r.added@.len() == 0,
        r.removed@.len() == 0,
        !r.has_violations,
{
    assert forall|j: int| 0 <= j < s.len() implies identity_in(#[trigger] s[j], s) by {
        assert(same_identity(s[j], s[j]));
    }
    lemma_unmatched_all_known(s, s);
}

/// The added assets are exactly the head assets whose identity is absent
/// from the base: each added asset is such a head asset, and each such
/// head asset is reported as added.
pub proof fn law_added_are_exactly_the_new_assets(
    base: Seq<CryptoAsset>,
    head: Seq<CryptoAsset>,
    strict: bool,
    r: DiffResult,
)
    requires
        is_diff_of(base, head, strict, r),
    ensures
        forall|i: int|
            0 <= i < r.added@.len() ==> !identity_in(#[trigger] r.added@[i], base) && identity_in(
                r.added@[i],
                head,
            ),
        forall|j: int|
            0 <= j < head.len() && !identity_in(#[trigger] head[j], base) ==> exists|i: int|
                0 <= i < r.added@.len() && same_identity(r.added@[i], head[j]),
{
    lemma_unmatched_members(head, base);
    let u = unmatched(head, base);
    assert forall|i: int| 0 <= i < r.added@.len() implies !identity_in(#[trigger] r.added@[i], base)
        && identity_in(r.added@[i], head) by {
        assert(is_evaluation_of(u[i], r.added@[i]));
        assert(!identity_in(u[i], base));
        let j = choose|j: int| 0 <= j < head.len() && head[j] == u[i];
        assert(same_identity(r.added@[i], head[j]));
        if identity_in(r.added@[i], base) {
            let k = choose|k: int| 0 <= k < base.len() && same_identity(r.added@[i], #[trigger] base[k]);
            assert(same_identity(u[i], base[k]));
        }
    }
    assert forall|j: int| 0 <= j < head.len() && !identity_in(#[trigger] head[j], base) implies exists|
        i: int,
    | 0 <= i < r.added@.len() && same_identity(r.added@[i], head[j]) by {
        let k = choose|k: int| 0 <= k < u.len() && u[k] == head[j];
        assert(is_evaluation_of(u[k], r.added@[k]));
        assert(same_identity(r.added@[k], head[j]));
    }
}

/// Swapping base and head swaps the roles of `added` and `removed`: what
/// one comparison adds, the reverse comparison removes, in the same order.
pub proof fn law_swapping_sides_swaps_the_delta(
    base: Seq<CryptoAsset>,
    head: Seq<CryptoAsset>,
    s1: bool,
    s2: bool,
    forward: DiffResult,
    backward: DiffResult,
)
    requires
        is_diff_of(base, head, s1, forward),
        is_diff_of(head, base, s2, backward),
    ensures
        forward.added@.len() == backward.removed@.len(),
        forall|i: int|
            0 <= i < forward.added@.len() ==> same_identity(
                #[trigger] forward.added@[i],
                backward.removed@[i],
            ),
        forward.removed@.len() == backward.added@.len(),
{
    let u = unmatched(head, base);
    assert forall|i: int| 0 <= i < forward.added@.len() implies same_identity(
        #[trigger] forward.added@[i],
        backward.removed@[i],
    ) by {
        assert(is_evaluation_of(u[i], forward.added@[i]));
        assert(same_asset(backward.removed@[i], u[i]));
    }
}

/// Without strict mode a comparison never reports a violation.
pub proof fn law_lenient_comparison_never_fails(
    base: Seq<CryptoAsset>,
    head: Seq<CryptoAsset>,
    r: DiffResult,
)
    requires
        is_diff_of(base, head, false, r),
    ensures
        !r.has_violations,
{
}

} // verus!
