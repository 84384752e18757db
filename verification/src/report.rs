//! The text reports: the summary table of a scan, its overview lines, the
//! outcome of a CBOM comparison, and the timeline of a history scan.

use vstd::prelude::*;

use crate::display::{padded, push_padded, short_path, short_path_of, shortened, truncatable, truncate, truncated};
use crate::history::CommitCryptoSnapshot;
use crate::models::{owned, views, CryptoAsset, DetectionSource, QuantumSafe, Severity};
use crate::text::{chars_of, decimal, lines, lines_of, push_all, push_decimal, push_str, string_of};

verus! {

// ---------------------------------------------------------------------------
// The summary table
// ---------------------------------------------------------------------------

/// The summary's severity cell.
pub open spec fn summary_severity(s: Severity) -> Seq<char> {
    match s {
        Severity::Critical => "🚨 CRIT"@,
        Severity::Warning => "⚠  WARN"@,
        Severity::Info => "ℹ  INFO"@,
        Severity::Safe => "✅ SAFE"@,
        Severity::Unknown => "?  N/A "@,
    }
}

/// The summary's quantum cell.
pub open spec fn summary_quantum(q: QuantumSafe) -> Seq<char> {
    match q {
        QuantumSafe::Safe => "✅ Safe"@,
        QuantumSafe::Vulnerable => "⚠ Vuln"@,
        QuantumSafe::Unknown => "— N/A "@,
    }
}

/// The summary's source cell.
pub open spec fn summary_source(d: DetectionSource) -> Seq<char> {
    match d {
        DetectionSource::SourceCode => "Code"@,
        DetectionSource::Dependency => "Dep "@,
    }
}

/// The summary's location cell before truncation.
pub open spec fn summary_location(a: CryptoAsset) -> Seq<char> {
    if a.line_number > 0 {
        short_path_of(a.file_path@, 18).push(':') + decimal(a.line_number as nat)
    } else {
        short_path_of(a.file_path@, 18)
    }
}

/// The cells of an asset's row can be cut where they are too long.
pub open spec fn summary_printable(a: CryptoAsset) -> bool {
    &&& truncatable(a.algorithm@, 16)
    &&& truncatable(a.library_source@, 19)
    &&& truncatable(shortened(a.file_path@), 18)
    &&& truncatable(summary_location(a), 19)
}

/// One row of the summary table.
pub open spec fn summary_row(a: CryptoAsset) -> Seq<char> {
    "│ "@ + padded(truncated(a.algorithm@, 16), 16) + " │ "@ + padded(summary_severity(a.severity), 8) + " │ "@
        + padded(summary_quantum(a.quantum_safe), 8) + " │ "@ + padded(summary_source(a.detection_source), 6)
        + " │ "@ + padded(truncated(a.library_source@, 19), 19) + " │ "@ + padded(
        truncated(summary_location(a), 19),
        19,
    ) + " │"@
}

/// The heading of the summary table.
pub open spec fn summary_header() -> Seq<Seq<char>> {
    seq![
        "┌─────────────────────────────────────────────────────────────────────────────────────────────┐"@,
        "│  🔐 KeyLens CBOM Summary                                                                  │"@,
        "├──────────────────┬──────────┬──────────┬────────┬─────────────────────┬─────────────────────┤"@,
        "│ Algorithm        │ Severity │ Quantum  │ Source │ Library             │ Location            │"@,
        "├──────────────────┼──────────┼──────────┼────────┼─────────────────────┼─────────────────────┤"@,
    ]
}

/// The bottom border of the summary table.
pub open spec fn summary_footer() -> Seq<char> {
    "└──────────────────┴──────────┴──────────┴────────┴─────────────────────┴─────────────────────┘"@
}

/// An asset that the summary details: critical or warning.
pub open spec fn actionable(a: CryptoAsset) -> bool {
    a.severity == Severity::Critical || a.severity == Severity::Warning
}

/// The lines of a fix suggestion in the summary.
pub open spec fn fix_text(rem: Seq<char>) -> Seq<Seq<char>> {
    let ls = lines(rem);
    if ls.len() == 0 {
        seq!["     🔧 Fix: "@]
    } else {
        seq!["     🔧 Fix: "@ + ls[0]] + ls.subrange(1, ls.len() as int).map_values(|l: Seq<char>| "              "@ + l)
    }
}

/// The lines that detail an actionable asset.
pub open spec fn action_text(a: CryptoAsset) -> Seq<Seq<char>> {
    seq![
        "  "@ + (if a.severity == Severity::Critical {
            "🚨"@
        } else {
            "⚠️"@
        }) + " "@ + a.algorithm@ + " in "@ + a.file_path@,
    ] + views(a.findings@).map_values(|f: Seq<char>| "     └─ "@ + f) + (match a.remediation {
        Some(r) => fix_text(r@),
        None => Seq::empty(),
    }) + (match a.dependency_path {
        Some(d) => seq!["     📦 Dependency path: "@ + d@],
        None => Seq::empty(),
    }) + seq![Seq::empty()]
}

/// The detail lines of the actionable assets, in order.
pub open spec fn actions_text(v: Seq<CryptoAsset>) -> Seq<Seq<char>>
    decreases v.len(),
{
    if v.len() == 0 {
        Seq::empty()
    } else {
        actions_text(v.drop_last()) + if actionable(v.last()) {
            action_text(v.last())
        } else {
            Seq::empty()
        }
    }
}

/// Some asset is actionable.
pub open spec fn any_actionable(v: Seq<CryptoAsset>) -> bool {
    exists|i: int| 0 <= i < v.len() && actionable(#[trigger] v[i])
}

/// The rows of the summary table, in order.
pub open spec fn summary_rows(v: Seq<CryptoAsset>) -> Seq<Seq<char>> {
    v.map_values(|a: CryptoAsset| summary_row(a))
}

/// The human-readable summary of a scan: the table of the assets, then
/// the findings and fixes of the critical and warning ones.
pub open spec fn summary_text(v: Seq<CryptoAsset>) -> Seq<Seq<char>> {
    summary_header() + summary_rows(v) + seq![summary_footer()] + if any_actionable(v) {
        seq![Seq::empty(), "🔧 Actionable Findings:"@, Seq::empty()] + actions_text(v)
    } else {
        Seq::empty()
    }
}

/// Appends a line.
fn push_text(out: &mut Vec<String>, l: &[char])
    ensures
        views(final(out)@) == views(old(out)@).push(l@),
{
    let s = string_of(l);
    proof {
        crate::models::lemma_views_push(out@, s);
    }
    out.push(s);
}

/// Appends a literal line.
fn push_lit(out: &mut Vec<String>, l: &str)
    ensures
        views(final(out)@) == views(old(out)@).push(l@),
{
    let c = chars_of(l);
    push_text(out, &c);
}

/// The row of the summary table for an asset.
fn summary_row_exec(a: &CryptoAsset) -> (r: Vec<char>)
    requires
        summary_printable(*a),
    ensures
        r@ == summary_row(*a),
{
    let algo = truncate(a.algorithm.as_str(), 16);
    let lib = truncate(a.library_source.as_str(), 19);
    let sp = short_path(a.file_path.as_str(), 18);
    let mut loc = chars_of(sp.as_str());
    if a.line_number > 0 {
        loc.push(':');
        push_decimal(&mut loc, a.line_number as u64);
    }
    let ls = string_of(&loc);
    let loc_cut = truncate(ls.as_str(), 19);
    let sev: &str = match a.severity {
        Severity::Critical => "🚨 CRIT",
        Severity::Warning => "⚠  WARN",
        Severity::Info => "ℹ  INFO",
        Severity::Safe => "✅ SAFE",
        Severity::Unknown => "?  N/A ",
    };
    let quantum: &str = match a.quantum_safe {
        QuantumSafe::Safe => "✅ Safe",
        QuantumSafe::Vulnerable => "⚠ Vuln",
        QuantumSafe::Unknown => "— N/A ",
    };
    let source: &str = match a.detection_source {
        DetectionSource::SourceCode => "Code",
        DetectionSource::Dependency => "Dep ",
    };
    let mut r = chars_of("│ ");
    push_padded(&mut r, &chars_of(algo.as_str()), 16);
    push_str(&mut r, " │ ");
    push_padded(&mut r, &chars_of(sev), 8);
    push_str(&mut r, " │ ");
    push_padded(&mut r, &chars_of(quantum), 8);
    push_str(&mut r, " │ ");
    push_padded(&mut r, &chars_of(source), 6);
    push_str(&mut r, " │ ");
    push_padded(&mut r, &chars_of(lib.as_str()), 19);
    push_str(&mut r, " │ ");
    push_padded(&mut r, &chars_of(loc_cut.as_str()), 19);
    push_str(&mut r, " │");
    r
}

/// Appends the lines that detail an actionable asset.
fn push_action(out: &mut Vec<String>, a: &CryptoAsset)
    ensures
        views(final(out)@) == views(old(out)@) + action_text(*a),
{
    let ghost start = views(out@);
    let mut first = chars_of("  ");
    if a.severity == Severity::Critical {
        push_str(&mut first, "🚨");
    } else {
        push_str(&mut first, "⚠️");
    }
    push_str(&mut first, " ");
    push_str(&mut first, a.algorithm.as_str());
    push_str(&mut first, " in ");
    push_str(&mut first, a.file_path.as_str());
    push_text(out, &first);
    let ghost fv = views(a.findings@);
    let ghost s1 = views(out@);
    let mut i: usize = 0;
    while i < a.findings.len()
        invariant
            i <= a.findings@.len(),
            fv == views(a.findings@),
            views(out@) == s1 + fv.subrange(0, i as int).map_values(|f: Seq<char>| "     └─ "@ + f),
        decreases a.findings.len() - i,
    {
        let mut l = chars_of("     └─ ");
        push_str(&mut l, a.findings[i].as_str());
        push_text(out, &l);
        assert(fv.subrange(0, i + 1).map_values(|f: Seq<char>| "     └─ "@ + f) =~= fv.subrange(0, i as int).map_values(
            |f: Seq<char>| "     └─ "@ + f,
        ).push("     └─ "@ + a.findings@[i as int]@));
        i = i + 1;
    }
    assert(fv.subrange(0, a.findings@.len() as int) =~= fv);
    let ghost s2 = views(out@);
    match &a.remediation {
        Some(rem) => {
            let rc = chars_of(rem.as_str());
            let rls = lines_of(&rc);
            let ghost lv = lines(rem@);
            let mut l = chars_of("     🔧 Fix: ");
            if rls.len() > 0 {
                push_all(&mut l, &rls[0]);
            } else {
                assert(l@ =~= "     🔧 Fix: "@ + Seq::<char>::empty());
            }
            push_text(out, &l);
            let ghost s3 = views(out@);
            let mut k: usize = 1;
            while k < rls.len()
                invariant
                    1 <= k,
                    k <= rls@.len() || rls@.len() == 0,
                    rls@.len() == lv.len(),
                    forall|j: int| 0 <= j < rls@.len() ==> #[trigger] rls@[j]@ == lv[j],
                    rls@.len() > 0 ==> views(out@) == s3 + lv.subrange(1, lv.len() as int).subrange(0, k - 1).map_values(
                        |x: Seq<char>| "              "@ + x,
                    ),
                    rls@.len() == 0 ==> views(out@) == s3,
                decreases rls.len() - k,
            {
                let mut x = chars_of("              ");
                push_all(&mut x, &rls[k]);
                push_text(out, &x);
                assert(lv.subrange(1, lv.len() as int).subrange(0, k as int) =~= lv.subrange(1, lv.len() as int).subrange(0, k - 1).push(lv[k as int]));
                assert(lv.subrange(1, lv.len() as int).subrange(0, k as int).map_values(|x: Seq<char>| "              "@ + x) =~= lv.subrange(1, lv.len() as int).subrange(
                    0,
                    k - 1,
                ).map_values(|x: Seq<char>| "              "@ + x).push("              "@ + lv[k as int]));
                k = k + 1;
            }
            if rls.len() > 0 {
                assert(lv.subrange(1, lv.len() as int).subrange(0, k - 1) =~= lv.subrange(1, lv.len() as int));
                assert(views(out@) =~= s2 + fix_text(rem@));
            } else {
                assert(l@ =~= "     🔧 Fix: "@);
                assert(views(out@) =~= s2 + fix_text(rem@));
            }
        },
        None => {},
    }
    let ghost s4 = views(out@);
    match &a.dependency_path {
        Some(d) => {
            let mut l = chars_of("     📦 Dependency path: ");
            push_str(&mut l, d.as_str());
            push_text(out, &l);
        },
        None => {},
    }
    let empty: Vec<char> = Vec::new();
    push_text(out, &empty);
    assert(views(out@) =~= start + action_text(*a));
}

/// Whether every row of the summary can be printed.
pub fn summary_printable_all(findings: &[CryptoAsset]) -> (r: bool)
    ensures
        r == forall|i: int| 0 <= i < findings@.len() ==> summary_printable(#[trigger] findings@[i]),
{
    let mut i: usize = 0;
    while i < findings.len()
        invariant
            i <= findings@.len(),
            forall|k: int| 0 <= k < i ==> summary_printable(#[trigger] findings@[k]),
        decreases findings.len() - i,
    {
        if !summary_printable_one(&findings[i]) {
            return false;
        }
        i = i + 1;
    }
    true
}

/// Whether the summary row of an asset can be printed.
fn summary_printable_one(a: &CryptoAsset) -> (r: bool)
    ensures
        r == summary_printable(*a),
{
    let al = chars_of(a.algorithm.as_str());
    let lb = chars_of(a.library_source.as_str());
    let sh = crate::display::short_path_text(a.file_path.as_str());
    let shc = chars_of(sh.as_str());
    if !truncatable_exec(&al, 16) || !truncatable_exec(&lb, 19) || !truncatable_exec(&shc, 18) {
        return false;
    }
    let sp = short_path(a.file_path.as_str(), 18);
    let mut loc = chars_of(sp.as_str());
    if a.line_number > 0 {
        loc.push(':');
        push_decimal(&mut loc, a.line_number as u64);
    }
    truncatable_exec(&loc, 19)
}

/// Whether `s` can be cut to `max` bytes.
pub fn truncatable_exec(s: &[char], max: usize) -> (r: bool)
    ensures
        r == truncatable(s@, max as nat),
{
    if !crate::display::exceeds_bytes(s, max) {
        return true;
    }
    if max == 0 {
        return false;
    }
    is_char_boundary(s, max - 1)
}

/// Whether byte `n` of `s` falls on a character boundary.
pub fn is_char_boundary(s: &[char], n: usize) -> (r: bool)
    ensures
        r == crate::text::char_boundary(s@, n as nat),
{
    let mut acc: usize = 0;
    let mut i: usize = 0;
    assert(s@.subrange(0, 0) =~= Seq::<char>::empty());
    while i < s.len() && acc < n
        invariant
            i <= s@.len(),
            acc == crate::text::byte_len(s@.subrange(0, i as int)),
            forall|k: int| 0 <= k < i ==> crate::text::byte_len(#[trigger] s@.subrange(0, k)) < n,
        decreases s.len() - i,
    {
        assert(s@.subrange(0, i + 1).drop_last() =~= s@.subrange(0, i as int));
        let w = crate::text::utf8_width_exec(s[i]);
        if w > n - acc {
            proof {
                assert forall|k: int| 0 <= k <= s@.len() implies crate::text::byte_len(#[trigger] s@.subrange(0, k)) != n by {
                    if k > i {
                        if k > i + 1 {
                            crate::text::lemma_byte_len_mono(s@, i + 1, k);
                        }
                    }
                }
            }
            return false;
        }
        acc = acc + w;
        i = i + 1;
    }
    if acc == n {
        return true;
    }
    proof {
        assert forall|k: int| 0 <= k <= s@.len() implies crate::text::byte_len(#[trigger] s@.subrange(0, k)) != n by {
            if k > i {
                crate::text::lemma_byte_len_mono(s@, i as int, k);
            }
        }
    }
    false
}

/// Print-ready lines of the human-readable summary of a scan.
pub fn summary_report(findings: &[CryptoAsset]) -> (r: Vec<String>)
    requires
        forall|i: int| 0 <= i < findings@.len() ==> summary_printable(#[trigger] findings@[i]),
    ensures
        views(r@) == summary_text(findings@),
{
    let mut out: Vec<String> = Vec::new();
    assert(views(out@) =~= Seq::empty());
    push_lit(&mut out, "┌─────────────────────────────────────────────────────────────────────────────────────────────┐");
    push_lit(&mut out, "│  🔐 KeyLens CBOM Summary                                                                  │");
    push_lit(&mut out, "├──────────────────┬──────────┬──────────┬────────┬─────────────────────┬─────────────────────┤");
    push_lit(&mut out, "│ Algorithm        │ Severity │ Quantum  │ Source │ Library             │ Location            │");
    push_lit(&mut out, "├──────────────────┼──────────┼──────────┼────────┼─────────────────────┼─────────────────────┤");
    assert(views(out@) =~= summary_header());
    let mut i: usize = 0;
    while i < findings.len()
        invariant
            i <= findings@.len(),
            forall|k: int| 0 <= k < findings@.len() ==> summary_printable(#[trigger] findings@[k]),
            views(out@) == summary_header() + summary_rows(findings@.subrange(0, i as int)),
        decreases findings.len() - i,
    {
        let row = summary_row_exec(&findings[i]);
        push_text(&mut out, &row);
        assert(summary_rows(findings@.subrange(0, i + 1)) =~= summary_rows(findings@.subrange(0, i as int)).push(
            summary_row(findings@[i as int]),
        ));
        i = i + 1;
    }
    assert(findings@.subrange(0, findings@.len() as int) =~= findings@);
    push_lit(&mut out, "└──────────────────┴──────────┴──────────┴────────┴─────────────────────┴─────────────────────┘");
    let ghost base = views(out@);
    let mut any = false;
    let mut j: usize = 0;
    while j < findings.len()
        invariant
            j <= findings@.len(),
            any == exists|k: int| 0 <= k < j && actionable(#[trigger] findings@[k]),
        decreases findings.len() - j,
    {
        if findings[j].severity == Severity::Critical || findings[j].severity == Severity::Warning {
            any = true;
        }
        j = j + 1;
    }
    if any {
        let empty: Vec<char> = Vec::new();
        push_text(&mut out, &empty);
        push_lit(&mut out, "🔧 Actionable Findings:");
        push_text(&mut out, &empty);
        let ghost s1 = views(out@);
        let mut k: usize = 0;
        assert(findings@.subrange(0, 0) =~= Seq::<CryptoAsset>::empty());
        while k < findings.len()
            invariant
                k <= findings@.len(),
                views(out@) == s1 + actions_text(findings@.subrange(0, k as int)),
            decreases findings.len() - k,
        {
            assert(findings@.subrange(0, k + 1).drop_last() =~= findings@.subrange(0, k as int));
            if findings[k].severity == Severity::Critical || findings[k].severity == Severity::Warning {
                push_action(&mut out, &findings[k]);
            }
            assert(views(out@) =~= s1 + actions_text(findings@.subrange(0, k + 1)));
            k = k + 1;
        }
        assert(views(out@) =~= summary_text(findings@));
    } else {
        assert(views(out@) =~= summary_text(findings@));
    }
    out
}


// ---------------------------------------------------------------------------
// The history timeline
// ---------------------------------------------------------------------------

/// The position of the first entry of a tally for `a`.
pub open spec fn tally_index(t: Seq<(Seq<char>, nat)>, a: Seq<char>, i: int) -> Option<int>
    decreases t.len() - i,
{
    if i < 0 || i >= t.len() {
        None
    } else if t[i].0 == a {
        Some(i)
    } else {
        tally_index(t, a, i + 1)
    }
}

/// How many assets use each algorithm, in the order of first appearance.
pub open spec fn algo_tally(v: Seq<CryptoAsset>) -> Seq<(Seq<char>, nat)>
    decreases v.len(),
{
    if v.len() == 0 {
        Seq::empty()
    } else {
        let t = algo_tally(v.drop_last());
        let a = v.last().algorithm@;
        match tally_index(t, a, 0) {
            Some(i) => t.update(i, (a, t[i].1 + 1)),
            None => t.push((a, 1nat)),
        }
    }
}

/// An algorithm with its count, as the timeline shows it.
pub open spec fn tally_label(e: (Seq<char>, nat)) -> Seq<char> {
    if e.1 > 1 {
        e.0 + " (×"@ + decimal(e.1) + ")"@
    } else {
        e.0
    }
}

/// A commit subject cut to 39 bytes with an ellipsis when it is longer than 40.
pub open spec fn shown_subject(s: Seq<char>) -> Seq<char> {
    if crate::text::byte_len(s) > 40 {
        crate::text::prefix_bytes(s, 39).push('…')
    } else {
        s
    }
}

/// The subject can be cut where the timeline cuts it.
pub open spec fn subject_printable(s: Seq<char>) -> bool {
    crate::text::byte_len(s) <= 40 || crate::text::char_boundary(s, 39)
}

/// The timeline lines of the snapshot at position `i` of `n`.
pub open spec fn snapshot_text(s: CommitCryptoSnapshot, i: int, n: int) -> Seq<Seq<char>> {
    let crit = crate::display::count_severity(s.added@, Severity::Critical);
    seq![
        "│                                                                     │"@,
        "│  "@ + s.date@ + " ("@ + s.hash@ + ")  "@ + shown_subject(s.subject@),
        "│  Total crypto assets: "@ + decimal(s.total_assets as nat),
    ] + (if s.added@.len() > 0 {
        seq![
            "│  ✅ Added "@ + decimal(s.added@.len()) + " asset(s): "@ + crate::text::join(
                algo_tally(s.added@).map_values(|e: (Seq<char>, nat)| tally_label(e)),
                ", "@,
            ),
        ] + (if crit > 0 {
            seq!["│  🚨 "@ + decimal(crit) + " critical issue(s) introduced!"@]
        } else {
            Seq::empty()
        })
    } else {
        Seq::empty()
    }) + (if s.removed@.len() > 0 {
        seq![
            "│  🗑️  Removed "@ + decimal(s.removed@.len()) + " asset(s): "@ + crate::text::join(
                s.removed@.map_values(|a: CryptoAsset| a.algorithm@),
                ", "@,
            ),
        ]
    } else {
        Seq::empty()
    }) + (if s.added@.len() == 0 && s.removed@.len() == 0 && i > 0 {
        seq!["│  — No cryptographic changes"@]
    } else {
        Seq::empty()
    }) + (if i < n - 1 {
        seq!["│  ─ ─ ─ ─ ─ ─ ─ ─ ─ ─ ─ ─ ─ ─ ─ ─ ─ ─ ─ ─ ─ ─ ─ ─ ─ ─ ─ ─ ─ "@]
    } else {
        Seq::empty()
    })
}

/// The lines of the first `k` snapshots of `n`.
pub open spec fn snapshots_text(v: Seq<CommitCryptoSnapshot>, k: int, n: int) -> Seq<Seq<char>>
    decreases k,
{
    if k <= 0 {
        Seq::empty()
    } else {
        snapshots_text(v, k - 1, n) + snapshot_text(v[k - 1], k - 1, n)
    }
}

/// The number of assets added over the snapshots.
pub open spec fn total_added(v: Seq<CommitCryptoSnapshot>) -> nat
    decreases v.len(),
{
    if v.len() == 0 {
        0
    } else {
        total_added(v.drop_last()) + v.last().added@.len()
    }
}

/// The number of assets removed over the snapshots.
pub open spec fn total_removed(v: Seq<CommitCryptoSnapshot>) -> nat
    decreases v.len(),
{
    if v.len() == 0 {
        0
    } else {
        total_removed(v.drop_last()) + v.last().removed@.len()
    }
}

/// The number of critical assets added over the snapshots.
pub open spec fn total_critical(v: Seq<CommitCryptoSnapshot>) -> nat
    decreases v.len(),
{
    if v.len() == 0 {
        0
    } else {
        total_critical(v.drop_last()) + crate::display::count_severity(v.last().added@, Severity::Critical)
    }
}

/// The timeline of a history scan, with its summary.
pub open spec fn timeline_text(v: Seq<CommitCryptoSnapshot>) -> Seq<Seq<char>> {
    if v.len() == 0 {
        seq!["  No commits to display."@]
    } else {
        seq!["┌─────────────────────────────────────────────────────────────────────┐"@, "│  📊 Cryptographic History Timeline                                 │"@, "├─────────────────────────────────────────────────────────────────────┤"@] + snapshots_text(v, v.len() as int, v.len() as int) + seq![
            "│                                                                     │"@,
            "└─────────────────────────────────────────────────────────────────────┘"@,
            Seq::empty(),
            "📈 Summary across "@ + decimal(v.len()) + " commit(s):"@,
            "   + "@ + decimal(total_added(v)) + " crypto asset(s) added"@,
            "   - "@ + decimal(total_removed(v)) + " crypto asset(s) removed"@,
        ] + (if total_critical(v) > 0 {
            seq!["   🚨 "@ + decimal(total_critical(v)) + " critical issue(s) introduced"@]
        } else {
            Seq::empty()
        })
    }
}

/// What the timeline needs to be printed: subjects that can be cut, and
/// totals that fit in 64 bits.
pub open spec fn timeline_printable(v: Seq<CommitCryptoSnapshot>) -> bool {
    &&& forall|i: int| 0 <= i < v.len() ==> subject_printable(#[trigger] v[i].subject@)
    &&& total_added(v) <= u64::MAX
    &&& total_removed(v) <= u64::MAX
    &&& total_critical(v) <= u64::MAX
}

/// The position of the entry for `a` in a tally.
fn tally_find(t: &Vec<(Vec<char>, u64)>, a: &[char]) -> (r: Option<usize>)
    ensures
        r matches Some(j) ==> j < t@.len() && tally_index(
            t@.map_values(|e: (Vec<char>, u64)| (e.0@, e.1 as nat)),
            a@,
            0,
        ) == Some(j as int),
        r is None ==> tally_index(t@.map_values(|e: (Vec<char>, u64)| (e.0@, e.1 as nat)), a@, 0) is None,
{
    let ghost tv = t@.map_values(|e: (Vec<char>, u64)| (e.0@, e.1 as nat));
    let mut j: usize = 0;
    while j < t.len()
        invariant
            j <= t@.len(),
            tv == t@.map_values(|e: (Vec<char>, u64)| (e.0@, e.1 as nat)),
            tally_index(tv, a@, 0) == tally_index(tv, a@, j as int),
        decreases t.len() - j,
    {
        if crate::text::same(&t[j].0, a) {
            return Some(j);
        }
        j = j + 1;
    }
    None
}

/// The tally of the algorithms of the assets.
fn algo_tally_exec(v: &[CryptoAsset]) -> (r: Vec<(Vec<char>, u64)>)
    ensures
        r@.map_values(|e: (Vec<char>, u64)| (e.0@, e.1 as nat)) == algo_tally(v@),
{
    let mut t: Vec<(Vec<char>, u64)> = Vec::new();
    let mut i: usize = 0;
    while i < v.len()
        invariant
            i <= v@.len(),
            t@.map_values(|e: (Vec<char>, u64)| (e.0@, e.1 as nat)) == algo_tally(v@.subrange(0, i as int)),
            forall|k: int| 0 <= k < t@.len() ==> #[trigger] t@[k].1 <= i,
        decreases v.len() - i,
    {
        let ghost tv = t@.map_values(|e: (Vec<char>, u64)| (e.0@, e.1 as nat));
        assert(v@.subrange(0, i + 1).drop_last() =~= v@.subrange(0, i as int));
        let a = chars_of(v[i].algorithm.as_str());
        let pos = tally_find(&t, &a);
        if let Some(j) = pos {
            let c = t[j].1;
            t.set(j, (a, c + 1));
            assert(t@.map_values(|e: (Vec<char>, u64)| (e.0@, e.1 as nat)) =~= tv.update(j as int, (a@, tv[j as int].1 + 1)));
        } else {
            t.push((a, 1));
            assert(t@.map_values(|e: (Vec<char>, u64)| (e.0@, e.1 as nat)) =~= tv.push((a@, 1nat)));
        }
        i = i + 1;
    }
    assert(v@.subrange(0, v@.len() as int) =~= v@);
    t
}


/// Partial totals are bounded by the totals.
proof fn lemma_totals_prefix(v: Seq<CommitCryptoSnapshot>, k: int)
    requires
        0 <= k <= v.len(),
    ensures
        total_added(v.subrange(0, k)) <= total_added(v),
        total_removed(v.subrange(0, k)) <= total_removed(v),
        total_critical(v.subrange(0, k)) <= total_critical(v),
    decreases v.len() - k,
{
    if k < v.len() {
        lemma_totals_prefix(v, k + 1);
        assert(v.subrange(0, k + 1).drop_last() =~= v.subrange(0, k));
    } else {
        assert(v.subrange(0, k) =~= v);
    }
}

/// The subject as the timeline shows it.
fn shown_subject_exec(s: &str) -> (r: Vec<char>)
    requires
        subject_printable(s@),
    ensures
        r@ == shown_subject(s@),
{
    let c = chars_of(s);
    if crate::display::exceeds_bytes(&c, 40) {
        let mut p = crate::text::byte_prefix(&c, 39);
        p.push('…');
        p
    } else {
        c
    }
}

/// Appends the timeline lines of one snapshot.
fn push_snapshot(out: &mut Vec<String>, s: &CommitCryptoSnapshot, i: usize, n: usize)
    requires
        subject_printable(s.subject@),
        i < n,
    ensures
        views(final(out)@) == views(old(out)@) + snapshot_text(*s, i as int, n as int),
{
    let ghost start = views(out@);
    push_lit(out, "│                                                                     │");
    let mut l = chars_of("│  ");
    push_str(&mut l, s.date.as_str());
    push_str(&mut l, " (");
    push_str(&mut l, s.hash.as_str());
    push_str(&mut l, ")  ");
    let sub = shown_subject_exec(s.subject.as_str());
    push_all(&mut l, &sub);
    push_text(out, &l);
    let mut t = chars_of("│  Total crypto assets: ");
    push_decimal(&mut t, s.total_assets as u64);
    push_text(out, &t);
    let ghost s1 = views(out@);
    let crit = crate::display::severity_count(s.added.as_slice(), Severity::Critical);
    if s.added.len() > 0 {
        let tally = algo_tally_exec(s.added.as_slice());
        let ghost tv = tally@.map_values(|e: (Vec<char>, u64)| (e.0@, e.1 as nat));
        let mut labels: Vec<Vec<char>> = Vec::new();
        let mut k: usize = 0;
        while k < tally.len()
            invariant
                k <= tally@.len(),
                tv == tally@.map_values(|e: (Vec<char>, u64)| (e.0@, e.1 as nat)),
                crate::text::seqs(labels@) == tv.subrange(0, k as int).map_values(|e: (Seq<char>, nat)| tally_label(e)),
            decreases tally.len() - k,
        {
            let mut lab = crate::text::copy_range(&tally[k].0, 0, tally[k].0.len());
            if tally[k].1 > 1 {
                push_str(&mut lab, " (×");
                push_decimal(&mut lab, tally[k].1);
                push_str(&mut lab, ")");
            }
            assert(tv[k as int] == (tally@[k as int].0@, tally@[k as int].1 as nat));
            assert(lab@ == tally_label(tv[k as int]));
            proof {
                crate::text::lemma_seqs_push(labels@, lab);
            }
            labels.push(lab);
            assert(tv.subrange(0, k + 1).map_values(|e: (Seq<char>, nat)| tally_label(e)) =~= tv.subrange(0, k as int).map_values(
                |e: (Seq<char>, nat)| tally_label(e),
            ).push(tally_label(tv[k as int])));
            k = k + 1;
        }
        assert(tv.subrange(0, tally@.len() as int) =~= tv);
        let joined = crate::text::join_exec(&labels, ", ");
        let mut a = chars_of("│  ✅ Added ");
        push_decimal(&mut a, s.added.len() as u64);
        push_str(&mut a, " asset(s): ");
        push_all(&mut a, &joined);
        push_text(out, &a);
        if crit > 0 {
            let mut c = chars_of("│  🚨 ");
            push_decimal(&mut c, crit as u64);
            push_str(&mut c, " critical issue(s) introduced!");
            push_text(out, &c);
        }
    }
    let ghost s2 = views(out@);
    if s.removed.len() > 0 {
        let mut names: Vec<Vec<char>> = Vec::new();
        let mut k: usize = 0;
        while k < s.removed.len()
            invariant
                k <= s.removed@.len(),
                crate::text::seqs(names@) == s.removed@.subrange(0, k as int).map_values(|a: CryptoAsset| a.algorithm@),
            decreases s.removed.len() - k,
        {
            let nm = chars_of(s.removed[k].algorithm.as_str());
            proof {
                crate::text::lemma_seqs_push(names@, nm);
            }
            names.push(nm);
            assert(s.removed@.subrange(0, k + 1).map_values(|a: CryptoAsset| a.algorithm@) =~= s.removed@.subrange(
                0,
                k as int,
            ).map_values(|a: CryptoAsset| a.algorithm@).push(s.removed@[k as int].algorithm@));
            k = k + 1;
        }
        assert(s.removed@.subrange(0, s.removed@.len() as int) =~= s.removed@);
        let joined = crate::text::join_exec(&names, ", ");
        let mut r = chars_of("│  🗑️  Removed ");
        push_decimal(&mut r, s.removed.len() as u64);
        push_str(&mut r, " asset(s): ");
        push_all(&mut r, &joined);
        push_text(out, &r);
    }
    if s.added.len() == 0 && s.removed.len() == 0 && i > 0 {
        push_lit(out, "│  — No cryptographic changes");
    }
    if i < n - 1 {
        push_lit(out, "│  ─ ─ ─ ─ ─ ─ ─ ─ ─ ─ ─ ─ ─ ─ ─ ─ ─ ─ ─ ─ ─ ─ ─ ─ ─ ─ ─ ─ ─ ");
    }
    assert(views(out@) =~= start + snapshot_text(*s, i as int, n as int));
}

/// Print-ready lines of the timeline of a history scan, newest commit
/// first, followed by the totals.
pub fn timeline_report(snapshots: &[CommitCryptoSnapshot]) -> (r: Vec<String>)
    requires
        timeline_printable(snapshots@),
    ensures
        views(r@) == timeline_text(snapshots@),
{
    let mut out: Vec<String> = Vec::new();
    assert(views(out@) =~= Seq::empty());
    if snapshots.len() == 0 {
        push_lit(&mut out, "  No commits to display.");
        return out;
    }
    push_lit(&mut out, "┌─────────────────────────────────────────────────────────────────────┐");
    push_lit(&mut out, "│  📊 Cryptographic History Timeline                                 │");
    push_lit(&mut out, "├─────────────────────────────────────────────────────────────────────┤");
    let ghost head = views(out@);
    let n = snapshots.len();
    let mut added: u64 = 0;
    let mut removed: u64 = 0;
    let mut critical: u64 = 0;
    let mut i: usize = 0;
    while i < n
        invariant
            n == snapshots@.len(),
            i <= n,
            timeline_printable(snapshots@),
            views(out@) == head + snapshots_text(snapshots@, i as int, n as int),
            added == total_added(snapshots@.subrange(0, i as int)),
            removed == total_removed(snapshots@.subrange(0, i as int)),
            critical == total_critical(snapshots@.subrange(0, i as int)),
        decreases n - i,
    {
        let s = &snapshots[i];
        push_snapshot(&mut out, s, i, n);
        proof {
            assert(snapshots@.subrange(0, i + 1).drop_last() =~= snapshots@.subrange(0, i as int));
            lemma_totals_prefix(snapshots@, i + 1);
        }
        let c = crate::display::severity_count(s.added.as_slice(), Severity::Critical);
        added = added + s.added.len() as u64;
        removed = removed + s.removed.len() as u64;
        critical = critical + c as u64;
        i = i + 1;
    }
    assert(snapshots@.subrange(0, n as int) =~= snapshots@);
    push_lit(&mut out, "│                                                                     │");
    push_lit(&mut out, "└─────────────────────────────────────────────────────────────────────┘");
    let empty: Vec<char> = Vec::new();
    push_text(&mut out, &empty);
    let mut a = chars_of("📈 Summary across ");
    push_decimal(&mut a, n as u64);
    push_str(&mut a, " commit(s):");
    push_text(&mut out, &a);
    let mut b = chars_of("   + ");
    push_decimal(&mut b, added);
    push_str(&mut b, " crypto asset(s) added");
    push_text(&mut out, &b);
    let mut c = chars_of("   - ");
    push_decimal(&mut c, removed);
    push_str(&mut c, " crypto asset(s) removed");
    push_text(&mut out, &c);
    if critical > 0 {
        let mut d = chars_of("   🚨 ");
        push_decimal(&mut d, critical);
        push_str(&mut d, " critical issue(s) introduced");
        push_text(&mut out, &d);
    }
    assert(views(out@) =~= timeline_text(snapshots@));
    out
}


/// Whether the timeline of the snapshots can be printed: every subject can
/// be cut where the timeline cuts it, and the totals fit in 64 bits.
pub fn timeline_printable_all(snapshots: &[CommitCryptoSnapshot]) -> (r: bool)
    ensures
        r == timeline_printable(snapshots@),
{
    let n = snapshots.len();
    let mut added: u64 = 0;
    let mut removed: u64 = 0;
    let mut critical: u64 = 0;
    let mut i: usize = 0;
    while i < n
        invariant
            n == snapshots@.len(),
            i <= n,
            forall|k: int| 0 <= k < i ==> subject_printable(#[trigger] snapshots@[k].subject@),
            added == total_added(snapshots@.subrange(0, i as int)),
            removed == total_removed(snapshots@.subrange(0, i as int)),
            critical == total_critical(snapshots@.subrange(0, i as int)),
        decreases n - i,
    {
        let s = &snapshots[i];
        proof {
            assert(snapshots@.subrange(0, i + 1).drop_last() =~= snapshots@.subrange(0, i as int));
            lemma_totals_prefix(snapshots@, i + 1);
        }
        let subject = chars_of(s.subject.as_str());
        if !truncatable_exec(&subject, 40) {
            return false;
        }
        let c = crate::display::severity_count(s.added.as_slice(), Severity::Critical);
        let a = match added.checked_add(s.added.len() as u64) {
            Some(a) => a,
            None => return false,
        };
        let d = match removed.checked_add(s.removed.len() as u64) {
            Some(d) => d,
            None => return false,
        };
        let k = match critical.checked_add(c as u64) {
            Some(k) => k,
            None => return false,
        };
        added = a;
        removed = d;
        critical = k;
        i = i + 1;
    }
    assert(snapshots@.subrange(0, n as int) =~= snapshots@);
    true
}

// ---------------------------------------------------------------------------
// The scan overview
// ---------------------------------------------------------------------------

/// The line announcing a scan.
pub open spec fn scanning_text(path: Seq<char>) -> Seq<char> {
    "🔍 Scanning: "@ + path + "\n"@
}

/// The line announcing a scan.
pub fn scanning_banner(path: &str) -> (r: String)
    ensures
        r@ == scanning_text(path@),
{
    let mut v = chars_of("🔍 Scanning: ");
    push_str(&mut v, path);
    push_str(&mut v, "\n");
    string_of(&v)
}

/// The line reporting the cryptographic dependencies found, if any.
pub open spec fn dependency_text(n: nat) -> Option<Seq<char>> {
    if n == 0 {
        None
    } else {
        Some(
            "📦 Found "@ + decimal(n) + " cryptographic dependenc"@ + (if n == 1 {
                "y"@
            } else {
                "ies"@
            }) + " in lockfiles."@,
        )
    }
}

/// The line reporting the cryptographic dependencies found, if any.
pub fn dependency_notice(n: usize) -> (r: Option<String>)
    ensures
        r matches Some(s) ==> dependency_text(n as nat) == Some(s@),
        r is None ==> dependency_text(n as nat) is None,
{
    if n == 0 {
        return None;
    }
    let mut v = chars_of("📦 Found ");
    push_decimal(&mut v, n as u64);
    push_str(&mut v, " cryptographic dependenc");
    if n == 1 {
        push_str(&mut v, "y");
    } else {
        push_str(&mut v, "ies");
    }
    push_str(&mut v, " in lockfiles.");
    Some(string_of(&v))
}

/// The overview of an evaluated inventory: nothing found, or the counts
/// per severity and a warning when some asset is critical.
pub open spec fn overview_text(v: Seq<CryptoAsset>) -> Seq<Seq<char>> {
    let c = crate::display::count_severity(v, Severity::Critical);
    if v.len() == 0 {
        seq!["✅ No cryptographic usage detected."@]
    } else {
        seq![
            "⚠️  Found "@ + decimal(v.len()) + " cryptographic asset(s): "@ + decimal(c) + " critical, "@
                + decimal(crate::display::count_severity(v, Severity::Warning)) + " warning, "@ + decimal(
                crate::display::count_severity(v, Severity::Info),
            ) + " info, "@ + decimal(crate::display::count_severity(v, Severity::Safe)) + " safe.\n"@,
        ] + if c > 0 {
            seq!["🚨 CRITICAL issues detected! Review findings below.\n"@]
        } else {
            Seq::empty()
        }
    }
}

/// The overview lines of an evaluated inventory.
pub fn scan_overview(findings: &[CryptoAsset]) -> (r: Vec<String>)
    ensures
        views(r@) == overview_text(findings@),
{
    let mut out: Vec<String> = Vec::new();
    assert(views(out@) =~= Seq::empty());
    if findings.len() == 0 {
        push_lit(&mut out, "✅ No cryptographic usage detected.");
        return out;
    }
    let c = crate::display::severity_count(findings, Severity::Critical);
    let w = crate::display::severity_count(findings, Severity::Warning);
    let i = crate::display::severity_count(findings, Severity::Info);
    let s = crate::display::severity_count(findings, Severity::Safe);
    let mut l = chars_of("⚠️  Found ");
    push_decimal(&mut l, findings.len() as u64);
    push_str(&mut l, " cryptographic asset(s): ");
    push_decimal(&mut l, c as u64);
    push_str(&mut l, " critical, ");
    push_decimal(&mut l, w as u64);
    push_str(&mut l, " warning, ");
    push_decimal(&mut l, i as u64);
    push_str(&mut l, " info, ");
    push_decimal(&mut l, s as u64);
    push_str(&mut l, " safe.\n");
    push_text(&mut out, &l);
    if c > 0 {
        push_lit(&mut out, "🚨 CRITICAL issues detected! Review findings below.\n");
    }
    assert(views(out@) =~= overview_text(findings@));
    out
}

/// How the findings of a scan are printed.
#[derive(Clone, Copy, PartialEq, Eq, Structural)]
pub enum ScanOutput {
    /// The human-readable summary table.
    Summary,
    /// A CycloneDX BOM document.
    CycloneDx,
    /// The JSON list of the assets.
    Json,
}

/// How the findings of a scan are printed, given the requested format and
/// whether a summary was asked for.
pub open spec fn output_of(format: Seq<char>, summary: bool) -> ScanOutput {
    if summary {
        ScanOutput::Summary
    } else if format == "cyclonedx"@ {
        ScanOutput::CycloneDx
    } else {
        ScanOutput::Json
    }
}

/// How the findings of a scan are printed.
pub fn scan_output(format: &str, summary: bool) -> (r: ScanOutput)
    ensures
        r == output_of(format@, summary),
{
    if summary {
        ScanOutput::Summary
    } else if crate::text::is(&chars_of(format), "cyclonedx") {
        ScanOutput::CycloneDx
    } else {
        ScanOutput::Json
    }
}

// ---------------------------------------------------------------------------
// The comparison of two CBOMs
// ---------------------------------------------------------------------------

/// How `Debug` prints a list of strings.
pub uninterp spec fn debug_strings(v: Seq<Seq<char>>) -> Seq<char>;

/// `format!("{:?}", v)` on a list of strings: brackets, quoted and escaped
/// strings, commas. The result is named `debug_strings`.
#[verifier::external_body]
fn debug_list(v: &Vec<String>) -> (r: String)
    ensures
        r@ == debug_strings(views(v@)),
{
    format!("{:?}", v)
}

/// The lines announcing a comparison.
pub open spec fn comparing_text(base: Seq<char>, head: Seq<char>, strict: bool) -> Seq<Seq<char>> {
    seq!["🔍 Comparing CBOMs:\\n   base: "@ + base + "\\n   head: "@ + head + "\\n"@] + if strict {
        seq!["🔒 Strict mode enabled: deprecated/critical algorithms will cause failure.\n"@]
    } else {
        Seq::empty()
    }
}

/// The lines announcing a comparison.
pub fn comparing_banner(base: &str, head: &str, strict: bool) -> (r: Vec<String>)
    ensures
        views(r@) == comparing_text(base@, head@, strict),
{
    let mut out: Vec<String> = Vec::new();
    assert(views(out@) =~= Seq::empty());
    let mut l = chars_of("🔍 Comparing CBOMs:\\n   base: ");
    push_str(&mut l, base);
    push_str(&mut l, "\\n   head: ");
    push_str(&mut l, head);
    push_str(&mut l, "\\n");
    push_text(&mut out, &l);
    if strict {
        push_lit(&mut out, "🔒 Strict mode enabled: deprecated/critical algorithms will cause failure.\n");
    }
    assert(views(out@) =~= comparing_text(base@, head@, strict));
    out
}

/// The violation lines of the critical added assets.
pub open spec fn violation_text(v: Seq<CryptoAsset>) -> Seq<Seq<char>>
    decreases v.len(),
{
    if v.len() == 0 {
        Seq::empty()
    } else {
        let a = v.last();
        violation_text(v.drop_last()) + if a.severity == Severity::Critical {
            seq![
                "   ❌ "@ + a.algorithm@ + " in "@ + a.file_path@ + " (line "@ + decimal(a.line_number as nat)
                    + "): "@ + debug_strings(views(a.findings@)),
            ]
        } else {
            Seq::empty()
        }
    }
}

/// The CI annotations of the added assets that are critical, or warnings
/// in strict mode.
pub open spec fn annotation_text(v: Seq<CryptoAsset>, strict: bool) -> Seq<Seq<char>>
    decreases v.len(),
{
    if v.len() == 0 {
        Seq::empty()
    } else {
        let a = v.last();
        annotation_text(v.drop_last(), strict) + if a.severity == Severity::Critical || (strict && a.severity
            == Severity::Warning) {
            seq![
                "::error file="@ + a.file_path@ + ",line="@ + decimal(a.line_number as nat)
                    + "::Banned cryptography introduced: "@ + a.algorithm@ + " - "@ + crate::text::join(
                    views(a.findings@),
                    "; "@,
                ),
            ]
        } else {
            Seq::empty()
        }
    }
}

/// What a comparison reports: notes (standard error), CI annotations
/// (standard output, before the delta), whether the delta is empty, and
/// the exit code.
pub struct DiffReport {
    pub notes: Vec<String>,
    pub annotations: Vec<String>,
    pub empty_delta: bool,
    pub exit_code: i32,
}

/// The notes of a comparison.
pub open spec fn diff_notes(r: crate::diff::DiffResult, strict: bool) -> Seq<Seq<char>> {
    (if r.removed@.len() > 0 {
        seq!["ℹ️  "@ + decimal(r.removed@.len()) + " cryptographic asset(s) removed (no longer detected)."@]
    } else {
        Seq::empty()
    }) + if r.added@.len() == 0 {
        seq!["✅ No new cryptographic assets introduced."@]
    } else {
        seq!["⚠️  "@ + decimal(r.added@.len()) + " NEW cryptographic asset(s) detected!\n"@] + if strict
            && r.has_violations {
            seq![
                "🚨 STRICT MODE VIOLATION: Deprecated or critically insecure cryptography detected in new assets!\n"@,
            ] + violation_text(r.added@) + seq![Seq::empty()]
        } else {
            Seq::empty()
        }
    }
}

/// `d` is the report of the comparison `r`; `github_actions` tells
/// whether it runs in GitHub Actions.
pub open spec fn is_report_of(d: DiffReport, r: crate::diff::DiffResult, strict: bool, github_actions: bool) -> bool {
    &&& views(d.notes@) == diff_notes(r, strict)
    &&& views(d.annotations@) == (if r.added@.len() > 0 && github_actions {
        annotation_text(r.added@, strict)
    } else {
        Seq::empty()
    })
    &&& d.empty_delta == (r.added@.len() == 0)
    &&& d.exit_code == (if r.added@.len() == 0 {
        0i32
    } else {
        1i32
    })
}

/// Decide what a comparison reports and how the process exits: 0 when no
/// new cryptography was introduced, 1 otherwise.
pub fn diff_report(r: &crate::diff::DiffResult, strict: bool, github_actions: bool) -> (d: DiffReport)
    ensures
        is_report_of(d, *r, strict, github_actions),
{
    let mut notes: Vec<String> = Vec::new();
    let mut annotations: Vec<String> = Vec::new();
    assert(views(notes@) =~= Seq::empty());
    assert(views(annotations@) =~= Seq::empty());
    if r.removed.len() > 0 {
        let mut l = chars_of("ℹ️  ");
        push_decimal(&mut l, r.removed.len() as u64);
        push_str(&mut l, " cryptographic asset(s) removed (no longer detected).");
        push_text(&mut notes, &l);
    }
    let ghost n1 = views(notes@);
    if r.added.len() == 0 {
        push_lit(&mut notes, "✅ No new cryptographic assets introduced.");
        assert(views(notes@) =~= diff_notes(*r, strict));
        return DiffReport { notes, annotations, empty_delta: true, exit_code: 0 };
    }
    let mut l = chars_of("⚠️  ");
    push_decimal(&mut l, r.added.len() as u64);
    push_str(&mut l, " NEW cryptographic asset(s) detected!\n");
    push_text(&mut notes, &l);
    if strict && r.has_violations {
        push_lit(
            &mut notes,
            "🚨 STRICT MODE VIOLATION: Deprecated or critically insecure cryptography detected in new assets!\n",
        );
        let ghost n2 = views(notes@);
        let mut i: usize = 0;
        assert(r.added@.subrange(0, 0) =~= Seq::<CryptoAsset>::empty());
        while i < r.added.len()
            invariant
                i <= r.added@.len(),
                views(notes@) == n2 + violation_text(r.added@.subrange(0, i as int)),
            decreases r.added.len() - i,
        {
            assert(r.added@.subrange(0, i + 1).drop_last() =~= r.added@.subrange(0, i as int));
            let a = &r.added[i];
            if a.severity == Severity::Critical {
                let mut v = chars_of("   ❌ ");
                push_str(&mut v, a.algorithm.as_str());
                push_str(&mut v, " in ");
                push_str(&mut v, a.file_path.as_str());
                push_str(&mut v, " (line ");
                push_decimal(&mut v, a.line_number as u64);
                push_str(&mut v, "): ");
                let dbg = debug_list(&a.findings);
                push_str(&mut v, dbg.as_str());
                push_text(&mut notes, &v);
            }
            assert(views(notes@) =~= n2 + violation_text(r.added@.subrange(0, i + 1)));
            i = i + 1;
        }
        assert(r.added@.subrange(0, r.added@.len() as int) =~= r.added@);
        let empty: Vec<char> = Vec::new();
        push_text(&mut notes, &empty);
    }
    assert(views(notes@) =~= diff_notes(*r, strict));
    if github_actions {
        let mut i: usize = 0;
        assert(r.added@.subrange(0, 0) =~= Seq::<CryptoAsset>::empty());
        while i < r.added.len()
            invariant
                i <= r.added@.len(),
                views(annotations@) == annotation_text(r.added@.subrange(0, i as int), strict),
            decreases r.added.len() - i,
        {
            assert(r.added@.subrange(0, i + 1).drop_last() =~= r.added@.subrange(0, i as int));
            let a = &r.added[i];
            if a.severity == Severity::Critical || (strict && a.severity == Severity::Warning) {
                let mut parts: Vec<Vec<char>> = Vec::new();
                let mut k: usize = 0;
                while k < a.findings.len()
                    invariant
                        k <= a.findings@.len(),
                        crate::text::seqs(parts@) == views(a.findings@).subrange(0, k as int),
                    decreases a.findings.len() - k,
                {
                    let f = chars_of(a.findings[k].as_str());
                    proof {
                        crate::text::lemma_seqs_push(parts@, f);
                    }
                    parts.push(f);
                    assert(views(a.findings@).subrange(0, k + 1) =~= views(a.findings@).subrange(0, k as int).push(
                        a.findings@[k as int]@,
                    ));
                    k = k + 1;
                }
                assert(views(a.findings@).subrange(0, a.findings@.len() as int) =~= views(a.findings@));
                let msg = crate::text::join_exec(&parts, "; ");
                let mut v = chars_of("::error file=");
                push_str(&mut v, a.file_path.as_str());
                push_str(&mut v, ",line=");
                push_decimal(&mut v, a.line_number as u64);
                push_str(&mut v, "::Banned cryptography introduced: ");
                push_str(&mut v, a.algorithm.as_str());
                push_str(&mut v, " - ");
                push_all(&mut v, &msg);
                push_text(&mut annotations, &v);
            }
            assert(views(annotations@) =~= annotation_text(r.added@.subrange(0, i + 1), strict));
            i = i + 1;
        }
        assert(r.added@.subrange(0, r.added@.len() as int) =~= r.added@);
    }
    DiffReport { notes, annotations, empty_delta: false, exit_code: 1 }
}

} // verus!
