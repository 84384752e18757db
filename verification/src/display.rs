//! What the viewer and the reports show of an asset: labels, shortened
//! paths, truncated cells, table rows and the detail panel, as plain text
//! with a tone for each piece.

use vstd::prelude::*;

use crate::models::{opt_view, owned, views, CryptoAsset, DetectionSource, QuantumSafe, Severity};
use crate::text::{
    byte_len, byte_prefix, char_boundary, chars_of, decimal, lines, lines_of, prefix_bytes, push_all,
    push_decimal, push_str, seqs, split_by, split_chars, string_of, utf8_width, utf8_width_exec,
};

verus! {

// ---------------------------------------------------------------------------
// Lengths, truncation and paths
// ---------------------------------------------------------------------------

/// Whether the UTF-8 length of `s` exceeds `max`.
pub fn exceeds_bytes(s: &[char], max: usize) -> (r: bool)
    ensures
        r == (byte_len(s@) > max),
{
    let mut acc: usize = 0;
    let mut i: usize = 0;
    while i < s.len()
        invariant
            i <= s@.len(),
            acc == byte_len(s@.subrange(0, i as int)),
            acc <= max,
        decreases s.len() - i,
    {
        assert(s@.subrange(0, i + 1).drop_last() =~= s@.subrange(0, i as int));
        let w = utf8_width_exec(s[i]);
        if w > max - acc {
            proof {
                lemma_byte_len_prefix_le(s@, i + 1);
            }
            return true;
        }
        acc = acc + w;
        i = i + 1;
    }
    assert(s@.subrange(0, s@.len() as int) =~= s@);
    false
}

/// A prefix is no longer in bytes than the whole.
proof fn lemma_byte_len_prefix_le(s: Seq<char>, i: int)
    requires
        0 <= i <= s.len(),
    ensures
        byte_len(s.subrange(0, i)) <= byte_len(s),
    decreases s.len() - i,
{
    if i < s.len() {
        assert(s.subrange(0, i + 1).drop_last() =~= s.subrange(0, i));
        lemma_byte_len_prefix_le(s, i + 1);
    } else {
        assert(s.subrange(0, i) =~= s);
    }
}

/// Truncation of `s` to `max` bytes is defined: it needs no cut, or it
/// cuts at a character boundary.
pub open spec fn truncatable(s: Seq<char>, max: nat) -> bool {
    byte_len(s) > max ==> max >= 1 && char_boundary(s, (max - 1) as nat)
}

/// `s` cut to `max - 1` bytes with an ellipsis when it is longer than `max` bytes.
pub open spec fn truncated(s: Seq<char>, max: nat) -> Seq<char> {
    if byte_len(s) > max {
        prefix_bytes(s, (max - 1) as nat).push('…')
    } else {
        s
    }
}

/// Cut `s` to fit `max` bytes, ending it with an ellipsis when it is cut.
pub fn truncate(s: &str, max: usize) -> (r: String)
    requires
        truncatable(s@, max as nat),
    ensures
        r@ == truncated(s@, max as nat),
{
    let c = chars_of(s);
    if exceeds_bytes(&c, max) {
        let mut p = byte_prefix(&c, max - 1);
        p.push('…');
        string_of(&p)
    } else {
        string_of(&c)
    }
}

/// The last two components of a path behind an ellipsis, when it has more.
pub open spec fn shortened(path: Seq<char>) -> Seq<char> {
    let p = split_by(path, seq!['/', '\\']);
    if p.len() <= 2 {
        path
    } else {
        seq!['…', '/'] + p[p.len() - 2] + seq!['/'] + p[p.len() - 1]
    }
}

/// Shorten a file path for display: its last two components.
pub fn short_path_text(path: &str) -> (r: String)
    ensures
        r@ == shortened(path@),
{
    let c = chars_of(path);
    let seps: Vec<char> = vec!['/', '\\'];
    let parts = split_chars(&c, &seps);
    assert(seps@ =~= seq!['/', '\\']);
    if parts.len() <= 2 {
        return string_of(&c);
    }
    let n = parts.len();
    let mut v: Vec<char> = Vec::new();
    v.push('…');
    v.push('/');
    push_all(&mut v, &parts[n - 2]);
    v.push('/');
    push_all(&mut v, &parts[n - 1]);
    assert(v@ =~= shortened(path@));
    string_of(&v)
}

/// A shortened path cut to `max` bytes.
pub open spec fn short_path_of(path: Seq<char>, max: nat) -> Seq<char> {
    truncated(shortened(path), max)
}

/// Shorten a file path to its last two components, cut to `max` bytes.
pub fn short_path(path: &str, max: usize) -> (r: String)
    requires
        truncatable(shortened(path@), max as nat),
    ensures
        r@ == short_path_of(path@, max as nat),
{
    let s = short_path_text(path);
    truncate(s.as_str(), max)
}

/// `s` padded with spaces to `w` characters (`{:<w}`).
pub open spec fn padded(s: Seq<char>, w: nat) -> Seq<char> {
    if s.len() < w {
        s + Seq::new((w - s.len()) as nat, |i: int| ' ')
    } else {
        s
    }
}

/// Appends `s` padded with spaces to `w` characters.
pub fn push_padded(out: &mut Vec<char>, s: &[char], w: usize)
    ensures
        final(out)@ == old(out)@ + padded(s@, w as nat),
{
    push_all(out, s);
    if s.len() < w {
        let mut k: usize = s.len();
        let ghost base = out@;
        while k < w
            invariant
                s@.len() <= k <= w,
                base == old(out)@ + s@,
                out@ == base + Seq::new((k - s@.len()) as nat, |i: int| ' '),
            decreases w - k,
        {
            out.push(' ');
            k = k + 1;
            assert(out@ =~= base + Seq::new((k - s@.len()) as nat, |i: int| ' '));
        }
        assert(final(out)@ =~= old(out)@ + padded(s@, w as nat));
    } else {
        assert(final(out)@ =~= old(out)@ + padded(s@, w as nat));
    }
}

// ---------------------------------------------------------------------------
// Labels
// ---------------------------------------------------------------------------

/// The viewer's label of a severity.
pub open spec fn severity_text(s: Severity) -> Seq<char> {
    match s {
        Severity::Critical => "🚨 CRITICAL"@,
        Severity::Warning => "⚠  WARNING"@,
        Severity::Info => "ℹ  INFO"@,
        Severity::Safe => "✅ SAFE"@,
        Severity::Unknown => "?  UNKNOWN"@,
    }
}

/// The viewer's label of a severity.
pub fn severity_label(severity: &Severity) -> (r: &'static str)
    ensures
        r@ == severity_text(*severity),
{
    match severity {
        Severity::Critical => "🚨 CRITICAL",
        Severity::Warning => "⚠  WARNING",
        Severity::Info => "ℹ  INFO",
        Severity::Safe => "✅ SAFE",
        Severity::Unknown => "?  UNKNOWN",
    }
}

/// The viewer's label of a quantum-safety posture.
pub open spec fn quantum_text(q: QuantumSafe) -> Seq<char> {
    match q {
        QuantumSafe::Safe => "✅ Safe"@,
        QuantumSafe::Vulnerable => "⚠ Vuln"@,
        QuantumSafe::Unknown => "? N/A"@,
    }
}

/// The viewer's label of a quantum-safety posture.
pub fn quantum_label(q: &QuantumSafe) -> (r: &'static str)
    ensures
        r@ == quantum_text(*q),
{
    match q {
        QuantumSafe::Safe => "✅ Safe",
        QuantumSafe::Vulnerable => "⚠ Vuln",
        QuantumSafe::Unknown => "? N/A",
    }
}

/// The viewer's label of a detection source.
pub open spec fn source_text(d: DetectionSource) -> Seq<char> {
    match d {
        DetectionSource::SourceCode => "Code"@,
        DetectionSource::Dependency => "Dep"@,
    }
}

/// The viewer's label of a detection source.
pub fn source_label(d: &DetectionSource) -> (r: &'static str)
    ensures
        r@ == source_text(*d),
{
    match d {
        DetectionSource::SourceCode => "Code",
        DetectionSource::Dependency => "Dep",
    }
}

// ---------------------------------------------------------------------------
// The viewer's table and detail panel
// ---------------------------------------------------------------------------

/// Where an asset was found, as the viewer's table shows it.
pub open spec fn table_location(a: CryptoAsset) -> Seq<char> {
    if a.line_number > 0 {
        shortened(a.file_path@).push(':') + decimal(a.line_number as nat)
    } else {
        shortened(a.file_path@)
    }
}

/// The cells of an asset's row: algorithm, severity, quantum safety,
/// source, library and location.
pub open spec fn table_cells(a: CryptoAsset) -> Seq<Seq<char>> {
    seq![
        a.algorithm@,
        severity_text(a.severity),
        quantum_text(a.quantum_safe),
        source_text(a.detection_source),
        a.library_source@,
        table_location(a),
    ]
}

/// The cells of an asset's row in the viewer's table.
pub fn table_row(a: &CryptoAsset) -> (r: Vec<String>)
    ensures
        views(r@) == table_cells(*a),
{
    let short = short_path_text(a.file_path.as_str());
    let mut loc = chars_of(short.as_str());
    if a.line_number > 0 {
        loc.push(':');
        push_decimal(&mut loc, a.line_number as u64);
    }
    let mut r: Vec<String> = Vec::new();
    r.push(a.algorithm.clone());
    r.push(owned(severity_label(&a.severity)));
    r.push(owned(quantum_label(&a.quantum_safe)));
    r.push(owned(source_label(&a.detection_source)));
    r.push(a.library_source.clone());
    r.push(string_of(&loc));
    assert(views(r@) =~= table_cells(*a));
    r
}

/// How a piece of text is shown.
#[derive(Clone, Copy, PartialEq, Eq, Structural)]
pub enum Tone {
    /// Unstyled.
    Raw,
    /// A field label.
    Label,
    /// The algorithm, emphasised.
    Strong,
    /// A plain value.
    Value,
    /// The colour of a severity.
    Graded(Severity),
    /// A location.
    Location,
    /// A dependency path.
    DepPath,
    /// The findings heading.
    Heading,
    /// A finding's bullet.
    Bullet,
    /// The fix heading.
    FixHeading,
    /// A line of the fix.
    Fix,
}

/// A line of text made of toned pieces.
pub type Spans = Vec<(String, Tone)>;

/// A line of pieces as characters.
pub open spec fn spans_view(l: Spans) -> Seq<(Seq<char>, Tone)> {
    l@.map_values(|p: (String, Tone)| (p.0@, p.1))
}

/// Lines of pieces as characters.
pub open spec fn text_view(v: Seq<Spans>) -> Seq<Seq<(Seq<char>, Tone)>> {
    v.map_values(|l: Spans| spans_view(l))
}

/// The details of an asset: key size, mode and curve.
pub open spec fn meta_parts(a: CryptoAsset) -> Seq<Seq<char>> {
    (match a.key_size {
        Some(k) => seq!["key="@ + decimal(k as nat) + "bit"@],
        None => Seq::empty(),
    }) + (match a.mode {
        Some(m) => seq!["mode="@ + m@],
        None => Seq::empty(),
    }) + (match a.curve {
        Some(c) => seq!["curve="@ + c@],
        None => Seq::empty(),
    })
}

/// The bulleted lines of the findings.
pub open spec fn finding_lines(f: Seq<Seq<char>>) -> Seq<Seq<(Seq<char>, Tone)>> {
    f.map_values(|x: Seq<char>| seq![("  • "@, Tone::Bullet), (x, Tone::Value)])
}

/// The lines of a fix suggestion.
pub open spec fn fix_lines(ls: Seq<Seq<char>>) -> Seq<Seq<(Seq<char>, Tone)>> {
    ls.map_values(|x: Seq<char>| seq![("  "@, Tone::Raw), (x, Tone::Fix)])
}

/// An empty line.
pub open spec fn blank() -> Seq<(Seq<char>, Tone)> {
    seq![(Seq::empty(), Tone::Raw)]
}

/// The detail panel of an asset, line by line.
pub open spec fn detail_text(a: CryptoAsset) -> Seq<Seq<(Seq<char>, Tone)>> {
    seq![
        seq![
            ("Algorithm: "@, Tone::Label),
            (a.algorithm@, Tone::Strong),
            ("  "@, Tone::Raw),
            (severity_text(a.severity), Tone::Graded(a.severity)),
        ],
        seq![
            ("Location:  "@, Tone::Label),
            (a.file_path@.push(':') + decimal(a.line_number as nat), Tone::Location),
        ],
        seq![("Library:   "@, Tone::Label), (a.library_source@, Tone::Value)],
    ] + (match a.dependency_path {
        Some(d) => seq![seq![("Dep Path:  "@, Tone::Label), (d@, Tone::DepPath)]],
        None => Seq::empty(),
    }) + (if meta_parts(a).len() > 0 {
        seq![seq![("Details:   "@, Tone::Label), (crate::text::join(meta_parts(a), ", "@), Tone::Value)]]
    } else {
        Seq::empty()
    }) + (if a.findings@.len() > 0 {
        seq![blank(), seq![("Findings:"@, Tone::Heading)]] + finding_lines(views(a.findings@))
    } else {
        Seq::empty()
    }) + (match a.remediation {
        Some(r) => seq![blank(), seq![("🔧 Fix Suggestion:"@, Tone::FixHeading)]] + fix_lines(lines(r@)),
        None => Seq::empty(),
    })
}

/// A line of two pieces.
fn two(a: String, ta: Tone, b: String, tb: Tone) -> (r: Spans)
    ensures
        spans_view(r) == seq![(a@, ta), (b@, tb)],
{
    let mut v: Spans = Vec::new();
    v.push((a, ta));
    v.push((b, tb));
    assert(spans_view(v) =~= seq![(a@, ta), (b@, tb)]);
    v
}

/// A line of one piece.
fn one(a: String, ta: Tone) -> (r: Spans)
    ensures
        spans_view(r) == seq![(a@, ta)],
{
    let mut v: Spans = Vec::new();
    v.push((a, ta));
    assert(spans_view(v) =~= seq![(a@, ta)]);
    v
}

/// Appends a line.
fn push_line(out: &mut Vec<Spans>, l: Spans)
    ensures
        text_view(final(out)@) == text_view(old(out)@).push(spans_view(l)),
{
    out.push(l);
    assert(text_view(final(out)@) =~= text_view(old(out)@).push(spans_view(l)));
}

/// The details of an asset: key size, mode and curve.
fn meta_parts_exec(a: &CryptoAsset) -> (r: Vec<Vec<char>>)
    ensures
        seqs(r@) == meta_parts(*a),
{
    let mut r: Vec<Vec<char>> = Vec::new();
    match a.key_size {
        Some(k) => {
            let mut v = chars_of("key=");
            push_decimal(&mut v, k as u64);
            push_str(&mut v, "bit");
            r.push(v);
        },
        None => {},
    }
    match &a.mode {
        Some(m) => {
            let mut v = chars_of("mode=");
            push_str(&mut v, m.as_str());
            r.push(v);
        },
        None => {},
    }
    match &a.curve {
        Some(c) => {
            let mut v = chars_of("curve=");
            push_str(&mut v, c.as_str());
            r.push(v);
        },
        None => {},
    }
    assert(seqs(r@) =~= meta_parts(*a));
    r
}

/// The detail panel of an asset, line by line.
pub fn detail_lines(a: &CryptoAsset) -> (r: Vec<Spans>)
    ensures
        text_view(r@) == detail_text(*a),
{
    let mut out: Vec<Spans> = Vec::new();
    let mut first: Spans = Vec::new();
    first.push((owned("Algorithm: "), Tone::Label));
    first.push((a.algorithm.clone(), Tone::Strong));
    first.push((owned("  "), Tone::Raw));
    first.push((owned(severity_label(&a.severity)), Tone::Graded(a.severity)));
    assert(spans_view(first) =~= seq![
        ("Algorithm: "@, Tone::Label),
        (a.algorithm@, Tone::Strong),
        ("  "@, Tone::Raw),
        (severity_text(a.severity), Tone::Graded(a.severity)),
    ]);
    assert(text_view(out@) =~= Seq::empty());
    push_line(&mut out, first);
    let mut loc = chars_of(a.file_path.as_str());
    loc.push(':');
    push_decimal(&mut loc, a.line_number as u64);
    push_line(&mut out, two(owned("Location:  "), Tone::Label, string_of(&loc), Tone::Location));
    push_line(&mut out, two(owned("Library:   "), Tone::Label, a.library_source.clone(), Tone::Value));
    let ghost base = text_view(out@);
    assert(base =~= seq![
        seq![
            ("Algorithm: "@, Tone::Label),
            (a.algorithm@, Tone::Strong),
            ("  "@, Tone::Raw),
            (severity_text(a.severity), Tone::Graded(a.severity)),
        ],
        seq![
            ("Location:  "@, Tone::Label),
            (a.file_path@.push(':') + decimal(a.line_number as nat), Tone::Location),
        ],
        seq![("Library:   "@, Tone::Label), (a.library_source@, Tone::Value)],
    ]);
    match &a.dependency_path {
        Some(d) => push_line(&mut out, two(owned("Dep Path:  "), Tone::Label, d.clone(), Tone::DepPath)),
        None => {},
    }
    let ghost after_dep = text_view(out@);
    assert(after_dep =~= base + (match a.dependency_path {
        Some(d) => seq![seq![("Dep Path:  "@, Tone::Label), (d@, Tone::DepPath)]],
        None => Seq::empty(),
    }));
    let meta = meta_parts_exec(a);
    if meta.len() > 0 {
        let j = crate::text::join_exec(&meta, ", ");
        push_line(&mut out, two(owned("Details:   "), Tone::Label, string_of(&j), Tone::Value));
    }
    let ghost after_meta = text_view(out@);
    assert(after_meta =~= after_dep + (if meta_parts(*a).len() > 0 {
        seq![seq![("Details:   "@, Tone::Label), (crate::text::join(meta_parts(*a), ", "@), Tone::Value)]]
    } else {
        Seq::empty()
    }));
    if a.findings.len() > 0 {
        proof {
            reveal_strlit("");
            assert(""@ =~= Seq::<char>::empty());
        }
        push_line(&mut out, one(owned(""), Tone::Raw));
        push_line(&mut out, one(owned("Findings:"), Tone::Heading));
        assert(text_view(out@) =~= after_meta + seq![blank(), seq![("Findings:"@, Tone::Heading)]]);
        let ghost fv = views(a.findings@);
        let ghost start = text_view(out@);
        let mut i: usize = 0;
        while i < a.findings.len()
            invariant
                i <= a.findings@.len(),
                fv == views(a.findings@),
                text_view(out@) == start + finding_lines(fv.subrange(0, i as int)),
            decreases a.findings.len() - i,
        {
            push_line(&mut out, two(owned("  • "), Tone::Bullet, a.findings[i].clone(), Tone::Value));
            assert(finding_lines(fv.subrange(0, i + 1)) =~= finding_lines(fv.subrange(0, i as int)).push(
                seq![("  • "@, Tone::Bullet), (a.findings@[i as int]@, Tone::Value)],
            ));
            i = i + 1;
        }
        assert(fv.subrange(0, a.findings@.len() as int) =~= fv);
        assert(text_view(out@) =~= after_meta + (seq![blank(), seq![("Findings:"@, Tone::Heading)]] + finding_lines(fv)));
    }
    let ghost after_findings = text_view(out@);
    assert(after_findings =~= after_meta + (if a.findings@.len() > 0 {
        seq![blank(), seq![("Findings:"@, Tone::Heading)]] + finding_lines(views(a.findings@))
    } else {
        Seq::empty()
    }));
    match &a.remediation {
        Some(rem) => {
            proof {
                reveal_strlit("");
                assert(""@ =~= Seq::<char>::empty());
            }
            push_line(&mut out, one(owned(""), Tone::Raw));
            push_line(&mut out, one(owned("🔧 Fix Suggestion:"), Tone::FixHeading));
            assert(text_view(out@) =~= after_findings + seq![blank(), seq![("🔧 Fix Suggestion:"@, Tone::FixHeading)]]);
            let rc = chars_of(rem.as_str());
            let rls = lines_of(&rc);
            let ghost lv = lines(rem@);
            let ghost start = text_view(out@);
            let mut i: usize = 0;
            while i < rls.len()
                invariant
                    i <= rls@.len(),
                    rls@.len() == lv.len(),
                    forall|k: int| 0 <= k < rls@.len() ==> #[trigger] rls@[k]@ == lv[k],
                    text_view(out@) == start + fix_lines(lv.subrange(0, i as int)),
                decreases rls.len() - i,
            {
                push_line(&mut out, two(owned("  "), Tone::Raw, string_of(&rls[i]), Tone::Fix));
                assert(fix_lines(lv.subrange(0, i + 1)) =~= fix_lines(lv.subrange(0, i as int)).push(
                    seq![("  "@, Tone::Raw), (lv[i as int], Tone::Fix)],
                ));
                i = i + 1;
            }
            assert(lv.subrange(0, rls@.len() as int) =~= lv);
            assert(text_view(out@) =~= after_findings + (seq![blank(), seq![("🔧 Fix Suggestion:"@, Tone::FixHeading)]]
                + fix_lines(lv)));
        },
        None => {},
    }
    assert(text_view(out@) =~= after_findings + (match a.remediation {
        Some(r) => seq![blank(), seq![("🔧 Fix Suggestion:"@, Tone::FixHeading)]] + fix_lines(lines(r@)),
        None => Seq::empty(),
    }));
    assert(text_view(out@) =~= detail_text(*a));
    out
}

/// The number of assets with the given severity.
pub open spec fn count_severity(v: Seq<CryptoAsset>, s: Severity) -> nat
    decreases v.len(),
{
    if v.len() == 0 {
        0
    } else {
        count_severity(v.drop_last(), s) + if v.last().severity == s {
            1nat
        } else {
            0nat
        }
    }
}

/// The number of assets with the given severity.
pub fn severity_count(assets: &[CryptoAsset], s: Severity) -> (r: usize)
    ensures
        r == count_severity(assets@, s),
{
    let mut n: usize = 0;
    let mut i: usize = 0;
    while i < assets.len()
        invariant
            i <= assets@.len(),
            n == count_severity(assets@.subrange(0, i as int), s),
            n <= i,
        decreases assets.len() - i,
    {
        assert(assets@.subrange(0, i + 1).drop_last() =~= assets@.subrange(0, i as int));
        if assets[i].severity == s {
            n = n + 1;
        }
        i = i + 1;
    }
    assert(assets@.subrange(0, assets@.len() as int) =~= assets@);
    n
}

/// The position shown in the status bar: `i/n` for row `i` (from 1), a
/// dash when nothing is selected.
pub open spec fn position_text(selected: Option<usize>, n: nat) -> Seq<char> {
    match selected {
        Some(i) => decimal((i + 1) as nat).push('/') + decimal(n),
        None => "—"@,
    }
}

/// The position shown in the status bar.
pub fn position_label(selected: Option<usize>, n: usize) -> (r: String)
    requires
        selected matches Some(i) ==> i < n,
    ensures
        r@ == position_text(selected, n as nat),
{
    match selected {
        Some(i) => {
            let mut v: Vec<char> = Vec::new();
            push_decimal(&mut v, (i + 1) as u64);
            v.push('/');
            push_decimal(&mut v, n as u64);
            string_of(&v)
        },
        None => owned("—"),
    }
}

// ---------------------------------------------------------------------------
// Laws
// ---------------------------------------------------------------------------

/// A truncated cell is never wider than `max` characters, and a cell that
/// fits in `max` bytes is shown unchanged.
pub proof fn law_truncated_cells_fit(s: Seq<char>, max: nat)
    requires
        truncatable(s, max),
    ensures
        truncated(s, max).len() <= max,
        byte_len(s) <= max ==> truncated(s, max) == s,
{
    lemma_chars_within_bytes(s);
    if byte_len(s) > max {
        let k = choose|k: int| 0 <= k <= s.len() && byte_len(#[trigger] s.subrange(0, k)) == (max - 1) as nat;
        crate::text::lemma_prefix_bytes_unique(s, (max - 1) as nat, k);
        lemma_chars_within_bytes(s.subrange(0, k));
    }
}

/// A text has no more characters than bytes.
proof fn lemma_chars_within_bytes(s: Seq<char>)
    ensures
        s.len() <= byte_len(s),
    decreases s.len(),
{
    if s.len() > 0 {
        lemma_chars_within_bytes(s.drop_last());
    }
}

/// Every asset is counted under exactly one severity: the five counts add
/// up to the number of assets.
pub proof fn law_severity_counts_add_up(v: Seq<CryptoAsset>)
    ensures
        count_severity(v, Severity::Critical) + count_severity(v, Severity::Warning) + count_severity(
            v,
            Severity::Info,
        ) + count_severity(v, Severity::Safe) + count_severity(v, Severity::Unknown) == v.len(),
    decreases v.len(),
{
    if v.len() > 0 {
        law_severity_counts_add_up(v.drop_last());
    }
}

} // verus!
