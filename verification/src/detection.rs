//! What a source-code finding records, and how findings are appended to the
//! list that a scan builds.

use vstd::prelude::*;

use crate::models::{opt_view, owned, views, CryptoAsset, DetectionSource, QuantumSafe, Severity};

verus! {

/// The content of a source-code finding; the file it was found in is given
/// beside it.
pub struct Detection {
    pub algorithm: Seq<char>,
    pub line: int,
    pub library: Seq<char>,
    pub severity: Severity,
    pub findings: Seq<Seq<char>>,
    pub key_size: Option<u32>,
    pub mode: Option<Seq<char>>,
    pub padding: Option<Seq<char>>,
    pub curve: Option<Seq<char>>,
    pub protocol_version: Option<Seq<char>>,
    pub cipher_suites: Seq<Seq<char>>,
}

/// A plain finding: algorithm, line and library, nothing more.
pub open spec fn plain(algorithm: Seq<char>, line: int, library: Seq<char>) -> Detection {
    Detection {
        algorithm,
        line,
        library,
        severity: Severity::Unknown,
        findings: Seq::empty(),
        key_size: None,
        mode: None,
        padding: None,
        curve: None,
        protocol_version: None,
        cipher_suites: Seq::empty(),
    }
}

/// A finding flagged critical at detection time, with its explanation.
pub open spec fn alarm(algorithm: Seq<char>, line: int, library: Seq<char>, message: Seq<char>) -> Detection {
    Detection { severity: Severity::Critical, findings: seq![message], ..plain(algorithm, line, library) }
}

/// `a` is the source-code finding `d` of the file `file`.
pub open spec fn is_detection(a: CryptoAsset, file: Seq<char>, d: Detection) -> bool {
    &&& a.algorithm@ == d.algorithm
    &&& a.file_path@ == file
    &&& a.line_number == d.line
    &&& a.library_source@ == d.library
    &&& a.key_size == d.key_size
    &&& opt_view(a.mode) == d.mode
    &&& opt_view(a.padding) == d.padding
    &&& opt_view(a.curve) == d.curve
    &&& a.quantum_safe == QuantumSafe::Unknown
    &&& a.severity == d.severity
    &&& a.detection_source == DetectionSource::SourceCode
    &&& views(a.findings@) == d.findings
    &&& a.cert_subject is None
    &&& a.cert_issuer is None
    &&& a.cert_expiry is None
    &&& a.cert_serial is None
    &&& opt_view(a.protocol_version) == d.protocol_version
    &&& views(a.cipher_suites@) == d.cipher_suites
    &&& a.dependency_path is None
    &&& a.remediation is None
}

/// `after` is `before` followed by the findings `ds` of `file`.
pub open spec fn appended(before: Seq<CryptoAsset>, after: Seq<CryptoAsset>, file: Seq<char>, ds: Seq<Detection>) -> bool {
    &&& after.len() == before.len() + ds.len()
    &&& after.subrange(0, before.len() as int) == before
    &&& forall|i: int| 0 <= i < ds.len() ==> is_detection(#[trigger] after[before.len() + i], file, ds[i])
}

/// `v` holds exactly the findings `ds` of `file`.
pub open spec fn detections(v: Seq<CryptoAsset>, file: Seq<char>, ds: Seq<Detection>) -> bool {
    appended(Seq::empty(), v, file, ds)
}

/// Appending nothing keeps the findings.
pub proof fn lemma_appended_nothing(s: Seq<CryptoAsset>, file: Seq<char>)
    ensures
        appended(s, s, file, Seq::empty()),
{
    assert(s.subrange(0, s.len() as int) =~= s);
}

/// Appending in two steps.
pub proof fn lemma_appended_trans(
    a: Seq<CryptoAsset>,
    b: Seq<CryptoAsset>,
    c: Seq<CryptoAsset>,
    file: Seq<char>,
    d1: Seq<Detection>,
    d2: Seq<Detection>,
)
    requires
        appended(a, b, file, d1),
        appended(b, c, file, d2),
    ensures
        appended(a, c, file, d1 + d2),
{
    assert(c.subrange(0, a.len() as int) =~= b.subrange(0, a.len() as int));
    assert forall|i: int| 0 <= i < (d1 + d2).len() implies is_detection(
        #[trigger] c[a.len() + i],
        file,
        (d1 + d2)[i],
    ) by {
        if i < d1.len() {
            assert(c[a.len() + i] == b[a.len() + i]);
        } else {
            assert(c[a.len() + i] == c[b.len() + (i - d1.len())]);
        }
    }
}

/// The findings that a scan of the lines `ls` produces, when `f(line, n)`
/// gives the findings of line `line`, numbered `n` from 1.
pub open spec fn line_detections(ls: Seq<Seq<char>>, f: spec_fn(Seq<char>, int) -> Seq<Detection>) -> Seq<Detection>
    decreases ls.len(),
{
    if ls.len() == 0 {
        Seq::empty()
    } else {
        line_detections(ls.drop_last(), f) + f(ls.last(), ls.len() as int)
    }
}

/// One more line scanned.
pub proof fn lemma_line_detections_step(ls: Seq<Seq<char>>, i: int, f: spec_fn(Seq<char>, int) -> Seq<Detection>)
    requires
        0 <= i < ls.len(),
    ensures
        line_detections(ls.subrange(0, i + 1), f) == line_detections(ls.subrange(0, i), f) + f(ls[i], i + 1),
{
    assert(ls.subrange(0, i + 1).drop_last() =~= ls.subrange(0, i));
}

/// Builds the finding `d` of `file`: a new asset with the detected context.
pub fn detection_asset(
    algorithm: String,
    file_path: &str,
    line: usize,
    library: String,
    severity: Severity,
    message: Option<String>,
) -> (a: CryptoAsset)
    ensures
        is_detection(
            a,
            file_path@,
            Detection {
                severity,
                findings: match message {
                    Some(m) => seq![m@],
                    None => Seq::empty(),
                },
                ..plain(algorithm@, line as int, library@)
            },
        ),
{
    let mut a = CryptoAsset::new(algorithm, owned(file_path), line, library);
    a.severity = severity;
    match message {
        Some(m) => {
            a.findings.push(m);
            assert(views(a.findings@) =~= seq![m@]);
        },
        None => {
            assert(views(a.findings@) =~= Seq::empty());
        },
    }
    assert(views(a.cipher_suites@) =~= Seq::empty());
    a
}

/// Appends a plain finding.
pub fn push_plain(findings: &mut Vec<CryptoAsset>, algorithm: String, file_path: &str, line: usize, library: String)
    ensures
        appended(old(findings)@, final(findings)@, file_path@, seq![plain(algorithm@, line as int, library@)]),
{
    let a = detection_asset(algorithm, file_path, line, library, Severity::Unknown, None);
    assert(Detection { severity: Severity::Unknown, findings: Seq::empty(), ..plain(algorithm@, line as int, library@) }
        == plain(algorithm@, line as int, library@));
    findings.push(a);
    assert(findings@.subrange(0, old(findings)@.len() as int) =~= old(findings)@);
}

/// Appends a critical finding with its explanation.
pub fn push_alarm(findings: &mut Vec<CryptoAsset>, algorithm: String, file_path: &str, line: usize, library: String, message: String)
    ensures
        appended(old(findings)@, final(findings)@, file_path@, seq![alarm(algorithm@, line as int, library@, message@)]),
{
    let ghost m = message@;
    let a = detection_asset(algorithm, file_path, line, library, Severity::Critical, Some(message));
    findings.push(a);
    assert(findings@.subrange(0, old(findings)@.len() as int) =~= old(findings)@);
}

/// Every finding that a source scan appends is marked as found in source
/// code, in the scanned file, with its quantum safety left to the policy.
pub proof fn law_source_findings_are_marked_source_code(
    before: Seq<CryptoAsset>,
    after: Seq<CryptoAsset>,
    file: Seq<char>,
    ds: Seq<Detection>,
)
    requires
        appended(before, after, file, ds),
    ensures
        forall|i: int|
            before.len() <= i < after.len() ==> (#[trigger] after[i]).detection_source == DetectionSource::SourceCode
                && after[i].file_path@ == file && after[i].quantum_safe == QuantumSafe::Unknown,
{
    assert forall|i: int| before.len() <= i < after.len() implies (#[trigger] after[i]).detection_source
        == DetectionSource::SourceCode && after[i].file_path@ == file && after[i].quantum_safe
        == QuantumSafe::Unknown by {
        assert(is_detection(after[before.len() + (i - before.len())], file, ds[i - before.len()]));
    }
}

} // verus!
