use cbom::diff::{diff_cbom, DiffResult};
use cbom::history::CommitCryptoSnapshot;
use cbom::models::{CryptoAsset, DetectionSource, QuantumSafe, Severity};
use cbom::report::{
    comparing_banner, dependency_notice, diff_report, scan_output, scan_overview, scanning_banner,
    summary_printable_all, summary_report, timeline_printable_all, timeline_report, ScanOutput,
};

fn asset(algorithm: &str, file: &str, line: usize, library: &str) -> CryptoAsset {
    CryptoAsset::new(algorithm.to_string(), file.to_string(), line, library.to_string())
}

fn graded(algorithm: &str, file: &str, line: usize, library: &str, s: Severity) -> CryptoAsset {
    let mut a = asset(algorithm, file, line, library);
    a.severity = s;
    a
}

const TOP: &str = "┌─────────────────────────────────────────────────────────────────────────────────────────────┐";
const FOOT: &str = "└──────────────────┴──────────┴──────────┴────────┴─────────────────────┴─────────────────────┘";

#[test]
fn test_summary_report_rows() {
    let mut md5 = graded("MD5", "src/legacy/crypto/old.py", 3, "hashlib", Severity::Critical);
    md5.findings = vec!["MD5 is broken.".to_string()];
    md5.remediation = Some("Use SHA-256\nhashlib.sha256(data)".to_string());
    let mut aes = graded("AES", "a.py", 10, "Crypto", Severity::Safe);
    aes.quantum_safe = QuantumSafe::Safe;
    let mut dep = asset("DEPENDENCY:CRYPTOGRAPHY", "requirements.txt", 2, "cryptography");
    dep.detection_source = DetectionSource::Dependency;
    dep.severity = Severity::Warning;
    dep.dependency_path = Some("app -> cryptography".to_string());
    let findings = vec![md5, aes, dep];
    assert!(summary_printable_all(&findings));
    let r = summary_report(&findings);
    let expected = vec![
        TOP,
        "│  🔐 KeyLens CBOM Summary                                                                  │",
        "├──────────────────┬──────────┬──────────┬────────┬─────────────────────┬─────────────────────┤",
        "│ Algorithm        │ Severity │ Quantum  │ Source │ Library             │ Location            │",
        "├──────────────────┼──────────┼──────────┼────────┼─────────────────────┼─────────────────────┤",
        "│ MD5              │ 🚨 CRIT   │ — N/A    │ Code   │ hashlib             │ …/crypto/old.py:3   │",
        "│ AES              │ ✅ SAFE   │ ✅ Safe   │ Code   │ Crypto              │ a.py:10             │",
        "│ DEPENDENCY:CRYP… │ ⚠  WARN  │ — N/A    │ Dep    │ cryptography        │ requirements.txt:2  │",
        FOOT,
        "",
        "🔧 Actionable Findings:",
        "",
        "  🚨 MD5 in src/legacy/crypto/old.py",
        "     └─ MD5 is broken.",
        "     🔧 Fix: Use SHA-256",
        "              hashlib.sha256(data)",
        "",
        "  ⚠️ DEPENDENCY:CRYPTOGRAPHY in requirements.txt",
        "     📦 Dependency path: app -> cryptography",
        "",
    ];
    assert_eq!(r, expected);
}

#[test]
fn test_summary_report_without_actionable() {
    let r = summary_report(&[graded("AES", "a.py", 0, "Crypto", Severity::Safe)]);
    assert_eq!(r.len(), 7);
    assert_eq!(r[5], "│ AES              │ ✅ SAFE   │ — N/A    │ Code   │ Crypto              │ a.py                │");
    assert_eq!(r[6], FOOT);
}

#[test]
fn test_summary_printable_rejects_split_character() {
    let a = asset("ÄÄÄÄÄÄÄÄÄ", "a.py", 1, "lib");
    assert!(!summary_printable_all(&[a]));
    let b = asset("ÄÄÄÄÄÄÄÄ", "a.py", 1, "lib");
    assert!(summary_printable_all(&[b]));
}

#[test]
fn test_timeline_report() {
    let mut md5 = graded("MD5", "m.py", 1, "hashlib", Severity::Critical);
    md5.findings = vec!["broken".to_string()];
    let snaps = vec![
        CommitCryptoSnapshot {
            hash: "ccccccc".to_string(),
            subject: "Replace MD5 with SHA-256 because of collisions in certificates".to_string(),
            date: "2024-03-03".to_string(),
            total_assets: 3,
            added: vec![
                graded("SHA256", "m.py", 1, "hashlib", Severity::Safe),
                graded("SHA256", "n.py", 1, "hashlib", Severity::Safe),
                graded("AES", "a.py", 1, "Crypto", Severity::Safe),
            ],
            removed: vec![md5.clone()],
        },
        CommitCryptoSnapshot {
            hash: "aaaaaaa".to_string(),
            subject: "Initial".to_string(),
            date: "2024-01-01".to_string(),
            total_assets: 1,
            added: vec![md5],
            removed: vec![],
        },
    ];
    let r = timeline_report(&snaps);
    let expected = vec![
        "┌─────────────────────────────────────────────────────────────────────┐",
        "│  📊 Cryptographic History Timeline                                 │",
        "├─────────────────────────────────────────────────────────────────────┤",
        "│                                                                     │",
        "│  2024-03-03 (ccccccc)  Replace MD5 with SHA-256 because of col…",
        "│  Total crypto assets: 3",
        "│  ✅ Added 3 asset(s): SHA256 (×2), AES",
        "│  🗑️  Removed 1 asset(s): MD5",
        "│  ─ ─ ─ ─ ─ ─ ─ ─ ─ ─ ─ ─ ─ ─ ─ ─ ─ ─ ─ ─ ─ ─ ─ ─ ─ ─ ─ ─ ─ ",
        "│                                                                     │",
        "│  2024-01-01 (aaaaaaa)  Initial",
        "│  Total crypto assets: 1",
        "│  ✅ Added 1 asset(s): MD5",
        "│  🚨 1 critical issue(s) introduced!",
        "│                                                                     │",
        "└─────────────────────────────────────────────────────────────────────┘",
        "",
        "📈 Summary across 2 commit(s):",
        "   + 4 crypto asset(s) added",
        "   - 1 crypto asset(s) removed",
        "   🚨 1 critical issue(s) introduced",
    ];
    assert_eq!(r, expected);
}

#[test]
fn test_timeline_report_no_changes() {
    let snap = |h: &str| CommitCryptoSnapshot {
        hash: h.to_string(),
        subject: "s".to_string(),
        date: "d".to_string(),
        total_assets: 0,
        added: vec![],
        removed: vec![],
    };
    let r = timeline_report(&[snap("b"), snap("a")]);
    assert_eq!(r[6], "│  ─ ─ ─ ─ ─ ─ ─ ─ ─ ─ ─ ─ ─ ─ ─ ─ ─ ─ ─ ─ ─ ─ ─ ─ ─ ─ ─ ─ ─ ");
    assert_eq!(r[10], "│  — No cryptographic changes");
    assert_eq!(r.len(), 17);
    assert_eq!(r[16], "   - 0 crypto asset(s) removed");
    assert_eq!(timeline_report(&[]), vec!["  No commits to display."]);
}

#[test]
fn test_scan_banners() {
    assert_eq!(scanning_banner("./src"), "🔍 Scanning: ./src\n");
    assert_eq!(dependency_notice(0), None);
    assert_eq!(
        dependency_notice(1),
        Some("📦 Found 1 cryptographic dependency in lockfiles.".to_string())
    );
    assert_eq!(
        dependency_notice(3),
        Some("📦 Found 3 cryptographic dependencies in lockfiles.".to_string())
    );
}

#[test]
fn test_scan_overview() {
    assert_eq!(scan_overview(&[]), vec!["✅ No cryptographic usage detected."]);
    let v = vec![
        graded("MD5", "a.py", 1, "hashlib", Severity::Critical),
        graded("AES", "b.py", 1, "Crypto", Severity::Safe),
        graded("RSA", "c.py", 1, "rsa", Severity::Info),
    ];
    assert_eq!(
        scan_overview(&v),
        vec![
            "⚠️  Found 3 cryptographic asset(s): 1 critical, 0 warning, 1 info, 1 safe.\n",
            "🚨 CRITICAL issues detected! Review findings below.\n",
        ]
    );
    assert_eq!(scan_overview(&v[1..]).len(), 1);
}

#[test]
fn test_scan_output_choice() {
    assert!(scan_output("json", true) == ScanOutput::Summary);
    assert!(scan_output("cyclonedx", true) == ScanOutput::Summary);
    assert!(scan_output("cyclonedx", false) == ScanOutput::CycloneDx);
    assert!(scan_output("json", false) == ScanOutput::Json);
    assert!(scan_output("xml", false) == ScanOutput::Json);
}

#[test]
fn test_comparing_banner() {
    assert_eq!(
        comparing_banner("base.json", "head.json", false),
        vec!["🔍 Comparing CBOMs:\\n   base: base.json\\n   head: head.json\\n"]
    );
    let strict = comparing_banner("b", "h", true);
    assert_eq!(strict.len(), 2);
    assert_eq!(
        strict[1],
        "🔒 Strict mode enabled: deprecated/critical algorithms will cause failure.\n"
    );
}

#[test]
fn test_diff_report_no_new_assets() {
    let base = vec![asset("SHA256", "a.py", 1, "hashlib"), asset("MD5", "old.py", 2, "hashlib")];
    let head = vec![asset("SHA256", "a.py", 1, "hashlib")];
    let r = diff_cbom(&base, &head, true);
    let d = diff_report(&r, true, true);
    assert_eq!(
        d.notes,
        vec![
            "ℹ️  1 cryptographic asset(s) removed (no longer detected).",
            "✅ No new cryptographic assets introduced.",
        ]
    );
    assert!(d.annotations.is_empty());
    assert!(d.empty_delta);
    assert_eq!(d.exit_code, 0);
}

#[test]
fn test_diff_report_strict_violation() {
    let head = vec![asset("MD5", "bad.py", 3, "hashlib"), asset("AES", "good.py", 4, "Crypto")];
    let r = diff_cbom(&[], &head, true);
    let d = diff_report(&r, true, true);
    assert_eq!(d.exit_code, 1);
    assert!(!d.empty_delta);
    assert_eq!(d.notes[0], "⚠️  2 NEW cryptographic asset(s) detected!\n");
    assert_eq!(
        d.notes[1],
        "🚨 STRICT MODE VIOLATION: Deprecated or critically insecure cryptography detected in new assets!\n"
    );
    assert_eq!(
        d.notes[2],
        "   ❌ MD5 in bad.py (line 3): [\"MD5 is cryptographically broken; collisions are trivial to produce.\"]"
    );
    assert_eq!(d.notes[3], "");
    assert_eq!(d.notes.len(), 4);
    assert_eq!(
        d.annotations,
        vec!["::error file=bad.py,line=3::Banned cryptography introduced: MD5 - MD5 is cryptographically broken; collisions are trivial to produce."]
    );
}

#[test]
fn test_diff_report_lenient_outside_ci() {
    let r = DiffResult {
        added: vec![graded("3DES", "x.py", 5, "Crypto", Severity::Warning)],
        removed: vec![],
        has_violations: false,
    };
    let d = diff_report(&r, false, false);
    assert_eq!(d.notes, vec!["⚠️  1 NEW cryptographic asset(s) detected!\n"]);
    assert!(d.annotations.is_empty());
    assert_eq!(d.exit_code, 1);
    let strict_ci = diff_report(&r, true, true);
    assert_eq!(strict_ci.annotations.len(), 1);
    assert_eq!(diff_report(&r, false, true).annotations.len(), 0);
}

#[test]
fn test_timeline_printable_all() {
    let snap = |subject: &str| CommitCryptoSnapshot {
        hash: "abc1234".to_string(),
        subject: subject.to_string(),
        date: "2024-01-01".to_string(),
        total_assets: 0,
        added: vec![],
        removed: vec![],
    };
    assert!(timeline_printable_all(&[]));
    assert!(timeline_printable_all(&[snap("short"), snap(&"x".repeat(60))]));
    // 38 ASCII bytes then a two-byte character straddling byte 39.
    let straddling = format!("{}é{}", "a".repeat(38), "b".repeat(10));
    assert!(!timeline_printable_all(&[snap("ok"), snap(&straddling)]));
    let fitting = format!("{}é", "a".repeat(38));
    assert!(timeline_printable_all(&[snap(&fitting)]));
}
