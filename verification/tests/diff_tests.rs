use cbom::diff::diff_cbom;
use cbom::models::{CryptoAsset, DetectionSource, QuantumSafe, Severity};

fn asset(algo: &str, file: &str, line: usize, lib: &str) -> CryptoAsset {
    CryptoAsset {
        algorithm: algo.to_string(),
        file_path: file.to_string(),
        line_number: line,
        library_source: lib.to_string(),
        key_size: None,
        mode: None,
        padding: None,
        curve: None,
        quantum_safe: QuantumSafe::Unknown,
        severity: Severity::Unknown,
        detection_source: DetectionSource::SourceCode,
        findings: Vec::new(),
        cert_subject: None,
        cert_issuer: None,
        cert_expiry: None,
        cert_serial: None,
        protocol_version: None,
        cipher_suites: Vec::new(),
        dependency_path: None,
        remediation: None,
    }
}

#[test]
fn test_no_changes() {
    let base = vec![asset("SHA256", "a.py", 1, "hashlib")];
    let head = vec![asset("SHA256", "a.py", 1, "hashlib")];
    let result = diff_cbom(&base, &head, false);
    assert!(result.added.is_empty());
    assert!(result.removed.is_empty());
    assert!(!result.has_violations);
}

#[test]
fn test_new_crypto_added() {
    let base = vec![asset("SHA256", "a.py", 1, "hashlib")];
    let head = vec![
        asset("SHA256", "a.py", 1, "hashlib"),
        asset("AES", "b.py", 5, "Crypto"),
    ];
    let result = diff_cbom(&base, &head, false);
    assert_eq!(result.added.len(), 1);
    assert_eq!(result.added[0].algorithm, "AES");
    assert!(result.removed.is_empty());
}

#[test]
fn test_crypto_removed() {
    let base = vec![
        asset("SHA256", "a.py", 1, "hashlib"),
        asset("MD5", "c.py", 10, "hashlib"),
    ];
    let head = vec![asset("SHA256", "a.py", 1, "hashlib")];
    let result = diff_cbom(&base, &head, false);
    assert!(result.added.is_empty());
    assert_eq!(result.removed.len(), 1);
    assert_eq!(result.removed[0].algorithm, "MD5");
}

#[test]
fn test_both_added_and_removed() {
    let base = vec![asset("MD5", "old.py", 3, "hashlib")];
    let head = vec![asset("SHA256", "new.py", 7, "hashlib")];
    let result = diff_cbom(&base, &head, false);
    assert_eq!(result.added.len(), 1);
    assert_eq!(result.added[0].algorithm, "SHA256");
    assert_eq!(result.removed.len(), 1);
    assert_eq!(result.removed[0].algorithm, "MD5");
}

#[test]
fn test_empty_base() {
    let base: Vec<CryptoAsset> = vec![];
    let head = vec![asset("AES", "x.js", 1, "node:crypto")];
    let result = diff_cbom(&base, &head, false);
    assert_eq!(result.added.len(), 1);
    assert!(result.removed.is_empty());
}

#[test]
fn test_both_empty() {
    let base: Vec<CryptoAsset> = vec![];
    let head: Vec<CryptoAsset> = vec![];
    let result = diff_cbom(&base, &head, false);
    assert!(result.added.is_empty());
    assert!(result.removed.is_empty());
}

#[test]
fn test_strict_mode_flags_deprecated() {
    let base: Vec<CryptoAsset> = vec![];
    let head = vec![asset("MD5", "bad.py", 1, "hashlib")];
    let result = diff_cbom(&base, &head, true);
    assert!(result.has_violations);
}

#[test]
fn test_strict_mode_passes_for_safe() {
    let base: Vec<CryptoAsset> = vec![];
    let head = vec![asset("AES", "good.py", 1, "Crypto")];
    let result = diff_cbom(&base, &head, true);
    assert!(!result.has_violations);
}

#[test]
fn test_non_strict_mode_no_violations() {
    let base: Vec<CryptoAsset> = vec![];
    let head = vec![asset("MD5", "bad.py", 1, "hashlib")];
    let result = diff_cbom(&base, &head, false);
    assert!(!result.has_violations);
}

// ---------------------------------------------------------------------------
// Further scenarios and laws on concrete values
// ---------------------------------------------------------------------------

#[test]
fn identity_ignores_context_fields_and_added_assets_are_evaluated() {
    let mut moved = asset("SHA256", "a.py", 1, "hashlib");
    moved.mode = Some("GCM".to_string());
    let base = vec![asset("SHA256", "a.py", 1, "hashlib")];
    let head = vec![moved, asset("RSA", "a.py", 2, "hashlib")];
    let result = diff_cbom(&base, &head, false);
    assert_eq!(result.added.len(), 1);
    assert_eq!(result.added[0].severity, Severity::Info);
    assert_eq!(result.added[0].quantum_safe, QuantumSafe::Vulnerable);
    assert!(result.removed.is_empty());
}

#[test]
fn a_different_line_is_a_different_asset() {
    let base = vec![asset("AES", "a.py", 1, "Crypto")];
    let head = vec![asset("AES", "a.py", 2, "Crypto")];
    let result = diff_cbom(&base, &head, false);
    assert_eq!(result.added.len(), 1);
    assert_eq!(result.removed.len(), 1);
    assert_eq!(result.removed[0].line_number, 1);
    assert_eq!(result.removed[0].severity, Severity::Unknown);
}

#[test]
fn swapping_sides_swaps_added_and_removed() {
    let a = vec![asset("MD5", "x.py", 1, "hashlib"), asset("AES", "y.py", 2, "Crypto")];
    let b = vec![asset("AES", "y.py", 2, "Crypto"), asset("SHA1", "z.py", 3, "hashlib")];
    let ab = diff_cbom(&a, &b, false);
    let ba = diff_cbom(&b, &a, false);
    assert_eq!(ab.added.len(), ba.removed.len());
    assert_eq!(ab.removed.len(), ba.added.len());
    assert_eq!(ab.added[0].algorithm, ba.removed[0].algorithm);
    assert_eq!(ab.removed[0].algorithm, ba.added[0].algorithm);
}

#[test]
fn strict_mode_flags_critical_ecb() {
    let mut ecb = asset("AES", "e.py", 4, "Crypto");
    ecb.mode = Some("ECB".to_string());
    let result = diff_cbom(&[], &[ecb], true);
    assert!(result.has_violations);
    assert_eq!(result.added[0].severity, Severity::Critical);
}
