use cbom::models::{CryptoAsset, DetectionSource, QuantumSafe, Severity};
use cbom::policy::{evaluate, evaluate_all, generate_remediation, has_critical, has_deprecated};

fn make_asset(algo: &str) -> CryptoAsset {
    CryptoAsset {
        algorithm: algo.to_string(),
        file_path: "test.py".to_string(),
        line_number: 1,
        library_source: "test".to_string(),
        key_size: None,
        mode: None,
        padding: None,
        curve: None,
        quantum_safe: QuantumSafe::Unknown,
        severity: Severity::Unknown,
        detection_source: DetectionSource::SourceCode,
        findings: Vec::new(),
        cert_subject: None,
        cert_issuer: None,
        cert_expiry: None,
        cert_serial: None,
        protocol_version: None,
        cipher_suites: Vec::new(),
        dependency_path: None,
        remediation: None,
    }
}

#[test]
fn test_md5_is_critical() {
    let mut asset = make_asset("MD5");
    evaluate(&mut asset);
    assert_eq!(asset.severity, Severity::Critical);
    assert!(!asset.findings.is_empty());
}

#[test]
fn test_sha1_is_critical() {
    let mut asset = make_asset("SHA1");
    evaluate(&mut asset);
    assert_eq!(asset.severity, Severity::Critical);
}

#[test]
fn test_des_is_critical() {
    let mut asset = make_asset("DES");
    evaluate(&mut asset);
    assert_eq!(asset.severity, Severity::Critical);
}

#[test]
fn test_aes_is_safe() {
    let mut asset = make_asset("AES");
    evaluate(&mut asset);
    assert_eq!(asset.severity, Severity::Safe);
    assert_eq!(asset.quantum_safe, QuantumSafe::Safe);
}

#[test]
fn test_rsa_is_quantum_vulnerable() {
    let mut asset = make_asset("RSA");
    evaluate(&mut asset);
    assert_eq!(asset.quantum_safe, QuantumSafe::Vulnerable);
    assert_eq!(asset.severity, Severity::Info);
}

#[test]
fn test_ecb_mode_is_critical() {
    let mut asset = make_asset("AES");
    asset.mode = Some("ECB".to_string());
    evaluate(&mut asset);
    assert_eq!(asset.severity, Severity::Critical);
}

#[test]
fn test_cbc_mode_has_warning() {
    let mut asset = make_asset("AES");
    asset.mode = Some("CBC".to_string());
    evaluate(&mut asset);
    assert!(asset.findings.iter().any(|f| f.contains("CBC")));
}

#[test]
fn test_small_rsa_key() {
    let mut asset = make_asset("RSA");
    asset.key_size = Some(1024);
    evaluate(&mut asset);
    assert!(asset
        .findings
        .iter()
        .any(|f| f.contains("below the 2048-bit minimum")));
}

#[test]
fn test_kyber_is_quantum_safe() {
    let mut asset = make_asset("KYBER");
    evaluate(&mut asset);
    assert_eq!(asset.quantum_safe, QuantumSafe::Safe);
}

#[test]
fn test_hardcoded_iv_is_critical() {
    let mut asset = make_asset("HARDCODED_IV");
    evaluate(&mut asset);
    assert_eq!(asset.severity, Severity::Critical);
}

#[test]
fn test_insecure_prng_is_critical() {
    let mut asset = make_asset("INSECURE_PRNG");
    evaluate(&mut asset);
    assert_eq!(asset.severity, Severity::Critical);
}

#[test]
fn test_3des_is_warning() {
    let mut asset = make_asset("3DES");
    evaluate(&mut asset);
    assert_eq!(asset.severity, Severity::Warning);
}

#[test]
fn test_has_deprecated() {
    let assets = vec![make_asset("AES"), make_asset("MD5")];
    assert!(has_deprecated(&assets));
}

#[test]
fn test_no_deprecated() {
    let assets = vec![make_asset("AES"), make_asset("SHA256")];
    assert!(!has_deprecated(&assets));
}

#[test]
fn test_md5_remediation_python() {
    let mut asset = make_asset("MD5");
    asset.library_source = "hashlib".to_string();
    evaluate(&mut asset);
    assert!(asset.remediation.is_some());
    let rem = asset.remediation.unwrap();
    assert!(rem.contains("SHA-256"));
    assert!(rem.contains("hashlib.sha256"));
}

#[test]
fn test_md5_remediation_node() {
    let mut asset = make_asset("MD5");
    asset.library_source = "node:crypto".to_string();
    evaluate(&mut asset);
    assert!(asset.remediation.is_some());
    let rem = asset.remediation.unwrap();
    assert!(rem.contains("sha256"));
    assert!(rem.contains("createHash"));
}

#[test]
fn test_des_remediation() {
    let mut asset = make_asset("DES");
    asset.library_source = "javax.crypto.Cipher".to_string();
    evaluate(&mut asset);
    assert!(asset.remediation.is_some());
    assert!(asset.remediation.unwrap().contains("AES/GCM"));
}

#[test]
fn test_aes_safe_no_remediation() {
    let mut asset = make_asset("AES");
    evaluate(&mut asset);
    assert!(asset.remediation.is_none());
}

#[test]
fn test_hardcoded_key_remediation() {
    let mut asset = make_asset("HARDCODED_KEY");
    evaluate(&mut asset);
    assert!(asset.remediation.is_some());
    assert!(asset.remediation.unwrap().contains("randomly at runtime"));
}

#[test]
fn test_rsa_remediation() {
    let mut asset = make_asset("RSA");
    evaluate(&mut asset);
    assert!(asset.remediation.is_some());
    assert!(asset.remediation.unwrap().contains("2048"));
}

// ---------------------------------------------------------------------------
// Further scenarios and laws on concrete values
// ---------------------------------------------------------------------------

#[test]
fn evaluation_twice_gives_the_same_asset() {
    let mut once = make_asset("MD5");
    once.mode = Some("cbc".to_string());
    once.key_size = Some(512);
    evaluate(&mut once);
    let mut twice = once.clone();
    evaluate(&mut twice);
    assert_eq!(once, twice);
}

#[test]
fn ecb_mode_lowercase_is_critical_with_its_remediation() {
    let mut asset = make_asset("AES");
    asset.mode = Some("ecb".to_string());
    evaluate(&mut asset);
    assert_eq!(asset.severity, Severity::Critical);
    assert_eq!(
        asset.findings.last().unwrap(),
        "ECB mode is insecure: it leaks patterns in ciphertext."
    );
    assert_eq!(
        asset.remediation.as_deref(),
        Some("Replace ECB mode with GCM (authenticated encryption). Example: use AES-256-GCM instead of AES-ECB.")
    );
}

#[test]
fn small_aes_key_and_small_rsa_key_messages() {
    let mut aes = make_asset("AES");
    aes.key_size = Some(64);
    evaluate(&mut aes);
    assert_eq!(
        aes.findings,
        vec!["AES key size 64 bits is non-standard and insecure.".to_string()]
    );
    let mut rsa = make_asset("rsa");
    rsa.key_size = Some(1024);
    evaluate(&mut rsa);
    assert_eq!(rsa.findings[0], "RSA key size 1024 bits is below the 2048-bit minimum.");
    assert_eq!(rsa.severity, Severity::Info);
}

#[test]
fn evaluate_all_grades_every_asset_and_critical_is_reported() {
    let mut assets = vec![make_asset("AES"), make_asset("RC4"), make_asset("SHA256")];
    assert!(!has_critical(&assets));
    evaluate_all(&mut assets);
    assert_eq!(assets.len(), 3);
    assert_eq!(assets[0].severity, Severity::Safe);
    assert_eq!(assets[1].severity, Severity::Critical);
    assert_eq!(assets[2].severity, Severity::Safe);
    assert!(has_critical(&assets));
}

#[test]
fn unknown_algorithm_is_safe_and_quantum_unknown() {
    let mut asset = make_asset("FOOBAR");
    evaluate(&mut asset);
    assert_eq!(asset.quantum_safe, QuantumSafe::Unknown);
    assert_eq!(asset.severity, Severity::Safe);
    assert!(asset.findings.is_empty());
}

#[test]
fn documented_md5_finding_is_quantum_safe_and_critical() {
    let mut asset = CryptoAsset::new("MD5".to_string(), "src/legacy.py".to_string(), 3, "hashlib".to_string());
    evaluate(&mut asset);
    assert_eq!(asset.quantum_safe, QuantumSafe::Safe);
    assert_eq!(asset.severity, Severity::Critical);
    assert_eq!(
        asset.findings,
        vec!["MD5 is cryptographically broken; collisions are trivial to produce.".to_string()]
    );
}

#[test]
fn documented_dependency_finding_keeps_its_description() {
    let mut asset = CryptoAsset::new(
        "DEPENDENCY:PYJWT".to_string(),
        "requirements.txt".to_string(),
        4,
        "pyjwt".to_string(),
    );
    asset.detection_source = DetectionSource::Dependency;
    asset.findings = vec!["JSON Web Token library (HMAC, RSA, ECDSA signing)".to_string()];
    let mut assets = vec![asset];
    evaluate_all(&mut assets);
    let a = &assets[0];
    assert_eq!(a.quantum_safe, QuantumSafe::Unknown);
    assert_eq!(a.severity, Severity::Unknown);
    assert_eq!(a.detection_source, DetectionSource::Dependency);
    assert_eq!(a.findings, vec!["JSON Web Token library (HMAC, RSA, ECDSA signing)".to_string()]);
    assert_eq!(a.remediation, None);
}

#[test]
fn every_deprecated_algorithm_gets_advice() {
    for algo in ["MD5", "MD4", "SHA1", "SHA-1", "DES", "RC4", "RC2", "3DES", "INSECURE_PRNG", "HARDCODED_KEY", "RSA"] {
        assert!(generate_remediation(algo, "somelib").is_some(), "no advice for {}", algo);
    }
    assert_eq!(
        generate_remediation("MD4", "hashlib"),
        Some("Replace MD4 with SHA-256 or SHA-3. MD4 is cryptographically broken.".to_string())
    );
    assert_eq!(
        generate_remediation("RC2", "Crypto"),
        Some("Replace RC2 with AES-256-GCM. RC2 is an obsolete cipher with known weaknesses.".to_string())
    );
    assert_eq!(generate_remediation("AES", "Crypto"), None);
    let mut md4 = make_asset("md4");
    evaluate(&mut md4);
    assert_eq!(md4.severity, Severity::Critical);
    assert!(md4.remediation.is_some());
}
