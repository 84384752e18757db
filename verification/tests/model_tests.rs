use cbom::models::{
    classify_primitive, lookup_oid, simple_uuid, to_cyclonedx_bom, to_cyclonedx_bom_with_seed,
    uuid_from_seed, CryptoAsset, DetectionSource, QuantumSafe, Severity,
};

fn asset(algorithm: &str, file: &str, line: usize, library: &str) -> CryptoAsset {
    CryptoAsset::new(algorithm.to_string(), file.to_string(), line, library.to_string())
}

#[test]
fn test_new_asset_defaults() {
    let a = asset("AES", "src/app.py", 12, "Crypto");
    assert_eq!(a.algorithm, "AES");
    assert_eq!(a.file_path, "src/app.py");
    assert_eq!(a.line_number, 12);
    assert_eq!(a.library_source, "Crypto");
    assert_eq!(a.key_size, None);
    assert_eq!(a.mode, None);
    assert_eq!(a.quantum_safe, QuantumSafe::Unknown);
    assert_eq!(a.severity, Severity::Unknown);
    assert_eq!(a.detection_source, DetectionSource::SourceCode);
    assert!(a.findings.is_empty());
    assert!(a.cipher_suites.is_empty());
    assert_eq!(a.remediation, None);
}

#[test]
fn test_lookup_oid_known_and_unknown() {
    assert_eq!(lookup_oid("AES"), Some("2.16.840.1.101.3.4.1".to_string()));
    assert_eq!(lookup_oid("aes"), Some("2.16.840.1.101.3.4.1".to_string()));
    assert_eq!(lookup_oid("sha-256"), Some("2.16.840.1.101.3.4.2.1".to_string()));
    assert_eq!(lookup_oid("SHA1"), Some("1.3.14.3.2.26".to_string()));
    assert_eq!(lookup_oid("MD5"), Some("1.2.840.113549.2.5".to_string()));
    assert_eq!(lookup_oid("TripleDES"), Some("1.2.840.113549.3.7".to_string()));
    assert_eq!(lookup_oid("ChaCha20"), None);
    assert_eq!(lookup_oid("AES-256"), None);
}

#[test]
fn test_classify_primitive_families() {
    assert_eq!(classify_primitive("AES"), Some("block-cipher".to_string()));
    assert_eq!(classify_primitive("chacha20"), Some("block-cipher".to_string()));
    assert_eq!(classify_primitive("SHA256"), Some("hash".to_string()));
    assert_eq!(classify_primitive("HASHING (see usage)"), Some("hash".to_string()));
    assert_eq!(classify_primitive("HMAC"), Some("mac".to_string()));
    assert_eq!(classify_primitive("RSA"), Some("signature".to_string()));
    assert_eq!(classify_primitive("Ed25519"), Some("signature".to_string()));
    assert_eq!(classify_primitive("ECDH"), Some("key-agree".to_string()));
    assert_eq!(classify_primitive("KYBER"), Some("key-agree".to_string()));
    assert_eq!(classify_primitive("CSPRNG"), Some("random-number-generator".to_string()));
    assert_eq!(classify_primitive("TLS"), Some("protocol".to_string()));
    assert_eq!(classify_primitive("INSECURE_PRNG"), None);
}

#[test]
fn test_build_display_name() {
    let mut a = asset("AES", "x.js", 1, "node:crypto");
    assert_eq!(a.build_display_name(), "AES");
    a.key_size = Some(256);
    assert_eq!(a.build_display_name(), "AES-256");
    a.mode = Some("GCM".to_string());
    assert_eq!(a.build_display_name(), "AES-256-GCM");
    a.key_size = None;
    assert_eq!(a.build_display_name(), "AES-GCM");
}

#[test]
fn test_to_cyclonedx_component() {
    let mut a = asset("AES", "src/server.js", 45, "node:crypto");
    a.key_size = Some(256);
    a.mode = Some("CBC".to_string());
    let c = a.to_cyclonedx_component();
    assert_eq!(c.component_type, "crypto-asset");
    assert_eq!(c.name, "AES-256-CBC");
    let cp = c.crypto_properties.unwrap();
    assert_eq!(cp.asset_type, "algorithm");
    assert_eq!(cp.oid, Some("2.16.840.1.101.3.4.1".to_string()));
    let ap = cp.algorithm_properties.unwrap();
    assert_eq!(ap.primitive, Some("block-cipher".to_string()));
    assert_eq!(ap.parameter_set_identifier, Some("256".to_string()));
    assert_eq!(ap.mode, Some("cbc".to_string()));
    assert_eq!(ap.padding, None);
    assert_eq!(ap.curve, None);
    assert!(ap.certification_level.is_none());
    assert!(ap.crypto_functions.is_none());
    let ev = c.evidence.unwrap();
    assert_eq!(ev.occurrences.len(), 1);
    assert_eq!(ev.occurrences[0].location, "src/server.js");
    assert_eq!(ev.occurrences[0].line, Some(45));
    assert_eq!(
        ev.occurrences[0].additional_context,
        Some("library=node:crypto, detection=SourceCode".to_string())
    );
}

#[test]
fn test_cyclonedx_component_of_dependency() {
    let mut a = asset("DEPENDENCY:PYJWT", "requirements.txt", 4, "pyjwt");
    a.detection_source = DetectionSource::Dependency;
    a.padding = Some("OAEP".to_string());
    let c = a.to_cyclonedx_component();
    let ap = c.crypto_properties.unwrap().algorithm_properties.unwrap();
    assert_eq!(ap.padding, Some("oaep".to_string()));
    assert_eq!(
        c.evidence.unwrap().occurrences[0].additional_context,
        Some("library=pyjwt, detection=Dependency".to_string())
    );
}

#[test]
fn test_uuid_from_seed_formats() {
    assert_eq!(uuid_from_seed(0), "00000000-0000-4000-8000-000000000000");
    assert_eq!(uuid_from_seed(1700000000123456789), "3d85cd15-9cfe-4797-8001-000000000000");
    assert_eq!(uuid_from_seed(u128::MAX), "ffffffff-ffff-4fff-bfff-ffffffffffff");
    assert_eq!(
        uuid_from_seed(0x0123456789abcdef0123456789abcdef),
        "89abcdef-4567-4123-9ef0-48d159e26af3"
    );
}

#[test]
fn test_simple_uuid_has_uuid_shape() {
    let u = simple_uuid();
    let chars: Vec<char> = u.chars().collect();
    assert_eq!(chars.len(), 36);
    assert_eq!(chars[8], '-');
    assert_eq!(chars[13], '-');
    assert_eq!(chars[18], '-');
    assert_eq!(chars[23], '-');
    assert_eq!(chars[14], '4');
    assert!(matches!(chars[19], '8' | '9' | 'a' | 'b'));
}

#[test]
fn test_to_cyclonedx_bom_with_seed() {
    let assets = vec![asset("AES", "a.py", 1, "Crypto"), asset("MD5", "b.py", 2, "hashlib")];
    let bom = to_cyclonedx_bom_with_seed(&assets, 0);
    assert_eq!(bom.bom_format, "CycloneDX");
    assert_eq!(bom.spec_version, "1.5");
    assert_eq!(bom.serial_number, "urn:uuid:00000000-0000-4000-8000-000000000000");
    assert_eq!(bom.version, 1);
    assert_eq!(bom.components.len(), 2);
    assert_eq!(bom.components[0].name, "AES");
    assert_eq!(bom.components[1].name, "MD5");
}

#[test]
fn test_to_cyclonedx_bom_serial_prefix() {
    let bom = to_cyclonedx_bom(&[]);
    assert!(bom.serial_number.starts_with("urn:uuid:"));
    assert_eq!(bom.serial_number.len(), 9 + 36);
    assert!(bom.components.is_empty());
}
