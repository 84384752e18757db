use cbom::certs::{base64_decode_pem, pem_blocks, scan_certificate_bytes};
use cbom::files::{entry_action, should_skip_path, EntryAction, SourceKind};
use cbom::line_rules::scan_go_tls_config;
use cbom::match_rules::{algorithm_from_go_import, classify_c_function};
use cbom::models::{CryptoAsset, Severity};
use cbom::queries::algorithm_from_java_import;
use cbom::scanner::{
    algorithm_from_python_import, algorithm_from_python_module, enrich_python_import_context, extract_import_modules,
    parse_algorithm_string, parse_from_import, parse_u32_chars, strip_quotes,
};
use cbom::source_scan::{scan_c, scan_csharp, scan_go, scan_java, scan_javascript, scan_python};

#[test]
fn test_extract_import_modules() {
    assert_eq!(extract_import_modules("import hashlib"), vec!["hashlib"]);
    assert_eq!(
        extract_import_modules("import hashlib, hmac, os"),
        vec!["hashlib", "hmac", "os"]
    );
    assert_eq!(
        extract_import_modules("import hashlib as hl"),
        vec!["hashlib"]
    );
}

#[test]
fn test_parse_from_import() {
    let (module, names) = parse_from_import("from hashlib import sha256, md5").unwrap();
    assert_eq!(module, "hashlib");
    assert_eq!(names, vec!["sha256", "md5"]);

    let (module, names) =
        parse_from_import("from cryptography.hazmat.primitives.hashes import SHA256").unwrap();
    assert_eq!(module, "cryptography.hazmat.primitives.hashes");
    assert_eq!(names, vec!["SHA256"]);
}

#[test]
fn test_strip_quotes() {
    assert_eq!(strip_quotes("'sha256'"), "sha256");
    assert_eq!(strip_quotes("\"sha256\""), "sha256");
    assert_eq!(strip_quotes("`sha256`"), "sha256");
}

#[test]
fn test_algorithm_from_python_module() {
    assert_eq!(
        algorithm_from_python_module("hashlib"),
        "HASHING (see usage)"
    );
    assert_eq!(algorithm_from_python_module("hmac"), "HMAC");
    assert_eq!(algorithm_from_python_module("ssl"), "TLS");
}

#[test]
fn test_algorithm_from_python_import() {
    assert_eq!(
        algorithm_from_python_import("hashlib", "sha256", "hashlib"),
        "SHA256"
    );
    assert_eq!(
        algorithm_from_python_import("cryptography", "AES", "cryptography.hazmat"),
        "AES"
    );
    assert_eq!(
        algorithm_from_python_import("Crypto", "AES", "Crypto.Cipher"),
        "AES"
    );
}

#[test]
fn test_parse_algorithm_string() {
    let (algo, key_size, mode) = parse_algorithm_string("aes-256-cbc");
    assert_eq!(algo, "AES");
    assert_eq!(key_size, Some(256));
    assert_eq!(mode, Some("CBC".to_string()));

    let (algo, key_size, mode) = parse_algorithm_string("aes-128-gcm");
    assert_eq!(algo, "AES");
    assert_eq!(key_size, Some(128));
    assert_eq!(mode, Some("GCM".to_string()));

    let (algo, key_size, mode) = parse_algorithm_string("sha256");
    assert_eq!(algo, "SHA256");
    assert_eq!(key_size, None);
    assert_eq!(mode, None);

    let (algo, key_size, mode) = parse_algorithm_string("des-ede3-cbc");
    assert_eq!(algo, "DES-EDE3");
    assert_eq!(key_size, None);
    assert_eq!(mode, Some("CBC".to_string()));
}

#[test]
fn test_scan_python_insecure_random() {
    let source = "import random\nx = random.randint(1, 100)\n";
    let findings = scan_python(source, "test.py");
    assert!(findings.iter().any(|f| f.algorithm == "INSECURE_PRNG"));
}

#[test]
fn test_scan_python_hardcoded_iv() {
    let source = "iv = b'\\x00\\x01\\x02\\x03\\x04\\x05\\x06\\x07'\n";
    let findings = scan_python(source, "test.py");
    assert!(findings.iter().any(|f| f.algorithm == "HARDCODED_IV"));
}

#[test]
fn test_scan_python_hardcoded_salt() {
    let source = "salt = b'my_fixed_salt_value'\n";
    let findings = scan_python(source, "test.py");
    assert!(findings.iter().any(|f| f.algorithm == "HARDCODED_SALT"));
}

#[test]
fn test_scan_js_algorithm_parsing() {
    let source = r#"
const crypto = require('crypto');
const cipher = crypto.createCipheriv('aes-256-cbc', key, iv);
"#;
    let findings = scan_javascript(source, "test.js");
    let cipher_finding = findings.iter().find(|f| f.algorithm == "AES");
    assert!(cipher_finding.is_some());
    let cf = cipher_finding.unwrap();
    assert_eq!(cf.key_size, Some(256));
    assert_eq!(cf.mode, Some("CBC".to_string()));
}

#[test]
fn test_scan_js_math_random() {
    let source = "const x = Math.random();\n";
    let findings = scan_javascript(source, "test.js");
    assert!(findings.iter().any(|f| f.algorithm == "INSECURE_PRNG"));
}

#[test]
fn test_scan_js_hardcoded_key() {
    let source = "const key = Buffer.from('my-secret-key-1234567890abcdef');\n";
    let findings = scan_javascript(source, "test.js");
    assert!(findings.iter().any(|f| f.algorithm == "HARDCODED_KEY"));
}

// ---------------------------------------------------------------------------
// Further scenarios
// ---------------------------------------------------------------------------

fn algorithms(findings: &[CryptoAsset]) -> Vec<&str> {
    findings.iter().map(|f| f.algorithm.as_str()).collect()
}

#[test]
fn numbers_are_read_as_str_parse_reads_them() {
    let d = |s: &str| parse_u32_chars(&s.chars().collect::<Vec<char>>());
    assert_eq!(d("256"), Some(256));
    assert_eq!(d("+7"), Some(7));
    assert_eq!(d("0004096"), Some(4096));
    assert_eq!(d("4294967295"), Some(u32::MAX));
    assert_eq!(d("4294967296"), None);
    assert_eq!(d("-1"), None);
    assert_eq!(d("+"), None);
    assert_eq!(d(""), None);
    assert_eq!(d("12a"), None);
}

#[test]
fn algorithm_strings_keep_out_of_range_numbers_and_unknown_parts() {
    let (algo, key_size, mode) = parse_algorithm_string("aes-32-ecb");
    assert_eq!(algo, "AES-32");
    assert_eq!(key_size, None);
    assert_eq!(mode, Some("ECB".to_string()));
    let (algo, key_size, mode) = parse_algorithm_string("RSA-SHA256");
    assert_eq!(algo, "RSA-SHA256");
    assert_eq!(key_size, None);
    assert_eq!(mode, None);
    let (algo, key_size, mode) = parse_algorithm_string("gcm-4096");
    assert_eq!(algo, "GCM-4096");
    assert_eq!(key_size, Some(4096));
    assert_eq!(mode, Some("GCM".to_string()));
}

#[test]
fn parenthesized_and_aliased_from_imports() {
    let (module, names) =
        parse_from_import("from Crypto.Cipher import (AES, DES as d,\n    Blowfish)").unwrap();
    assert_eq!(module, "Crypto.Cipher");
    assert_eq!(names, vec!["AES", "DES", "Blowfish"]);
    assert!(parse_from_import("import os").is_none());
    assert!(parse_from_import("from os").is_none());
}

#[test]
fn python_import_labels_for_other_modules() {
    assert_eq!(algorithm_from_python_import("hashlib", "new", "hashlib"), "hashlib.new");
    assert_eq!(algorithm_from_python_import("Crypto", "Random", "Crypto"), "Crypto.Random");
    assert_eq!(algorithm_from_python_import("ssl", "wrap_socket", "ssl"), "TLS");
    assert_eq!(algorithm_from_python_module("Cryptodome"), "PYCRYPTODOME (see usage)");
    assert_eq!(algorithm_from_python_module("os"), "UNKNOWN");
}

#[test]
fn python_scan_reads_imports_calls_and_context() {
    let source = "import hashlib, os\nfrom cryptography.hazmat.primitives.asymmetric import padding\nfrom cryptography.hazmat.primitives.ciphers.modes import GCM\nfrom cryptography.hazmat.primitives.asymmetric.ec import SECP384R1\nh = hashlib.sha256(b'x')\ng = hashlib.new('md5')\nm = hmac.new(k, msg)\n";
    let findings = scan_python(source, "app.py");
    let algos = algorithms(&findings);
    assert_eq!(
        algos,
        vec!["HASHING (see usage)", "PADDING", "GCM", "SECP384R1", "SHA256", "MD5", "HMAC"]
    );
    assert_eq!(findings[0].line_number, 1);
    assert_eq!(findings[0].library_source, "hashlib");
    assert_eq!(findings[2].mode.as_deref(), Some("GCM"));
    assert_eq!(findings[3].curve.as_deref(), Some("P-384"));
    assert_eq!(findings[5].line_number, 6);
    assert!(findings.iter().all(|f| f.file_path == "app.py"));
}

#[test]
fn from_random_import_is_flagged() {
    let findings = scan_python("from random import randint\n", "r.py");
    assert_eq!(findings.len(), 1);
    assert_eq!(findings[0].algorithm, "INSECURE_PRNG");
    assert_eq!(findings[0].severity, Severity::Critical);
    assert_eq!(findings[0].library_source, "random");
}

#[test]
fn javascript_scan_reads_requires_imports_and_utilities() {
    let source = "import crypto from 'node:crypto';\nconst c = require(\"crypto\");\nconst h = crypto.createHash('sha256');\nconst b = crypto.randomBytes(16);\ncrypto.generateKeyPairSync('rsa', {});\n";
    let findings = scan_javascript(source, "x.js");
    let algos = algorithms(&findings);
    assert!(algos.contains(&"CRYPTO_MODULE_IMPORT"));
    assert!(algos.contains(&"SHA256"));
    assert!(algos.contains(&"CSPRNG"));
    assert!(algos.contains(&"KEY_GENERATION"));
    let imports = findings.iter().filter(|f| f.algorithm == "CRYPTO_MODULE_IMPORT").count();
    assert_eq!(imports, 2);
}

#[test]
fn java_scan_reads_imports_factories_and_random() {
    let source = "import javax.crypto.Cipher;\nimport java.security.*;\nclass A {\n  void f() {\n    Cipher c = Cipher.getInstance(\"AES/CBC/PKCS5Padding\");\n    java.util.Random r = new Random();\n  }\n}\n";
    let findings = scan_java(source, "A.java");
    let algos = algorithms(&findings);
    assert_eq!(algos, vec!["AES (see usage)", "JAVA_SECURITY (see usage)", "AES", "INSECURE_PRNG"]);
    let aes = &findings[2];
    assert_eq!(aes.mode.as_deref(), Some("CBC"));
    assert_eq!(aes.padding.as_deref(), Some("PKCS5Padding"));
    assert_eq!(aes.library_source, "javax.crypto.Cipher");
    assert_eq!(aes.line_number, 5);
}

#[test]
fn c_scan_reads_includes_and_calls() {
    let source = "#include <openssl/evp.h>\n#include \"sodium.h\"\nint main() {\n  EVP_DigestInit(ctx, md);\n  crypto_secretbox_easy(c, m, n, k);\n  printf(\"x\");\n}\n";
    let findings = scan_c(source, "m.c");
    let algos = algorithms(&findings);
    assert_eq!(
        algos,
        vec!["EVP (see usage)", "LIBSODIUM (see usage)", "HASHING (see usage)", "XSALSA20-POLY1305"]
    );
    assert_eq!(findings[3].library_source, "libsodium");
}

#[test]
fn csharp_scan_reads_usings_factories_and_random() {
    let source = "using System.Security.Cryptography;\nclass A {\n  void F() {\n    var a = Aes.Create();\n    var r = new Random();\n  }\n}\n";
    let findings = scan_csharp(source, "A.cs");
    let algos = algorithms(&findings);
    assert_eq!(algos, vec!["SYSTEM_CRYPTO (see usage)", "AES", "INSECURE_PRNG"]);
    assert_eq!(findings[2].library_source, "System.Random");
}

#[test]
fn go_scan_reads_imports_and_tls_settings() {
    let source = "package main\n\nimport (\n\t\"crypto/sha256\"\n\t\"math/rand\"\n\t\"golang.org/x/crypto/argon2\"\n)\n\nvar c = &tls.Config{MinVersion: tls.VersionTLS10, CipherSuites: []uint16{tls.TLS_RSA_WITH_AES_128_CBC_SHA}}\n";
    let findings = scan_go(source, "main.go");
    let algos = algorithms(&findings);
    assert_eq!(algos, vec!["SHA256", "INSECURE_PRNG", "ARGON2", "TLS", "TLS"]);
    let tls = &findings[3];
    assert_eq!(tls.protocol_version.as_deref(), Some("TLSv1.0"));
    assert_eq!(tls.severity, Severity::Critical);
    assert_eq!(findings[4].cipher_suites, vec!["TLS_RSA_WITH_AES_128_CBC_SHA".to_string()]);
}

#[test]
fn go_tls_versions_are_graded() {
    let mut findings: Vec<CryptoAsset> = Vec::new();
    scan_go_tls_config(
        &mut findings,
        "a := tls.VersionTLS11\nb := tls.VersionTLS12\nc := tls.VersionTLS13\n",
        "t.go",
    );
    assert_eq!(findings.len(), 3);
    assert_eq!(findings[0].severity, Severity::Warning);
    assert_eq!(findings[0].findings, vec!["TLS 1.1 is deprecated.".to_string()]);
    assert_eq!(findings[1].protocol_version.as_deref(), Some("TLSv1.2"));
    assert_eq!(findings[2].line_number, 3);
}

#[test]
fn import_labels_for_java_go_and_c() {
    assert_eq!(algorithm_from_java_import("javax.crypto.*"), "JAVAX_CRYPTO (see usage)");
    assert_eq!(algorithm_from_java_import("org.bouncycastle.*"), "BOUNCYCASTLE (see usage)");
    assert_eq!(algorithm_from_java_import("java.security.MessageDigest"), "HASHING (see usage)");
    assert_eq!(algorithm_from_java_import("javax.crypto.spec.SecretKeySpec"), "SECRETKEYSPEC");
    assert_eq!(algorithm_from_go_import("crypto/tls"), "TLS");
    assert_eq!(algorithm_from_go_import("golang.org/x/crypto/nacl/box"), "NACL");
    assert_eq!(algorithm_from_go_import("golang.org/x/crypto/hkdf"), "X_CRYPTO/HKDF");
    assert_eq!(algorithm_from_go_import("crypto/subtle"), "CRYPTO (see usage)");
    assert_eq!(
        classify_c_function("EVP_EncryptInit_ex", "EVP_"),
        ("ENCRYPTION (see usage)".to_string(), "openssl".to_string())
    );
    assert_eq!(
        classify_c_function("SSL_CTX_new", "SSL_"),
        ("TLS".to_string(), "openssl".to_string())
    );
    assert_eq!(
        classify_c_function("foo", "bar"),
        ("UNKNOWN".to_string(), "unknown".to_string())
    );
}

#[test]
fn entries_are_classified_by_directory_and_extension() {
    assert!(should_skip_path("proj/node_modules/x.js"));
    assert!(should_skip_path("./target/debug/a.c"));
    assert!(!should_skip_path("src/main.py"));
    assert!(entry_action("src/main.py") == EntryAction::Source(SourceKind::Python));
    assert!(entry_action("lib/x.hpp") == EntryAction::Source(SourceKind::Cpp));
    assert!(entry_action("certs/ca.pem") == EntryAction::Certificate);
    assert!(entry_action("README") == EntryAction::Skip);
    assert!(entry_action("notes.txt") == EntryAction::Skip);
    assert!(entry_action("vendor/a.go") == EntryAction::Skip);
}

#[test]
fn pem_blocks_and_base64_decoding() {
    let text = "junk\n-----BEGIN CERTIFICATE-----\n  TWFu  \nTWE=\n-----END CERTIFICATE-----\n-----BEGIN CERTIFICATE-----\n-----END CERTIFICATE-----\n";
    assert_eq!(pem_blocks(text), vec!["TWFuTWE=".to_string()]);
    assert_eq!(base64_decode_pem("TWFuTWE=").unwrap(), b"ManMa".to_vec());
    assert_eq!(base64_decode_pem("TQ==").unwrap(), b"M".to_vec());
    assert_eq!(base64_decode_pem("T").unwrap(), Vec::<u8>::new());
    assert_eq!(base64_decode_pem("aGVs bG8=\n").unwrap(), b"hello".to_vec());
}

#[test]
fn bytes_that_hold_no_certificate_give_no_finding() {
    assert!(scan_certificate_bytes(b"not a certificate", "x.pem").is_empty());
    let pem = "-----BEGIN CERTIFICATE-----\nTWFu\n-----END CERTIFICATE-----\n";
    assert!(scan_certificate_bytes(pem.as_bytes(), "x.pem").is_empty());
}

const TEST_CERTIFICATE: &str = "-----BEGIN CERTIFICATE-----\nMIIBlzCCATygAwIBAgIDGis8MAoGCCqGSM49BAMCMCkxFTATBgNVBAMMDHRlc3Qu\nZXhhbXBsZTEQMA4GA1UECgwHS2V5bGVuczAeFw0yNjExMTgwMzA5MzdaFw0zNjEx\nMTUwMzA5MzdaMCkxFTATBgNVBAMMDHRlc3QuZXhhbXBsZTEQMA4GA1UECgwHS2V5\nbGVuczBZMBMGByqGSM49AgEGCCqGSM49AwEHA0IABFIb95Yt2GOfKybsB4/V8AR5\nk7g+kxpP9wWDVBLrOF7ti/tV9kDPmaV8s69lcvqEiTumitm+8tgDtylm5kGHAS+j\nUzBRMB0GA1UdDgQWBBQ6GjmtMEFsAIijhQd35n/3101QrzAfBgNVHSMEGDAWgBQ6\nGjmtMEFsAIijhQd35n/3101QrzAPBgNVHRMBAf8EBTADAQH/MAoGCCqGSM49BAMC\nA0kAMEYCIQDynhmZv2zkRKvtQ6SjCnbNggbKanXzJ/kjEjpJVbJMXgIhALRf7A2W\nu39JlagXr8VrcATSbP+hBB3rk00aTtGKrtaE\n-----END CERTIFICATE-----\n";

#[test]
fn a_pem_certificate_gives_its_metadata() {
    let findings = scan_certificate_bytes(TEST_CERTIFICATE.as_bytes(), "certs/test.pem");
    assert_eq!(findings.len(), 1);
    let c = &findings[0];
    assert_eq!(c.algorithm, "OID(1.2.840.10045.2.1)");
    assert_eq!(c.line_number, 1);
    assert_eq!(c.library_source, "x509-certificate");
    assert_eq!(c.cert_subject.as_deref(), Some("CN=test.example, O=Keylens"));
    assert_eq!(c.cert_issuer.as_deref(), Some("CN=test.example, O=Keylens"));
    assert_eq!(c.cert_serial.as_deref(), Some("1a2b3c"));
    assert_eq!(c.cert_expiry.as_deref(), Some("Sat, 15 Nov 2036 03:09:37 +0000"));
}

#[test]
fn a_der_certificate_gives_its_metadata() {
    let blocks = pem_blocks(TEST_CERTIFICATE);
    let der = base64_decode_pem(&blocks[0]).unwrap();
    assert_eq!(&der[..4], &[0x30, 0x82, 0x01, 0x97]);
    let findings = scan_certificate_bytes(&der, "certs/test.der");
    assert_eq!(findings.len(), 1);
    assert_eq!(findings[0].cert_serial.as_deref(), Some("1a2b3c"));
}

#[test]
fn documented_python_sample_is_inventoried() {
    let source = r#"import hashlib
import hmac
import ssl
import random
from cryptography.hazmat.primitives.hashes import SHA256, SHA512
from cryptography.hazmat.primitives.ciphers.algorithms import AES
from cryptography.hazmat.primitives.ciphers.modes import CBC, GCM
from cryptography.hazmat.primitives.asymmetric.ec import SECP256R1
from cryptography.hazmat.primitives.asymmetric.padding import OAEP
from Crypto.Cipher import DES3
from Crypto.Hash import MD5

digest = hashlib.sha256(b"hello").hexdigest()
digest2 = hashlib.new('sha3_256', b"hello").hexdigest()
mac = hmac.new(b"secret", b"message", digestmod=hashlib.sha256)
iv = b'\x00\x01\x02\x03\x04\x05\x06\x07\x08\x09\x0a\x0b\x0c\x0d\x0e\x0f'
salt = b'my_fixed_salt_value'

import os
import json
from collections import defaultdict
"#;
    let findings = scan_python(source, "test-fixtures/crypto_sample.py");
    let algos = algorithms(&findings);
    for expected in ["INSECURE_PRNG", "HARDCODED_IV", "HARDCODED_SALT", "SHA256", "AES", "HMAC", "MD5"] {
        assert!(algos.contains(&expected), "missing {}", expected);
    }
    assert!(findings.iter().all(|f| f.library_source != "os"
        && f.library_source != "json"
        && f.library_source != "collections"));
    let iv = findings.iter().find(|f| f.algorithm == "HARDCODED_IV").unwrap();
    assert_eq!(iv.line_number, 16);
    assert_eq!(iv.severity, Severity::Critical);
}

#[test]
fn documented_javascript_sample_is_inventoried() {
    let source = r#"const crypto = require('crypto');
const hash = crypto.createHash('sha256');
const hmac = crypto.createHmac('sha512', 'secret-key');
const cipher = crypto.createCipheriv('aes-256-cbc', key, iv);
const gcmCipher = crypto.createCipheriv('aes-128-gcm', key, iv);
const token = crypto.randomBytes(32);
const badRandom = Math.random();
const key = Buffer.from('my-secret-key-1234567890abcdef');
const fs = require('fs');
console.log("hello world");
"#;
    let findings = scan_javascript(source, "crypto_sample.js");
    let cbc = findings.iter().find(|f| f.mode.as_deref() == Some("CBC")).unwrap();
    assert_eq!(cbc.algorithm, "AES");
    assert_eq!(cbc.key_size, Some(256));
    let gcm = findings.iter().find(|f| f.mode.as_deref() == Some("GCM")).unwrap();
    assert_eq!(gcm.key_size, Some(128));
    let algos = algorithms(&findings);
    assert!(algos.contains(&"INSECURE_PRNG"));
    assert!(algos.contains(&"HARDCODED_KEY"));
    assert!(algos.contains(&"SHA256"));
    assert!(algos.contains(&"CSPRNG"));
    assert!(findings.iter().all(|f| f.library_source != "fs"));
}

#[test]
fn from_import_splits_at_the_import_keyword() {
    assert_eq!(
        parse_from_import("from importlib import reload"),
        Some(("importlib".to_string(), vec!["reload".to_string()]))
    );
    assert_eq!(
        parse_from_import("from x.importer import(a, b)"),
        Some(("x.importer".to_string(), vec!["a".to_string(), "b".to_string()]))
    );
    assert_eq!(parse_from_import("from importlib"), None);
}

#[test]
fn imported_padding_keeps_its_documented_spelling() {
    let mut a = CryptoAsset::new("OAEP".to_string(), "a.py".to_string(), 1, "cryptography".to_string());
    enrich_python_import_context(&mut a, "cryptography.hazmat.primitives.asymmetric.padding", "OAEP");
    assert_eq!(a.padding.as_deref(), Some("OAEP"));
    assert_eq!(a.mode, None);
    assert_eq!(a.curve, None);
    let mut p = CryptoAsset::new("PKCS1v15".to_string(), "a.py".to_string(), 1, "cryptography".to_string());
    enrich_python_import_context(&mut p, "cryptography.hazmat.primitives.asymmetric.padding", "PKCS1v15");
    assert_eq!(p.padding.as_deref(), Some("PKCS1v15"));
}

#[test]
fn key_sizes_outside_the_range_stay_in_the_name() {
    assert_eq!(parse_algorithm_string("rsa-4096"), ("RSA".to_string(), Some(4096), None));
    assert_eq!(parse_algorithm_string("rsa-8192"), ("RSA-8192".to_string(), None, None));
    assert_eq!(parse_algorithm_string("aes-32-ecb"), ("AES-32".to_string(), None, Some("ECB".to_string())));
}

#[test]
fn base64_round_trips_standard_encodings() {
    assert_eq!(base64_decode_pem("aGVsbG8="), Some(b"hello".to_vec()));
    assert_eq!(base64_decode_pem("TWFu"), Some(b"Man".to_vec()));
    assert_eq!(base64_decode_pem("TWE="), Some(b"Ma".to_vec()));
    assert_eq!(base64_decode_pem("TQ=="), Some(b"M".to_vec()));
    assert_eq!(base64_decode_pem("AAEC\n/f7/"), Some(vec![0, 1, 2, 253, 254, 255]));
    assert_eq!(base64_decode_pem(""), Some(vec![]));
}
