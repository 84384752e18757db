//! Policy engine: evaluates cryptographic assets and assigns severity levels,
//! quantum-safety status, findings and remediation advice.

use vstd::prelude::*;

use crate::models::{opt_view, owned, same_asset, views, CryptoAsset, DetectionSource, QuantumSafe, Severity};
use crate::text::{
    chars_of, contains, decimal, has_sub, is, lower, push_decimal, push_str, std_to_lowercase,
    std_to_uppercase, string_of, upper,
};

verus! {

// ---------------------------------------------------------------------------
// Specification of the classification
// ---------------------------------------------------------------------------

/// The quantum-safety posture of an upper-cased algorithm name.
pub open spec fn quantum_safety(a: Seq<char>) -> QuantumSafe {
    if has_sub(a, "KYBER"@) || has_sub(a, "DILITHIUM"@) || has_sub(a, "SPHINCS"@) || has_sub(
        a,
        "FALCON"@,
    ) || has_sub(a, "NTRU"@) {
        QuantumSafe::Safe
    } else if has_sub(a, "AES"@) || has_sub(a, "CHACHA"@) || has_sub(a, "CAMELLIA"@) {
        QuantumSafe::Safe
    } else if has_sub(a, "SHA"@) || has_sub(a, "BLAKE"@) || has_sub(a, "HMAC"@) || has_sub(a, "MD5"@) || has_sub(
        a,
        "MD4"@,
    ) || has_sub(a, "RIPEMD"@) {
        QuantumSafe::Safe
    } else if has_sub(a, "RSA"@) || has_sub(a, "ECDSA"@) || has_sub(a, "ECDH"@) || has_sub(
        a,
        "DSA"@,
    ) || has_sub(a, "ECC"@) || has_sub(a, "ED25519"@) || has_sub(a, "X25519"@) || has_sub(
        a,
        "EDDSA"@,
    ) || has_sub(a, "DH"@) || has_sub(a, "ELGAMAL"@) {
        QuantumSafe::Vulnerable
    } else {
        QuantumSafe::Unknown
    }
}

/// An upper-cased algorithm name that is fully deprecated or broken.
pub open spec fn deprecated(a: Seq<char>) -> bool {
    has_sub(a, "MD5"@) || has_sub(a, "MD4"@) || has_sub(a, "SHA1"@) || has_sub(a, "RC4"@)
        || has_sub(a, "RC2"@) || a == "DES"@ || a == "SHA-1"@
}

/// Why a deprecated algorithm is deprecated.
pub open spec fn deprecation_reason(a: Seq<char>) -> Seq<char> {
    if has_sub(a, "MD5"@) {
        "MD5 is cryptographically broken; collisions are trivial to produce."@
    } else if has_sub(a, "MD4"@) {
        "MD4 is cryptographically broken and should never be used."@
    } else if has_sub(a, "SHA1"@) || a == "SHA-1"@ {
        "SHA-1 is deprecated; practical collision attacks exist (SHAttered)."@
    } else if a == "DES"@ {
        "DES uses a 56-bit key and is trivially brute-forced."@
    } else if has_sub(a, "RC4"@) {
        "RC4 has multiple known biases and is prohibited in TLS."@
    } else if has_sub(a, "RC2"@) {
        "RC2 is an obsolete cipher with known weaknesses."@
    } else {
        "This algorithm is deprecated and should not be used."@
    }
}

/// A triple-DES name.
pub open spec fn triple_des(a: Seq<char>) -> bool {
    has_sub(a, "3DES"@) || has_sub(a, "TRIPLE"@) || has_sub(a, "TRIPLEDES"@)
}

/// A marker for a non-cryptographic random number generator.
pub open spec fn insecure_prng(a: Seq<char>) -> bool {
    a == "INSECURE_PRNG"@ || a == "WEAK_RANDOM"@
}

/// A marker for hardcoded cryptographic material.
pub open spec fn hardcoded(a: Seq<char>) -> bool {
    a == "HARDCODED_IV"@ || a == "HARDCODED_SALT"@ || a == "HARDCODED_KEY"@
}

/// The severity of an upper-cased algorithm name with the given quantum
/// posture, and the findings that justify it.
pub open spec fn severity_verdict(a: Seq<char>, qs: QuantumSafe) -> (Severity, Seq<Seq<char>>) {
    if deprecated(a) {
        (Severity::Critical, seq![deprecation_reason(a)])
    } else if triple_des(a) {
        (
            Severity::Warning,
            seq![
                "3DES (Triple DES) has a 64-bit block size vulnerable to Sweet32 attacks; migrate to AES."@,
            ],
        )
    } else if insecure_prng(a) {
        (
            Severity::Critical,
            seq![
                "Non-cryptographically secure PRNG detected; use secrets/os.urandom (Python) or crypto.randomBytes (Node.js)."@,
            ],
        )
    } else if hardcoded(a) {
        (
            Severity::Critical,
            seq!["Hardcoded cryptographic material detected; use secure random generation."@],
        )
    } else if qs == QuantumSafe::Vulnerable {
        (Severity::Info, Seq::empty())
    } else {
        (Severity::Safe, Seq::empty())
    }
}

/// The finding for ECB mode.
pub open spec fn ecb_finding() -> Seq<char> {
    "ECB mode is insecure: it leaks patterns in ciphertext."@
}

/// The remediation for ECB mode.
pub open spec fn ecb_remediation() -> Seq<char> {
    "Replace ECB mode with GCM (authenticated encryption). Example: use AES-256-GCM instead of AES-ECB."@
}

/// The finding for CBC mode.
pub open spec fn cbc_finding() -> Seq<char> {
    "CBC mode lacks built-in authentication; prefer GCM or use HMAC alongside."@
}

/// The finding for quantum-vulnerable algorithms.
pub open spec fn quantum_finding() -> Seq<char> {
    "Algorithm is vulnerable to quantum computing attacks (Shor's/Grover's algorithm)."@
}

/// The findings that a key size adds for an upper-cased algorithm name.
pub open spec fn key_size_findings(a: Seq<char>, key_size: Option<u32>) -> Seq<Seq<char>> {
    match key_size {
        Some(k) => (if has_sub(a, "RSA"@) && k < 2048 {
            seq![
                "RSA key size "@ + decimal(k as nat)
                    + " bits is below the 2048-bit minimum."@,
            ]
        } else {
            Seq::empty()
        }) + (if has_sub(a, "AES"@) && k < 128 {
            seq![
                "AES key size "@ + decimal(k as nat) + " bits is non-standard and insecure."@,
            ]
        } else {
            Seq::empty()
        }),
        None => Seq::empty(),
    }
}

/// ECB mode, given the upper-cased mode.
pub open spec fn is_ecb(mode: Option<Seq<char>>) -> bool {
    mode == Some("ECB"@)
}

/// The findings of the evaluation of an asset with upper-cased algorithm
/// name `a`, upper-cased mode `mode` and key size `key_size`.
pub open spec fn policy_findings(a: Seq<char>, mode: Option<Seq<char>>, key_size: Option<u32>) -> Seq<
    Seq<char>,
> {
    let qs = quantum_safety(a);
    let base = severity_verdict(a, qs).1;
    if is_ecb(mode) {
        base.push(ecb_finding())
    } else {
        let with_mode = if mode == Some("CBC"@) {
            base.push(cbc_finding())
        } else {
            base
        };
        with_mode + key_size_findings(a, key_size) + if qs == QuantumSafe::Vulnerable {
            seq![quantum_finding()]
        } else {
            Seq::empty()
        }
    }
}

/// The severity of the evaluation.
pub open spec fn policy_severity(a: Seq<char>, mode: Option<Seq<char>>) -> Severity {
    if is_ecb(mode) {
        Severity::Critical
    } else {
        severity_verdict(a, quantum_safety(a)).0
    }
}

/// The remediation of the evaluation (`lib` is the lower-cased library).
pub open spec fn policy_remediation(a: Seq<char>, mode: Option<Seq<char>>, lib: Seq<char>) -> Option<
    Seq<char>,
> {
    if is_ecb(mode) {
        Some(ecb_remediation())
    } else {
        remediation_for(a, lib)
    }
}

/// Remediation advice for an upper-cased algorithm name and a lower-cased
/// library name; `None` where no action is advised.
pub open spec fn remediation_for(a: Seq<char>, lib: Seq<char>) -> Option<Seq<char>> {
    if has_sub(a, "MD5"@) {
        if has_sub(lib, "hashlib"@) || has_sub(lib, "python"@) {
            Some(
                "Replace MD5 with SHA-256.\nBefore: hashlib.md5(data).hexdigest()\nAfter:  hashlib.sha256(data).hexdigest()"@,
            )
        } else if has_sub(lib, "crypto"@) || has_sub(lib, "node"@) {
            Some(
                "Replace MD5 with SHA-256.\nBefore: crypto.createHash('md5').update(data).digest('hex')\nAfter:  crypto.createHash('sha256').update(data).digest('hex')"@,
            )
        } else if has_sub(lib, "java"@) || has_sub(lib, "messagedigest"@) {
            Some(
                "Replace MD5 with SHA-256.\nBefore: MessageDigest.getInstance(\"MD5\")\nAfter:  MessageDigest.getInstance(\"SHA-256\")"@,
            )
        } else {
            Some("Replace MD5 with SHA-256 or SHA-3. MD5 is cryptographically broken."@)
        }
    } else if has_sub(a, "SHA1"@) || a == "SHA-1"@ {
        if has_sub(lib, "hashlib"@) || has_sub(lib, "python"@) {
            Some(
                "Replace SHA-1 with SHA-256.\nBefore: hashlib.sha1(data).hexdigest()\nAfter:  hashlib.sha256(data).hexdigest()"@,
            )
        } else if has_sub(lib, "crypto"@) || has_sub(lib, "node"@) {
            Some(
                "Replace SHA-1 with SHA-256.\nBefore: crypto.createHash('sha1').update(data).digest('hex')\nAfter:  crypto.createHash('sha256').update(data).digest('hex')"@,
            )
        } else {
            Some("Replace SHA-1 with SHA-256 or SHA-3. SHA-1 has known collision attacks."@)
        }
    } else if a == "DES"@ {
        if has_sub(lib, "javax"@) || has_sub(lib, "cipher"@) || has_sub(lib, "java"@) {
            Some(
                "Replace DES with AES/GCM.\nBefore: Cipher.getInstance(\"DES\")\nAfter:  Cipher.getInstance(\"AES/GCM/NoPadding\")"@,
            )
        } else if has_sub(lib, "crypto"@) || has_sub(lib, "node"@) {
            Some(
                "Replace DES with AES-256-GCM.\nBefore: crypto.createCipheriv('des-ecb', key, '')\nAfter:  crypto.createCipheriv('aes-256-gcm', key, iv)"@,
            )
        } else {
            Some("Replace DES (56-bit key) with AES-256-GCM. DES is trivially brute-forced."@)
        }
    } else if has_sub(a, "RC4"@) {
        Some(
            "Replace RC4 with AES-256-GCM or ChaCha20-Poly1305. RC4 is prohibited in TLS."@,
        )
    } else if has_sub(a, "MD4"@) {
        Some("Replace MD4 with SHA-256 or SHA-3. MD4 is cryptographically broken."@)
    } else if has_sub(a, "RC2"@) {
        Some("Replace RC2 with AES-256-GCM. RC2 is an obsolete cipher with known weaknesses."@)
    } else if triple_des(a) {
        Some(
            "Migrate from 3DES to AES-256-GCM. 3DES has a 64-bit block size vulnerable to Sweet32 birthday attacks."@,
        )
    } else if insecure_prng(a) {
        if has_sub(lib, "python"@) || has_sub(lib, "random"@) {
            Some(
                "Use a cryptographically secure PRNG.\nBefore: random.randint(0, 255)\nAfter:  secrets.token_bytes(32) or os.urandom(32)"@,
            )
        } else if has_sub(lib, "math"@) || has_sub(lib, "node"@) || has_sub(lib, "javascript"@) {
            Some(
                "Use a cryptographically secure PRNG.\nBefore: Math.random()\nAfter:  crypto.randomBytes(32) or crypto.getRandomValues(new Uint8Array(32))"@,
            )
        } else {
            Some("Replace with a cryptographically secure PRNG (CSPRNG)."@)
        }
    } else if hardcoded(a) {
        Some(
            "Do not hardcode the "@ + (if a == "HARDCODED_IV"@ {
                "IV (Initialization Vector)"@
            } else if a == "HARDCODED_SALT"@ {
                "salt"@
            } else {
                "key"@
            })
                + ". Generate it randomly at runtime.\nExample (Python): os.urandom(16)\nExample (Node.js): crypto.randomBytes(16)\nExample (Java): SecureRandom().nextBytes(new byte[16])"@,
        )
    } else if has_sub(a, "RSA"@) {
        Some(
            "If using RSA, ensure a minimum key size of 2048 bits (preferably 4096). Consider migrating to Ed25519 for signing or ECDH for key exchange. For post-quantum readiness, evaluate ML-KEM (Kyber)."@,
        )
    } else {
        None
    }
}

/// The upper-cased mode of an asset.
pub open spec fn upper_mode(mode: Option<String>) -> Option<Seq<char>> {
    match opt_view(mode) {
        Some(m) => Some(upper(m)),
        None => None,
    }
}

/// `after` is `before` evaluated by the policy engine. A dependency finding
/// is left as it is: its quantum safety and severity stay as the lockfile
/// reader set them, and its finding stays the package's description. For
/// any other finding the policy fields are recomputed from the algorithm,
/// mode, key size and library, and every other field is kept.
pub open spec fn is_evaluation_of(before: CryptoAsset, after: CryptoAsset) -> bool {
    if before.detection_source == DetectionSource::Dependency {
        same_asset(after, before)
    } else {
        is_graded(before, after)
    }
}

/// `after` is `before` with its policy fields recomputed from the algorithm,
/// mode, key size and library, every other field kept.
pub open spec fn is_graded(before: CryptoAsset, after: CryptoAsset) -> bool {
    let a = upper(before.algorithm@);
    let m = upper_mode(before.mode);
    &&& after.algorithm@ == before.algorithm@
    &&& after.file_path@ == before.file_path@
    &&& after.line_number == before.line_number
    &&& after.library_source@ == before.library_source@
    &&& after.key_size == before.key_size
    &&& opt_view(after.mode) == opt_view(before.mode)
    &&& opt_view(after.padding) == opt_view(before.padding)
    &&& opt_view(after.curve) == opt_view(before.curve)
    &&& after.detection_source == before.detection_source
    &&& opt_view(after.cert_subject) == opt_view(before.cert_subject)
    &&& opt_view(after.cert_issuer) == opt_view(before.cert_issuer)
    &&& opt_view(after.cert_expiry) == opt_view(before.cert_expiry)
    &&& opt_view(after.cert_serial) == opt_view(before.cert_serial)
    &&& opt_view(after.protocol_version) == opt_view(before.protocol_version)
    &&& views(after.cipher_suites@) == views(before.cipher_suites@)
    &&& opt_view(after.dependency_path) == opt_view(before.dependency_path)
    &&& after.quantum_safe == quantum_safety(a)
    &&& after.severity == policy_severity(a, m)
    &&& views(after.findings@) == policy_findings(a, m, before.key_size)
    &&& opt_view(after.remediation) == policy_remediation(a, m, lower(before.library_source@))
}

} // verus!

verus! {

// ---------------------------------------------------------------------------
// Classification logic
// ---------------------------------------------------------------------------

/// Classify the quantum-safety posture of an (upper-cased) algorithm name.
pub fn classify_quantum_safety(algo: &str) -> (r: QuantumSafe)
    ensures
        r == quantum_safety(algo@),
{
    let a = chars_of(algo);
    if contains(&a, "KYBER") || contains(&a, "DILITHIUM") || contains(&a, "SPHINCS") || contains(
        &a,
        "FALCON",
    ) || contains(&a, "NTRU") {
        return QuantumSafe::Safe;
    }
    if contains(&a, "AES") || contains(&a, "CHACHA") || contains(&a, "CAMELLIA") {
        return QuantumSafe::Safe;
    }
    if contains(&a, "SHA") || contains(&a, "BLAKE") || contains(&a, "HMAC") || contains(&a, "MD5") || contains(
        &a,
        "MD4",
    ) || contains(&a, "RIPEMD") {
        return QuantumSafe::Safe;
    }
    if contains(&a, "RSA") || contains(&a, "ECDSA") || contains(&a, "ECDH") || contains(&a, "DSA")
        || contains(&a, "ECC") || contains(&a, "ED25519") || contains(&a, "X25519") || contains(
        &a,
        "EDDSA",
    ) || contains(&a, "DH") || contains(&a, "ELGAMAL") {
        return QuantumSafe::Vulnerable;
    }
    QuantumSafe::Unknown
}

/// Whether an (upper-cased) algorithm name is fully deprecated or broken.
pub fn is_deprecated(algo: &str) -> (r: bool)
    ensures
        r == deprecated(algo@),
{
    let a = chars_of(algo);
    if contains(&a, "MD5") || contains(&a, "MD4") || contains(&a, "SHA1") || contains(&a, "RC4")
        || contains(&a, "RC2") {
        return true;
    }
    // Exact match for DES (avoid matching 3DES / TRIPLEDES)
    if is(&a, "DES") {
        return true;
    }
    if is(&a, "SHA-1") {
        return true;
    }
    false
}

/// Appends an owned copy of a literal.
fn push_owned(findings: &mut Vec<String>, lit: &str)
    ensures
        views(final(findings)@) == views(old(findings)@).push(lit@),
{
    let s = owned(lit);
    findings.push(s);
    assert(views(findings@) =~= views(old(findings)@).push(lit@));
}

/// Classify the severity of an (upper-cased) algorithm name whose quantum
/// posture is `quantum_safe`, with the findings that justify it.
pub fn classify_severity(algo: &str, quantum_safe: QuantumSafe) -> (r: (Severity, Vec<String>))
    ensures
        r.0 == severity_verdict(algo@, quantum_safe).0,
        views(r.1@) == severity_verdict(algo@, quantum_safe).1,
{
    let mut findings: Vec<String> = Vec::new();
    let a = chars_of(algo);
    assert(views(findings@) =~= Seq::empty());
    // --- Critical: fully deprecated / broken ---
    if is_deprecated(algo) {
        let reason = if contains(&a, "MD5") {
            "MD5 is cryptographically broken; collisions are trivial to produce."
        } else if contains(&a, "MD4") {
            "MD4 is cryptographically broken and should never be used."
        } else if contains(&a, "SHA1") || is(&a, "SHA-1") {
            "SHA-1 is deprecated; practical collision attacks exist (SHAttered)."
        } else if is(&a, "DES") {
            "DES uses a 56-bit key and is trivially brute-forced."
        } else if contains(&a, "RC4") {
            "RC4 has multiple known biases and is prohibited in TLS."
        } else if contains(&a, "RC2") {
            "RC2 is an obsolete cipher with known weaknesses."
        } else {
            "This algorithm is deprecated and should not be used."
        };
        push_owned(&mut findings, reason);
        return (Severity::Critical, findings);
    }
    // --- Warning: weak or risky usage patterns ---
    if contains(&a, "3DES") || contains(&a, "TRIPLE") || contains(&a, "TRIPLEDES") {
        push_owned(
            &mut findings,
            "3DES (Triple DES) has a 64-bit block size vulnerable to Sweet32 attacks; migrate to AES.",
        );
        return (Severity::Warning, findings);
    }
    // Insecure PRNG
    if is(&a, "INSECURE_PRNG") || is(&a, "WEAK_RANDOM") {
        push_owned(
            &mut findings,
            "Non-cryptographically secure PRNG detected; use secrets/os.urandom (Python) or crypto.randomBytes (Node.js).",
        );
        return (Severity::Critical, findings);
    }
    // Hardcoded secrets
    if is(&a, "HARDCODED_IV") || is(&a, "HARDCODED_SALT") || is(&a, "HARDCODED_KEY") {
        push_owned(
            &mut findings,
            "Hardcoded cryptographic material detected; use secure random generation.",
        );
        return (Severity::Critical, findings);
    }
    // --- Info: quantum-vulnerable but currently acceptable ---
    if quantum_safe == QuantumSafe::Vulnerable {
        return (Severity::Info, findings);
    }
    (Severity::Safe, findings)
}

/// Code-level remediation advice for an (upper-cased) algorithm name and a
/// library; `None` when no action is advised. A deprecated algorithm, triple
/// DES, an insecure random generator, hardcoded material and RSA always get
/// advice.
pub fn generate_remediation(algo: &str, library_source: &str) -> (r: Option<String>)
    ensures
        opt_view(r) == remediation_for(algo@, lower(library_source@)),
        needs_action(algo@) ==> r is Some,
{
    proof {
        law_actionable_names_get_advice(algo@, lower(library_source@));
    }
    let lib_s = std_to_lowercase(library_source);
    let lib = chars_of(lib_s.as_str());
    let a = chars_of(algo);
    // --- MD5 ---
    if contains(&a, "MD5") {
        if contains(&lib, "hashlib") || contains(&lib, "python") {
            return Some(
                owned(
                    "Replace MD5 with SHA-256.\nBefore: hashlib.md5(data).hexdigest()\nAfter:  hashlib.sha256(data).hexdigest()",
                ),
            );
        }
        if contains(&lib, "crypto") || contains(&lib, "node") {
            return Some(
                owned(
                    "Replace MD5 with SHA-256.\nBefore: crypto.createHash('md5').update(data).digest('hex')\nAfter:  crypto.createHash('sha256').update(data).digest('hex')",
                ),
            );
        }
        if contains(&lib, "java") || contains(&lib, "messagedigest") {
            return Some(
                owned(
                    "Replace MD5 with SHA-256.\nBefore: MessageDigest.getInstance(\"MD5\")\nAfter:  MessageDigest.getInstance(\"SHA-256\")",
                ),
            );
        }
        return Some(owned("Replace MD5 with SHA-256 or SHA-3. MD5 is cryptographically broken."));
    }
    // --- SHA-1 ---
    if contains(&a, "SHA1") || is(&a, "SHA-1") {
        if contains(&lib, "hashlib") || contains(&lib, "python") {
            return Some(
                owned(
                    "Replace SHA-1 with SHA-256.\nBefore: hashlib.sha1(data).hexdigest()\nAfter:  hashlib.sha256(data).hexdigest()",
                ),
            );
        }
        if contains(&lib, "crypto") || contains(&lib, "node") {
            return Some(
                owned(
                    "Replace SHA-1 with SHA-256.\nBefore: crypto.createHash('sha1').update(data).digest('hex')\nAfter:  crypto.createHash('sha256').update(data).digest('hex')",
                ),
            );
        }
        return Some(
            owned("Replace SHA-1 with SHA-256 or SHA-3. SHA-1 has known collision attacks."),
        );
    }
    // --- DES ---
    if is(&a, "DES") {
        // Java check first because "javax.crypto" contains "crypto"
        if contains(&lib, "javax") || contains(&lib, "cipher") || contains(&lib, "java") {
            return Some(
                owned(
                    "Replace DES with AES/GCM.\nBefore: Cipher.getInstance(\"DES\")\nAfter:  Cipher.getInstance(\"AES/GCM/NoPadding\")",
                ),
            );
        }
        if contains(&lib, "crypto") || contains(&lib, "node") {
            return Some(
                owned(
                    "Replace DES with AES-256-GCM.\nBefore: crypto.createCipheriv('des-ecb', key, '')\nAfter:  crypto.createCipheriv('aes-256-gcm', key, iv)",
                ),
            );
        }
        return Some(
            owned("Replace DES (56-bit key) with AES-256-GCM. DES is trivially brute-forced."),
        );
    }
    // --- RC4 ---
    if contains(&a, "RC4") {
        return Some(
            owned(
                "Replace RC4 with AES-256-GCM or ChaCha20-Poly1305. RC4 is prohibited in TLS.",
            ),
        );
    }
    // --- MD4 ---
    if contains(&a, "MD4") {
        return Some(owned("Replace MD4 with SHA-256 or SHA-3. MD4 is cryptographically broken."));
    }
    // --- RC2 ---
    if contains(&a, "RC2") {
        return Some(owned("Replace RC2 with AES-256-GCM. RC2 is an obsolete cipher with known weaknesses."));
    }
    // --- 3DES ---
    if contains(&a, "3DES") || contains(&a, "TRIPLE") || contains(&a, "TRIPLEDES") {
        return Some(
            owned(
                "Migrate from 3DES to AES-256-GCM. 3DES has a 64-bit block size vulnerable to Sweet32 birthday attacks.",
            ),
        );
    }
    // --- Insecure PRNG ---
    if is(&a, "INSECURE_PRNG") || is(&a, "WEAK_RANDOM") {
        if contains(&lib, "python") || contains(&lib, "random") {
            return Some(
                owned(
                    "Use a cryptographically secure PRNG.\nBefore: random.randint(0, 255)\nAfter:  secrets.token_bytes(32) or os.urandom(32)",
                ),
            );
        }
        if contains(&lib, "math") || contains(&lib, "node") || contains(&lib, "javascript") {
            return Some(
                owned(
                    "Use a cryptographically secure PRNG.\nBefore: Math.random()\nAfter:  crypto.randomBytes(32) or crypto.getRandomValues(new Uint8Array(32))",
                ),
            );
        }
        return Some(owned("Replace with a cryptographically secure PRNG (CSPRNG)."));
    }
    // --- Hardcoded secrets ---
    if is(&a, "HARDCODED_IV") || is(&a, "HARDCODED_SALT") || is(&a, "HARDCODED_KEY") {
        let material = if is(&a, "HARDCODED_IV") {
            "IV (Initialization Vector)"
        } else if is(&a, "HARDCODED_SALT") {
            "salt"
        } else {
            "key"
        };
        let mut msg: Vec<char> = Vec::new();
        push_str(&mut msg, "Do not hardcode the ");
        push_str(&mut msg, material);
        push_str(
            &mut msg,
            ". Generate it randomly at runtime.\nExample (Python): os.urandom(16)\nExample (Node.js): crypto.randomBytes(16)\nExample (Java): SecureRandom().nextBytes(new byte[16])",
        );
        return Some(string_of(&msg));
    }
    // --- RSA ---
    if contains(&a, "RSA") {
        return Some(
            owned(
                "If using RSA, ensure a minimum key size of 2048 bits (preferably 4096). Consider migrating to Ed25519 for signing or ECDH for key exchange. For post-quantum readiness, evaluate ML-KEM (Kyber).",
            ),
        );
    }
    // No remediation needed for safe algorithms
    None
}

/// Appends `message` to the findings.
pub fn severity_upgrade(findings: &mut Vec<String>, message: &str)
    ensures
        views(final(findings)@) == views(old(findings)@).push(message@),
{
    push_owned(findings, message);
}

} // verus!

verus! {

// ---------------------------------------------------------------------------
// Public API
// ---------------------------------------------------------------------------

/// A message with a key size in the middle.
fn key_size_message(prefix: &str, k: u32, suffix: &str) -> (r: String)
    ensures
        r@ == prefix@ + decimal(k as nat) + suffix@,
{
    let mut v: Vec<char> = Vec::new();
    push_str(&mut v, prefix);
    push_decimal(&mut v, k as u64);
    push_str(&mut v, suffix);
    string_of(&v)
}

/// Evaluate a single asset and populate its policy fields (`quantum_safe`,
/// `severity`, `findings`, `remediation`); dependency findings keep the
/// values their lockfile reader gave them.
pub fn evaluate(asset: &mut CryptoAsset)
    ensures
        is_evaluation_of(*old(asset), *final(asset)),
{
    if asset.detection_source == DetectionSource::Dependency {
        return;
    }
    let algo_s = std_to_uppercase(asset.algorithm.as_str());
    let algo = algo_s.as_str();
    let a = chars_of(algo);
    let ghost m = upper_mode(asset.mode);

    // --- Quantum safety ---
    let qs = classify_quantum_safety(algo);
    asset.quantum_safe = qs;

    // --- Severity + findings ---
    let (severity, mut findings) = classify_severity(algo, qs);

    // Mode-specific checks
    let mode_upper: Option<Vec<char>> = match &asset.mode {
        Some(mode) => {
            let u = std_to_uppercase(mode.as_str());
            Some(chars_of(u.as_str()))
        },
        None => None,
    };
    let mut is_cbc = false;
    match &mode_upper {
        Some(mu) => {
            if is(mu, "ECB") {
                severity_upgrade(&mut findings, "ECB mode is insecure: it leaks patterns in ciphertext.");
                asset.remediation = Some(
                    owned(
                        "Replace ECB mode with GCM (authenticated encryption). Example: use AES-256-GCM instead of AES-ECB.",
                    ),
                );
                // ECB is always critical
                asset.severity = Severity::Critical;
                asset.findings = findings;
                return ;
            } else if is(mu, "CBC") {
                is_cbc = true;
            }
        },
        None => {},
    }
    assert(!is_ecb(m));
    if is_cbc {
        push_owned(
            &mut findings,
            "CBC mode lacks built-in authentication; prefer GCM or use HMAC alongside.",
        );
    }
    let ghost with_mode = views(findings@);

    // Key-size checks
    if let Some(key_size) = asset.key_size {
        if contains(&a, "RSA") && key_size < 2048 {
            let msg = key_size_message(
                "RSA key size ",
                key_size,
                " bits is below the 2048-bit minimum.",
            );
            severity_upgrade(&mut findings, msg.as_str());
        }
        if contains(&a, "AES") && key_size < 128 {
            let msg = key_size_message(
                "AES key size ",
                key_size,
                " bits is non-standard and insecure.",
            );
            severity_upgrade(&mut findings, msg.as_str());
        }
    }
    assert(views(findings@) =~= with_mode + key_size_findings(a@, asset.key_size));
    let ghost with_keys = views(findings@);

    // Quantum-safety finding
    if qs == QuantumSafe::Vulnerable {
        push_owned(
            &mut findings,
            "Algorithm is vulnerable to quantum computing attacks (Shor's/Grover's algorithm).",
        );
    }
    assert(views(findings@) =~= policy_findings(a@, m, asset.key_size));

    // --- Remediation advice ---
    asset.remediation = generate_remediation(algo, asset.library_source.as_str());
    asset.severity = severity;
    asset.findings = findings;
}

/// Evaluate every asset in place.
pub fn evaluate_all(assets: &mut Vec<CryptoAsset>)
    ensures
        final(assets)@.len() == old(assets)@.len(),
        forall|i: int|
            0 <= i < old(assets)@.len() ==> is_evaluation_of(
                #[trigger] old(assets)@[i],
                final(assets)@[i],
            ),
{
    let mut i: usize = 0;
    while i < assets.len()
        invariant
            i <= assets@.len(),
            assets@.len() == old(assets)@.len(),
            forall|k: int| 0 <= k < i ==> is_evaluation_of(#[trigger] old(assets)@[k], assets@[k]),
            forall|k: int| i <= k < assets@.len() ==> #[trigger] assets@[k] == old(assets)@[k],
        decreases assets.len() - i,
    {
        evaluate(&mut assets[i]);
        i = i + 1;
    }
}

/// Whether any asset has `Severity::Critical`.
pub fn has_critical(assets: &[CryptoAsset]) -> (r: bool)
    ensures
        r == exists|i: int| 0 <= i < assets@.len() && #[trigger] assets@[i].severity == Severity::Critical,
{
    let mut i: usize = 0;
    while i < assets.len()
        invariant
            i <= assets@.len(),
            forall|k: int| 0 <= k < i ==> #[trigger] assets@[k].severity != Severity::Critical,
        decreases assets.len() - i,
    {
        if assets[i].severity == Severity::Critical {
            return true;
        }
        i = i + 1;
    }
    false
}

/// Whether any asset names a deprecated algorithm (MD5, SHA-1, DES, RC4, ...).
pub fn has_deprecated(assets: &[CryptoAsset]) -> (r: bool)
    ensures
        r == exists|i: int| 0 <= i < assets@.len() && deprecated(upper(#[trigger] assets@[i].algorithm@)),
{
    let mut i: usize = 0;
    while i < assets.len()
        invariant
            i <= assets@.len(),
            forall|k: int| 0 <= k < i ==> !deprecated(upper(#[trigger] assets@[k].algorithm@)),
        decreases assets.len() - i,
    {
        let algo = std_to_uppercase(assets[i].algorithm.as_str());
        if is_deprecated(algo.as_str()) {
            return true;
        }
        i = i + 1;
    }
    false
}

} // verus!

verus! {

// ---------------------------------------------------------------------------
// Laws
// ---------------------------------------------------------------------------

/// Evaluating an already evaluated asset changes none of its policy fields:
/// the verdict depends only on fields the evaluation keeps.
pub proof fn law_evaluation_is_idempotent(a: CryptoAsset, b: CryptoAsset, c: CryptoAsset)
    requires
        is_evaluation_of(a, b),
        is_evaluation_of(b, c),
    ensures
        c.quantum_safe == b.quantum_safe,
        c.severity == b.severity,
        views(c.findings@) == views(b.findings@),
        opt_view(c.remediation) == opt_view(b.remediation),
{
}

/// ECB mode makes any asset found in code critical, whatever its algorithm.
pub proof fn law_ecb_mode_is_critical(before: CryptoAsset, after: CryptoAsset)
    requires
        is_evaluation_of(before, after),
        before.detection_source != DetectionSource::Dependency,
        upper_mode(before.mode) == Some("ECB"@),
    ensures
        after.severity == Severity::Critical,
        opt_view(after.remediation) == Some(ecb_remediation()),
{
}

/// A deprecated algorithm found in code is always critical.
pub proof fn law_deprecated_is_critical(before: CryptoAsset, after: CryptoAsset)
    requires
        is_evaluation_of(before, after),
        before.detection_source != DetectionSource::Dependency,
        deprecated(upper(before.algorithm@)),
    ensures
        after.severity == Severity::Critical,
{
}

/// A critical or warning verdict on an asset found in code always comes
/// with at least one finding.
pub proof fn law_alarms_are_explained(before: CryptoAsset, after: CryptoAsset)
    requires
        is_evaluation_of(before, after),
        before.detection_source != DetectionSource::Dependency,
        after.severity == Severity::Critical || after.severity == Severity::Warning,
    ensures
        after.findings@.len() >= 1,
{
    let a = upper(before.algorithm@);
    let m = upper_mode(before.mode);
    assert(views(after.findings@).len() == after.findings@.len());
    if !is_ecb(m) {
        let with_mode = if m == Some("CBC"@) {
            severity_verdict(a, quantum_safety(a)).1.push(cbc_finding())
        } else {
            severity_verdict(a, quantum_safety(a)).1
        };
        assert(with_mode.len() >= 1);
        assert(policy_findings(a, m, before.key_size).len() >= with_mode.len());
    }
}

/// Post-quantum algorithm families are quantum-safe.
pub proof fn law_post_quantum_families_are_safe(a: Seq<char>)
    requires
        has_sub(a, "KYBER"@) || has_sub(a, "DILITHIUM"@) || has_sub(a, "SPHINCS"@) || has_sub(
            a,
            "FALCON"@,
        ) || has_sub(a, "NTRU"@),
    ensures
        quantum_safety(a) == QuantumSafe::Safe,
{
}

/// A safe verdict on an asset found in code comes with no remediation
/// advice, except for names that mention RSA (the RSA advice is given
/// whatever the verdict).
pub proof fn law_safe_needs_no_remediation(before: CryptoAsset, after: CryptoAsset)
    requires
        is_evaluation_of(before, after),
        before.detection_source != DetectionSource::Dependency,
        after.severity == Severity::Safe,
        !has_sub(upper(before.algorithm@), "RSA"@),
    ensures
        after.remediation is None,
{
}

/// A dependency finding goes through evaluation unchanged: its quantum
/// safety, severity, description and remediation stay as they were.
pub proof fn law_dependencies_keep_their_description(before: CryptoAsset, after: CryptoAsset)
    requires
        is_evaluation_of(before, after),
        before.detection_source == DetectionSource::Dependency,
    ensures
        after.quantum_safe == before.quantum_safe,
        after.severity == before.severity,
        views(after.findings@) == views(before.findings@),
        opt_view(after.remediation) == opt_view(before.remediation),
{
}

/// An upper-cased algorithm name that calls for action: deprecated, triple
/// DES, an insecure random generator, hardcoded material, or RSA.
pub open spec fn needs_action(a: Seq<char>) -> bool {
    deprecated(a) || triple_des(a) || insecure_prng(a) || hardcoded(a) || has_sub(a, "RSA"@)
}

/// Every name that calls for action gets remediation advice, whatever its
/// library.
pub proof fn law_actionable_names_get_advice(a: Seq<char>, lib: Seq<char>)
    ensures
        needs_action(a) ==> remediation_for(a, lib) is Some,
{
}

/// The name mentions a post-quantum, symmetric or hash family, which makes
/// an algorithm resistant to quantum attacks.
pub open spec fn names_quantum_resistant_family(a: Seq<char>) -> bool {
    ||| has_sub(a, "KYBER"@)
    ||| has_sub(a, "DILITHIUM"@)
    ||| has_sub(a, "SPHINCS"@)
    ||| has_sub(a, "FALCON"@)
    ||| has_sub(a, "NTRU"@)
    ||| has_sub(a, "AES"@)
    ||| has_sub(a, "CHACHA"@)
    ||| has_sub(a, "CAMELLIA"@)
    ||| has_sub(a, "SHA"@)
    ||| has_sub(a, "BLAKE"@)
    ||| has_sub(a, "HMAC"@)
    ||| has_sub(a, "MD5"@)
    ||| has_sub(a, "MD4"@)
    ||| has_sub(a, "RIPEMD"@)
}

/// The name mentions a classical public-key family (factoring, discrete
/// logarithms, elliptic curves), which Shor's algorithm breaks.
pub open spec fn names_classical_public_key_family(a: Seq<char>) -> bool {
    ||| has_sub(a, "RSA"@)
    ||| has_sub(a, "ECDSA"@)
    ||| has_sub(a, "ECDH"@)
    ||| has_sub(a, "DSA"@)
    ||| has_sub(a, "ECC"@)
    ||| has_sub(a, "ED25519"@)
    ||| has_sub(a, "X25519"@)
    ||| has_sub(a, "EDDSA"@)
    ||| has_sub(a, "DH"@)
    ||| has_sub(a, "ELGAMAL"@)
}

/// Every classical public-key family (RSA, ECDSA, ECDH, DSA, ECC, Ed25519,
/// X25519, EdDSA, DH, ElGamal) is quantum-vulnerable unless the name also
/// mentions a quantum-resistant family; such a family makes it safe; a name
/// that mentions neither has an unknown posture.
pub proof fn law_classical_public_key_is_quantum_vulnerable(a: Seq<char>)
    ensures
        names_quantum_resistant_family(a) ==> quantum_safety(a) == QuantumSafe::Safe,
        names_classical_public_key_family(a) && !names_quantum_resistant_family(a) ==> quantum_safety(a)
            == QuantumSafe::Vulnerable,
        !names_classical_public_key_family(a) && !names_quantum_resistant_family(a) ==> quantum_safety(a)
            == QuantumSafe::Unknown,
{
}

/// A classical public-key algorithm found in code is quantum-vulnerable,
/// carries the quantum warning unless ECB mode overrides the verdict, and
/// is graded info when nothing else flags it.
pub proof fn law_quantum_vulnerable_is_reported(before: CryptoAsset, after: CryptoAsset)
    requires
        is_evaluation_of(before, after),
        before.detection_source != DetectionSource::Dependency,
        names_classical_public_key_family(upper(before.algorithm@)),
        !names_quantum_resistant_family(upper(before.algorithm@)),
    ensures
        after.quantum_safe == QuantumSafe::Vulnerable,
        !is_ecb(upper_mode(before.mode)) ==> views(after.findings@).contains(quantum_finding()),
        !deprecated(upper(before.algorithm@)) && !triple_des(upper(before.algorithm@)) && !insecure_prng(
            upper(before.algorithm@),
        ) && !hardcoded(upper(before.algorithm@)) && !is_ecb(upper_mode(before.mode)) ==> after.severity
            == Severity::Info,
{
    let a = upper(before.algorithm@);
    let f = policy_findings(a, upper_mode(before.mode), before.key_size);
    if !is_ecb(upper_mode(before.mode)) {
        assert(f.len() >= 1);
        assert(f[f.len() - 1] == quantum_finding());
    }
}

} // verus!
