//! Data models for the CBOM (Cryptographic Bill of Materials) schema and the
//! CycloneDX v1.5 output structures, with the conversion between them.

use vstd::prelude::*;

use crate::text::{
    chars_of, decimal, has_prefix, has_sub, is, lower, lower_chars, push_all, push_decimal, push_str, string_of, upper,
    upper_chars,
};

verus! {

// ---------------------------------------------------------------------------
// Core detection model
// ---------------------------------------------------------------------------

/// Quantum-safety classification for a cryptographic algorithm.
#[derive(Debug, Clone, Copy, PartialEq, Eq, Hash, Structural)]
pub enum QuantumSafe {
    /// Algorithm is considered quantum-safe (e.g., Kyber, Dilithium).
    Safe,
    /// Algorithm is vulnerable to quantum attacks (e.g., RSA, ECC).
    Vulnerable,
    /// Quantum safety is unknown or not applicable.
    Unknown,
}

/// Severity level assigned by the policy engine.
#[derive(Debug, Clone, Copy, PartialEq, Eq, Hash, Structural)]
pub enum Severity {
    /// Critical: algorithm is broken or fully deprecated (e.g., MD5, DES, RC4).
    Critical,
    /// Warning: algorithm has known weaknesses (e.g., 3DES).
    Warning,
    /// Info: acceptable but worth noting (e.g., quantum-vulnerable RSA-2048).
    Info,
    /// Safe: algorithm meets current best practices.
    Safe,
    /// Not yet evaluated.
    Unknown,
}

/// The source of a cryptographic finding: first-party code or a dependency.
#[derive(Debug, Clone, Copy, PartialEq, Eq, Hash, Structural)]
pub enum DetectionSource {
    /// Detected by analysis of first-party source code.
    SourceCode,
    /// Inferred from a third-party dependency in a lockfile.
    Dependency,
}

/// A single cryptographic asset detected in the codebase: one usage of
/// cryptography at one location, with its context and posture.
#[derive(Debug, Clone, PartialEq, Eq, Hash)]
pub struct CryptoAsset {
    /// The cryptographic algorithm or primitive detected (e.g. `"SHA256"`).
    pub algorithm: String,
    /// Path to the source file where the usage was found.
    pub file_path: String,
    /// 1-indexed line number of the detection (0 for whole-file findings).
    pub line_number: usize,
    /// The library or module that provides the cryptography.
    pub library_source: String,
    /// Key size in bits, if detected.
    pub key_size: Option<u32>,
    /// Mode of operation, if detected (e.g. `"GCM"`).
    pub mode: Option<String>,
    /// Padding scheme, if detected (e.g. `"OAEP"`).
    pub padding: Option<String>,
    /// Elliptic curve, if detected (e.g. `"P-256"`).
    pub curve: Option<String>,
    /// Quantum safety posture of the algorithm.
    pub quantum_safe: QuantumSafe,
    /// Severity assigned by the policy engine.
    pub severity: Severity,
    /// How this asset was detected.
    pub detection_source: DetectionSource,
    /// Human-readable policy findings for this asset.
    pub findings: Vec<String>,
    /// Certificate subject, for certificate findings.
    pub cert_subject: Option<String>,
    /// Certificate issuer, for certificate findings.
    pub cert_issuer: Option<String>,
    /// Certificate expiry date, for certificate findings.
    pub cert_expiry: Option<String>,
    /// Certificate serial number (hexadecimal), for certificate findings.
    pub cert_serial: Option<String>,
    /// Protocol version, for TLS configuration findings.
    pub protocol_version: Option<String>,
    /// Cipher suites named by a TLS configuration finding.
    pub cipher_suites: Vec<String>,
    /// Chain of packages that pulls a dependency finding in.
    pub dependency_path: Option<String>,
    /// Code-level remediation advice.
    pub remediation: Option<String>,
}

/// The character view of an optional string.
pub open spec fn opt_view(o: Option<String>) -> Option<Seq<char>> {
    match o {
        Some(s) => Some(s@),
        None => None,
    }
}

/// The character views of a sequence of strings.
pub open spec fn views(v: Seq<String>) -> Seq<Seq<char>> {
    v.map_values(|s: String| s@)
}

/// Pushing onto a sequence of strings pushes the view.
pub proof fn lemma_views_push(v: Seq<String>, s: String)
    ensures
        views(v.push(s)) == views(v).push(s@),
{
    assert(views(v.push(s)) =~= views(v).push(s@)) by {
        assert forall|k: int| 0 <= k < v.len() + 1 implies views(v.push(s))[k] == views(v).push(s@)[k] by {
            if k < v.len() {
                assert(v.push(s)[k] == v[k]);
            }
        }
    }
}

/// Two assets carry the same content.
pub open spec fn same_asset(a: CryptoAsset, b: CryptoAsset) -> bool {
    &&& a.algorithm@ == b.algorithm@
    &&& a.file_path@ == b.file_path@
    &&& a.line_number == b.line_number
    &&& a.library_source@ == b.library_source@
    &&& a.key_size == b.key_size
    &&& opt_view(a.mode) == opt_view(b.mode)
    &&& opt_view(a.padding) == opt_view(b.padding)
    &&& opt_view(a.curve) == opt_view(b.curve)
    &&& a.quantum_safe == b.quantum_safe
    &&& a.severity == b.severity
    &&& a.detection_source == b.detection_source
    &&& views(a.findings@) == views(b.findings@)
    &&& opt_view(a.cert_subject) == opt_view(b.cert_subject)
    &&& opt_view(a.cert_issuer) == opt_view(b.cert_issuer)
    &&& opt_view(a.cert_expiry) == opt_view(b.cert_expiry)
    &&& opt_view(a.cert_serial) == opt_view(b.cert_serial)
    &&& opt_view(a.protocol_version) == opt_view(b.protocol_version)
    &&& views(a.cipher_suites@) == views(b.cipher_suites@)
    &&& opt_view(a.dependency_path) == opt_view(b.dependency_path)
    &&& opt_view(a.remediation) == opt_view(b.remediation)
}

/// A copy of an optional string.
pub fn copy_opt(o: &Option<String>) -> (r: Option<String>)
    ensures
        opt_view(r) == opt_view(*o),
{
    match o {
        Some(s) => Some(s.clone()),
        None => None,
    }
}

/// A copy of a list of strings.
pub fn copy_strings(v: &Vec<String>) -> (r: Vec<String>)
    ensures
        views(r@) == views(v@),
{
    let mut r: Vec<String> = Vec::new();
    let mut i: usize = 0;
    while i < v.len()
        invariant
            i <= v@.len(),
            views(r@) == views(v@).subrange(0, i as int),
        decreases v.len() - i,
    {
        assert(views(v@).subrange(0, i + 1) =~= views(v@).subrange(0, i as int).push(v@[i as int]@));
        let s = v[i].clone();
        r.push(s);
        assert(views(r@) =~= views(v@).subrange(0, i + 1));
        i = i + 1;
    }
    assert(views(v@).subrange(0, v@.len() as int) =~= views(v@));
    r
}

/// A string holding the literal `lit`.
pub fn owned(lit: &str) -> (r: String)
    ensures
        r@ == lit@,
{
    lit.to_owned()
}

impl CryptoAsset {
    /// Create a new asset with the minimal required fields; the policy
    /// fields hold their "not evaluated" defaults.
    pub fn new(algorithm: String, file_path: String, line_number: usize, library_source: String) -> (r: Self)
        ensures
            r.algorithm == algorithm,
            r.file_path == file_path,
            r.line_number == line_number,
            r.library_source == library_source,
            r.key_size is None,
            r.mode is None,
            r.padding is None,
            r.curve is None,
            r.quantum_safe == QuantumSafe::Unknown,
            r.severity == Severity::Unknown,
            r.detection_source == DetectionSource::SourceCode,
            r.findings@.len() == 0,
            r.cert_subject is None,
            r.cert_issuer is None,
            r.cert_expiry is None,
            r.cert_serial is None,
            r.protocol_version is None,
            r.cipher_suites@.len() == 0,
            r.dependency_path is None,
            r.remediation is None,
    {
        CryptoAsset {
            algorithm,
            file_path,
            line_number,
            library_source,
            key_size: None,
            mode: None,
            padding: None,
            curve: None,
            quantum_safe: QuantumSafe::Unknown,
            severity: Severity::Unknown,
            detection_source: DetectionSource::SourceCode,
            findings: Vec::new(),
            cert_subject: None,
            cert_issuer: None,
            cert_expiry: None,
            cert_serial: None,
            protocol_version: None,
            cipher_suites: Vec::new(),
            dependency_path: None,
            remediation: None,
        }
    }

    /// A field-by-field copy of this asset.
    pub fn duplicate(&self) -> (r: Self)
        ensures
            same_asset(r, *self),
    {
        CryptoAsset {
            algorithm: self.algorithm.clone(),
            file_path: self.file_path.clone(),
            line_number: self.line_number,
            library_source: self.library_source.clone(),
            key_size: self.key_size,
            mode: copy_opt(&self.mode),
            padding: copy_opt(&self.padding),
            curve: copy_opt(&self.curve),
            quantum_safe: self.quantum_safe,
            severity: self.severity,
            detection_source: self.detection_source,
            findings: copy_strings(&self.findings),
            cert_subject: copy_opt(&self.cert_subject),
            cert_issuer: copy_opt(&self.cert_issuer),
            cert_expiry: copy_opt(&self.cert_expiry),
            cert_serial: copy_opt(&self.cert_serial),
            protocol_version: copy_opt(&self.protocol_version),
            cipher_suites: copy_strings(&self.cipher_suites),
            dependency_path: copy_opt(&self.dependency_path),
            remediation: copy_opt(&self.remediation),
        }
    }
}

// ---------------------------------------------------------------------------
// CycloneDX v1.5 output structures
// ---------------------------------------------------------------------------

/// Top-level CycloneDX BOM document (CycloneDX v1.5 with crypto-asset
/// extensions).
pub struct CycloneDxBom {
    /// Fixed: `"CycloneDX"`.
    pub bom_format: String,
    /// Specification version: `"1.5"`.
    pub spec_version: String,
    /// Unique serial number for this BOM (URN UUID).
    pub serial_number: String,
    /// BOM version.
    pub version: u32,
    /// Components discovered in the scan.
    pub components: Vec<CycloneDxComponent>,
}

/// A CycloneDX component representing a cryptographic asset.
pub struct CycloneDxComponent {
    /// Component type: `"crypto-asset"`.
    pub component_type: String,
    /// Human-readable name of the component (e.g. `"AES-256-GCM"`).
    pub name: String,
    /// Cryptographic properties specific to this asset.
    pub crypto_properties: Option<CycloneDxCryptoProperties>,
    /// Evidence of where this component was found.
    pub evidence: Option<CycloneDxEvidence>,
}

/// CycloneDX crypto-properties node.
pub struct CycloneDxCryptoProperties {
    /// Asset type: `"algorithm"`, `"certificate"`, `"protocol"`, `"related-crypto-material"`.
    pub asset_type: String,
    /// Algorithm properties, if the asset type is `"algorithm"`.
    pub algorithm_properties: Option<CycloneDxAlgorithmProperties>,
    /// OID of the algorithm, if known.
    pub oid: Option<String>,
}

/// Algorithm-specific properties in CycloneDX format.
pub struct CycloneDxAlgorithmProperties {
    /// Primitive (e.g. `"block-cipher"`, `"hash"`, `"mac"`, `"signature"`, `"key-agree"`).
    pub primitive: Option<String>,
    /// Parameter set length / key size in bits.
    pub parameter_set_identifier: Option<String>,
    /// Mode of operation (e.g. `"gcm"`).
    pub mode: Option<String>,
    /// Padding scheme (e.g. `"oaep"`).
    pub padding: Option<String>,
    /// Curve name for elliptic curve algorithms.
    pub curve: Option<String>,
    /// Certification level, if applicable.
    pub certification_level: Option<Vec<String>>,
    /// Cryptographic functions.
    pub crypto_functions: Option<Vec<String>>,
}

/// Evidence of where a component was found.
pub struct CycloneDxEvidence {
    /// Occurrences: where in the code or dependencies it was found.
    pub occurrences: Vec<CycloneDxOccurrence>,
}

/// A single occurrence of a cryptographic asset.
pub struct CycloneDxOccurrence {
    /// File path where the asset was detected.
    pub location: String,
    /// Line number within the file.
    pub line: Option<usize>,
    /// Additional context about the detection.
    pub additional_context: Option<String>,
}

// ---------------------------------------------------------------------------
// Classification helpers
// ---------------------------------------------------------------------------

/// The CycloneDX primitive of an algorithm name (compared upper-cased).
pub open spec fn primitive_of(algorithm: Seq<char>) -> Option<Seq<char>> {
    let a = upper(algorithm);
    if has_sub(a, "AES"@) || has_sub(a, "DES"@) || has_sub(a, "BLOWFISH"@) || has_sub(a, "CHACHA"@)
        || has_sub(a, "RC4"@) || has_sub(a, "CAMELLIA"@) {
        Some("block-cipher"@)
    } else if has_sub(a, "SHA"@) || has_sub(a, "MD5"@) || has_sub(a, "MD4"@) || has_sub(a, "BLAKE"@)
        || has_sub(a, "RIPEMD"@) || a == "HASHING (SEE USAGE)"@ {
        Some("hash"@)
    } else if has_sub(a, "HMAC"@) {
        Some("mac"@)
    } else if has_sub(a, "RSA"@) || has_sub(a, "DSA"@) || has_sub(a, "ECDSA"@) || has_sub(a, "EDDSA"@)
        || has_sub(a, "ED25519"@) {
        Some("signature"@)
    } else if has_sub(a, "ECDH"@) || has_sub(a, "DH"@) || has_sub(a, "X25519"@) || has_sub(a, "KYBER"@)
        || has_sub(a, "KEY_GENERATION"@) {
        Some("key-agree"@)
    } else if has_sub(a, "CSPRNG"@) || has_sub(a, "RANDOM"@) {
        Some("random-number-generator"@)
    } else if a == "TLS"@ || a == "SSL"@ {
        Some("protocol"@)
    } else {
        None
    }
}

/// Classify an algorithm into a CycloneDX primitive type.
pub fn classify_primitive(algorithm: &str) -> (r: Option<String>)
    ensures
        opt_view(r) == primitive_of(algorithm@),
{
    let c = chars_of(algorithm);
    let a = upper_chars(&c);
    let lit: Option<&str> = if crate::text::contains(&a, "AES") || crate::text::contains(&a, "DES")
        || crate::text::contains(&a, "BLOWFISH") || crate::text::contains(&a, "CHACHA")
        || crate::text::contains(&a, "RC4") || crate::text::contains(&a, "CAMELLIA") {
        Some("block-cipher")
    } else if crate::text::contains(&a, "SHA") || crate::text::contains(&a, "MD5") || crate::text::contains(&a, "MD4")
        || crate::text::contains(&a, "BLAKE") || crate::text::contains(&a, "RIPEMD") || is(
        &a,
        "HASHING (SEE USAGE)",
    ) {
        Some("hash")
    } else if crate::text::contains(&a, "HMAC") {
        Some("mac")
    } else if crate::text::contains(&a, "RSA") || crate::text::contains(&a, "DSA") || crate::text::contains(&a, "ECDSA")
        || crate::text::contains(&a, "EDDSA") || crate::text::contains(&a, "ED25519") {
        Some("signature")
    } else if crate::text::contains(&a, "ECDH") || crate::text::contains(&a, "DH") || crate::text::contains(&a, "X25519")
        || crate::text::contains(&a, "KYBER") || crate::text::contains(&a, "KEY_GENERATION") {
        Some("key-agree")
    } else if crate::text::contains(&a, "CSPRNG") || crate::text::contains(&a, "RANDOM") {
        Some("random-number-generator")
    } else if is(&a, "TLS") || is(&a, "SSL") {
        Some("protocol")
    } else {
        None
    };
    match lit {
        Some(l) => Some(owned(l)),
        None => None,
    }
}

/// The OID of a well-known algorithm (compared upper-cased).
pub open spec fn oid_of(algorithm: Seq<char>) -> Option<Seq<char>> {
    let a = upper(algorithm);
    if a == "AES"@ {
        Some("2.16.840.1.101.3.4.1"@)
    } else if a == "SHA256"@ || a == "SHA-256"@ {
        Some("2.16.840.1.101.3.4.2.1"@)
    } else if a == "SHA384"@ || a == "SHA-384"@ {
        Some("2.16.840.1.101.3.4.2.2"@)
    } else if a == "SHA512"@ || a == "SHA-512"@ {
        Some("2.16.840.1.101.3.4.2.3"@)
    } else if a == "SHA1"@ || a == "SHA-1"@ {
        Some("1.3.14.3.2.26"@)
    } else if a == "MD5"@ {
        Some("1.2.840.113549.2.5"@)
    } else if a == "RSA"@ {
        Some("1.2.840.113549.1.1.1"@)
    } else if a == "ECDSA"@ {
        Some("1.2.840.10045.4.3"@)
    } else if a == "DES"@ {
        Some("1.3.14.3.2.7"@)
    } else if a == "3DES"@ || a == "TRIPLE-DES"@ || a == "TRIPLEDES"@ {
        Some("1.2.840.113549.3.7"@)
    } else if a == "HMAC"@ {
        Some("1.2.840.113549.2.9"@)
    } else {
        None
    }
}

/// Look up the OID (Object Identifier) of a well-known algorithm.
pub fn lookup_oid(algorithm: &str) -> (r: Option<String>)
    ensures
        opt_view(r) == oid_of(algorithm@),
{
    let c = chars_of(algorithm);
    let a = upper_chars(&c);
    let lit: Option<&str> = if is(&a, "AES") {
        Some("2.16.840.1.101.3.4.1")
    } else if is(&a, "SHA256") || is(&a, "SHA-256") {
        Some("2.16.840.1.101.3.4.2.1")
    } else if is(&a, "SHA384") || is(&a, "SHA-384") {
        Some("2.16.840.1.101.3.4.2.2")
    } else if is(&a, "SHA512") || is(&a, "SHA-512") {
        Some("2.16.840.1.101.3.4.2.3")
    } else if is(&a, "SHA1") || is(&a, "SHA-1") {
        Some("1.3.14.3.2.26")
    } else if is(&a, "MD5") {
        Some("1.2.840.113549.2.5")
    } else if is(&a, "RSA") {
        Some("1.2.840.113549.1.1.1")
    } else if is(&a, "ECDSA") {
        Some("1.2.840.10045.4.3")
    } else if is(&a, "DES") {
        Some("1.3.14.3.2.7")
    } else if is(&a, "3DES") || is(&a, "TRIPLE-DES") || is(&a, "TRIPLEDES") {
        Some("1.2.840.113549.3.7")
    } else if is(&a, "HMAC") {
        Some("1.2.840.113549.2.9")
    } else {
        None
    };
    match lit {
        Some(l) => Some(owned(l)),
        None => None,
    }
}

// ---------------------------------------------------------------------------
// Conversion: CryptoAsset to CycloneDX component
// ---------------------------------------------------------------------------

/// The display name of an asset: algorithm, key size and mode joined with dashes.
pub open spec fn display_name(a: CryptoAsset) -> Seq<char> {
    let with_key = match a.key_size {
        Some(k) => a.algorithm@.push('-') + decimal(k as nat),
        None => a.algorithm@,
    };
    match a.mode {
        Some(m) => with_key.push('-') + m@,
        None => with_key,
    }
}

/// How `Debug` writes a detection source.
pub open spec fn source_label(d: DetectionSource) -> Seq<char> {
    match d {
        DetectionSource::SourceCode => "SourceCode"@,
        DetectionSource::Dependency => "Dependency"@,
    }
}

/// The lower-cased form of an optional string.
pub open spec fn opt_lower(o: Option<String>) -> Option<Seq<char>> {
    match o {
        Some(s) => Some(lower(s@)),
        None => None,
    }
}

/// `c` is the CycloneDX component of the asset `a`.
pub open spec fn is_component_of(c: CycloneDxComponent, a: CryptoAsset) -> bool {
    &&& c.component_type@ == "crypto-asset"@
    &&& c.name@ == display_name(a)
    &&& c.crypto_properties matches Some(cp) && {
        &&& cp.asset_type@ == "algorithm"@
        &&& opt_view(cp.oid) == oid_of(a.algorithm@)
        &&& cp.algorithm_properties matches Some(ap) && {
            &&& opt_view(ap.primitive) == primitive_of(a.algorithm@)
            &&& opt_view(ap.parameter_set_identifier) == (match a.key_size {
                Some(k) => Some(decimal(k as nat)),
                None => None,
            })
            &&& opt_view(ap.mode) == opt_lower(a.mode)
            &&& opt_view(ap.padding) == opt_lower(a.padding)
            &&& opt_view(ap.curve) == opt_view(a.curve)
            &&& ap.certification_level is None
            &&& ap.crypto_functions is None
        }
    }
    &&& c.evidence matches Some(ev) && {
        &&& ev.occurrences@.len() == 1
        &&& ev.occurrences@[0].location@ == a.file_path@
        &&& ev.occurrences@[0].line == Some(a.line_number)
        &&& opt_view(ev.occurrences@[0].additional_context) == Some(
            "library="@ + a.library_source@ + ", detection="@ + source_label(a.detection_source),
        )
    }
}

/// A copy of an optional string, lower-cased.
fn lower_opt(o: &Option<String>) -> (r: Option<String>)
    ensures
        opt_view(r) == opt_lower(*o),
{
    match o {
        Some(s) => {
            let c = chars_of(s.as_str());
            let l = lower_chars(&c);
            Some(string_of(&l))
        },
        None => None,
    }
}

impl CryptoAsset {
    /// Build a human-readable display name like `"AES-256-GCM"`.
    pub fn build_display_name(&self) -> (r: String)
        ensures
            r@ == display_name(*self),
    {
        let mut v = chars_of(self.algorithm.as_str());
        match self.key_size {
            Some(k) => {
                v.push('-');
                push_decimal(&mut v, k as u64);
            },
            None => {},
        }
        match &self.mode {
            Some(m) => {
                v.push('-');
                push_str(&mut v, m.as_str());
            },
            None => {},
        }
        string_of(&v)
    }

    /// Convert this asset into a CycloneDX component.
    pub fn to_cyclonedx_component(&self) -> (r: CycloneDxComponent)
        ensures
            is_component_of(r, *self),
    {
        let name = self.build_display_name();
        let primitive = classify_primitive(self.algorithm.as_str());
        let oid = lookup_oid(self.algorithm.as_str());
        let parameter_set_identifier = match self.key_size {
            Some(k) => {
                let mut v: Vec<char> = Vec::new();
                push_decimal(&mut v, k as u64);
                Some(string_of(&v))
            },
            None => None,
        };
        let mut context = chars_of("library=");
        push_str(&mut context, self.library_source.as_str());
        push_str(&mut context, ", detection=");
        match self.detection_source {
            DetectionSource::SourceCode => push_str(&mut context, "SourceCode"),
            DetectionSource::Dependency => push_str(&mut context, "Dependency"),
        }
        let mut occurrences: Vec<CycloneDxOccurrence> = Vec::new();
        occurrences.push(
            CycloneDxOccurrence {
                location: self.file_path.clone(),
                line: Some(self.line_number),
                additional_context: Some(string_of(&context)),
            },
        );
        CycloneDxComponent {
            component_type: owned("crypto-asset"),
            name,
            crypto_properties: Some(
                CycloneDxCryptoProperties {
                    asset_type: owned("algorithm"),
                    algorithm_properties: Some(
                        CycloneDxAlgorithmProperties {
                            primitive,
                            parameter_set_identifier,
                            mode: lower_opt(&self.mode),
                            padding: lower_opt(&self.padding),
                            curve: copy_opt(&self.curve),
                            certification_level: None,
                            crypto_functions: None,
                        },
                    ),
                    oid,
                },
            ),
            evidence: Some(CycloneDxEvidence { occurrences }),
        }
    }
}

// ---------------------------------------------------------------------------
// Serial numbers and the BOM document
// ---------------------------------------------------------------------------

/// A lower-case hexadecimal digit.
pub open spec fn hex_digit(d: nat) -> char {
    if d < 10 {
        ((d + 48) as u32) as char
    } else {
        ((d + 87) as u32) as char
    }
}

/// The `w` lowest hexadecimal digits of `v`, most significant first
/// (`{:0w$x}` for `v < 16^w`).
pub open spec fn hex_fixed(v: nat, w: nat) -> Seq<char>
    decreases w,
{
    if w == 0 {
        Seq::empty()
    } else {
        hex_fixed(v / 16, (w - 1) as nat).push(hex_digit(v % 16))
    }
}

/// The pseudo-UUID made of a seed: its low 32 bits, then bits 32..48, bits
/// 48..60 with the version nibble 4, bits 60..74 with the variant bit, and
/// bits 74..122, in hexadecimal groups of 8-4-4-4-12 digits.
pub open spec fn uuid_text(seed: u128) -> Seq<char> {
    hex_fixed(seed as nat % 0x1_0000_0000, 8).push('-') + hex_fixed((seed as nat / 0x1_0000_0000) % 0x1_0000, 4).push(
        '-',
    ) + hex_fixed((seed as nat / 0x1_0000_0000_0000) % 0x1000 + 0x4000, 4).push('-') + hex_fixed(
        (seed as nat / 0x1000_0000_0000_0000) % 0x4000 + 0x8000,
        4,
    ).push('-') + hex_fixed((seed as nat / 0x400_0000_0000_0000_0000) % 0x1_0000_0000_0000, 12)
}

/// One hexadecimal digit.
fn hex_digit_exec(d: u128) -> (c: char)
    requires
        d < 16,
    ensures
        c == hex_digit(d as nat),
{
    let v = d as u32;
    if v < 10 {
        char_of(v + 48)
    } else {
        char_of(v + 87)
    }
}

/// The character with an ASCII code.
fn char_of(v: u32) -> (c: char)
    requires
        v < 128,
    ensures
        c == v as char,
{
    let b = v as u8;
    b as char
}

/// Appends the `w` lowest hexadecimal digits of `v`.
fn push_hex(out: &mut Vec<char>, v: u128, w: u32)
    ensures
        final(out)@ == old(out)@ + hex_fixed(v as nat, w as nat),
    decreases w,
{
    if w > 0 {
        push_hex(out, v / 16, w - 1);
        out.push(hex_digit_exec(v % 16));
        assert(final(out)@ =~= old(out)@ + hex_fixed(v as nat, w as nat));
    } else {
        assert(old(out)@ + hex_fixed(v as nat, 0) =~= old(out)@);
    }
}

/// The pseudo-UUID of a seed.
pub fn uuid_from_seed(seed: u128) -> (r: String)
    ensures
        r@ == uuid_text(seed),
{
    let mut v: Vec<char> = Vec::new();
    push_hex(&mut v, seed % 0x1_0000_0000, 8);
    v.push('-');
    push_hex(&mut v, (seed / 0x1_0000_0000) % 0x1_0000, 4);
    v.push('-');
    push_hex(&mut v, (seed / 0x1_0000_0000_0000) % 0x1000 + 0x4000, 4);
    v.push('-');
    push_hex(&mut v, (seed / 0x1000_0000_0000_0000) % 0x4000 + 0x8000, 4);
    v.push('-');
    push_hex(&mut v, (seed / 0x400_0000_0000_0000_0000) % 0x1_0000_0000_0000, 12);
    string_of(&v)
}

/// `SystemTime::now()` measured from `UNIX_EPOCH` in nanoseconds (zero for
/// a clock set before the epoch). It depends on the time: nothing is
/// claimed of it.
#[verifier::external_body]
fn clock_nanos() -> u128 {
    std::time::SystemTime::now().duration_since(std::time::UNIX_EPOCH).unwrap_or_default().as_nanos()
}

/// Generate a pseudo-UUID for the BOM serial number from the current time.
pub fn simple_uuid() -> (r: String)
    ensures
        exists|seed: u128| r@ == uuid_text(seed),
{
    let seed = clock_nanos();
    uuid_from_seed(seed)
}

/// `b` is the BOM of `assets` with the serial number made of `seed`.
pub open spec fn is_bom_of(b: CycloneDxBom, assets: Seq<CryptoAsset>, seed: u128) -> bool {
    &&& b.bom_format@ == "CycloneDX"@
    &&& b.spec_version@ == "1.5"@
    &&& b.serial_number@ == "urn:uuid:"@ + uuid_text(seed)
    &&& b.version == 1
    &&& b.components@.len() == assets.len()
    &&& forall|i: int| 0 <= i < assets.len() ==> is_component_of(#[trigger] b.components@[i], assets[i])
}

/// The BOM of the assets, with the serial number made of `seed`.
pub fn to_cyclonedx_bom_with_seed(assets: &[CryptoAsset], seed: u128) -> (r: CycloneDxBom)
    ensures
        is_bom_of(r, assets@, seed),
{
    let mut components: Vec<CycloneDxComponent> = Vec::new();
    let mut i: usize = 0;
    while i < assets.len()
        invariant
            i <= assets@.len(),
            components@.len() == i,
            forall|k: int| 0 <= k < i ==> is_component_of(#[trigger] components@[k], assets@[k]),
        decreases assets.len() - i,
    {
        components.push(assets[i].to_cyclonedx_component());
        i = i + 1;
    }
    let mut serial = chars_of("urn:uuid:");
    let u = uuid_from_seed(seed);
    push_str(&mut serial, u.as_str());
    CycloneDxBom {
        bom_format: owned("CycloneDX"),
        spec_version: owned("1.5"),
        serial_number: string_of(&serial),
        version: 1,
        components,
    }
}

/// Convert a list of assets into a CycloneDX BOM document: one component
/// per asset, in order, under a time-based serial number.
pub fn to_cyclonedx_bom(assets: &[CryptoAsset]) -> (r: CycloneDxBom)
    ensures
        exists|seed: u128| is_bom_of(r, assets@, seed),
{
    let seed = clock_nanos();
    to_cyclonedx_bom_with_seed(assets, seed)
}

// ---------------------------------------------------------------------------
// Laws
// ---------------------------------------------------------------------------

/// A serial number has the shape of a version 4 UUID: 36 characters,
/// lower-case hexadecimal digits in groups of 8, 4, 4, 4 and 12 separated by
/// dashes, the version digit `4` and a variant digit from `8` to `b`.
pub proof fn law_serial_number_is_uuid_shaped(seed: u128)
    ensures
        uuid_text(seed).len() == 36,
        uuid_text(seed)[8] == '-',
        uuid_text(seed)[13] == '-',
        uuid_text(seed)[18] == '-',
        uuid_text(seed)[23] == '-',
        uuid_text(seed)[14] == '4',
        uuid_text(seed)[19] == '8' || uuid_text(seed)[19] == '9' || uuid_text(seed)[19] == 'a'
            || uuid_text(seed)[19] == 'b',
        forall|i: int|
            0 <= i < 36 && i != 8 && i != 13 && i != 18 && i != 23 ==> is_lower_hex(#[trigger] uuid_text(seed)[i]),
{
    let n = seed as nat;
    let a = hex_fixed(n % 0x1_0000_0000, 8).push('-');
    let b = hex_fixed((n / 0x1_0000_0000) % 0x1_0000, 4).push('-');
    let x = (n / 0x1_0000_0000_0000) % 0x1000;
    let z = (n / 0x1000_0000_0000_0000) % 0x4000;
    let c = hex_fixed(x + 0x4000, 4).push('-');
    let d = hex_fixed(z + 0x8000, 4).push('-');
    let e = hex_fixed((n / 0x400_0000_0000_0000_0000) % 0x1_0000_0000_0000, 12);
    lemma_hex_fixed_len(n % 0x1_0000_0000, 8);
    lemma_hex_fixed_len((n / 0x1_0000_0000) % 0x1_0000, 4);
    lemma_hex_fixed_len(x + 0x4000, 4);
    lemma_hex_fixed_len(z + 0x8000, 4);
    lemma_hex_fixed_len((n / 0x400_0000_0000_0000_0000) % 0x1_0000_0000_0000, 12);
    lemma_hex_fixed_first(x + 0x4000);
    lemma_hex_fixed_first(z + 0x8000);
    assert((x + 0x4000) / 4096 == 4);
    assert(8 <= (z + 0x8000) / 4096 <= 11);
    assert(uuid_text(seed) == a + b + c + d + e);
    assert((a + b + c + d + e)[14] == c[0]);
    assert((a + b + c + d + e)[19] == d[0]);
    lemma_hex_fixed_lower(n % 0x1_0000_0000, 8);
    lemma_hex_fixed_lower((n / 0x1_0000_0000) % 0x1_0000, 4);
    lemma_hex_fixed_lower(x + 0x4000, 4);
    lemma_hex_fixed_lower(z + 0x8000, 4);
    lemma_hex_fixed_lower((n / 0x400_0000_0000_0000_0000) % 0x1_0000_0000_0000, 12);
    let u = a + b + c + d + e;
    assert forall|i: int| 0 <= i < 36 && i != 8 && i != 13 && i != 18 && i != 23 implies is_lower_hex(
        #[trigger] uuid_text(seed)[i],
    ) by {
        if i < 8 {
            assert(u[i] == a[i]);
        } else if i < 13 {
            assert(u[i] == b[i - 9]);
        } else if i < 18 {
            assert(u[i] == c[i - 14]);
        } else if i < 23 {
            assert(u[i] == d[i - 19]);
        } else {
            assert(u[i] == e[i - 24]);
        }
    }
}

/// A lower-case hexadecimal digit: `0`..`9` or `a`..`f`.
pub open spec fn is_lower_hex(c: char) -> bool {
    (48 <= (c as u32) && (c as u32) <= 57) || (97 <= (c as u32) && (c as u32) <= 102)
}

/// `hex_fixed` writes lower-case hexadecimal digits only.
proof fn lemma_hex_fixed_lower(v: nat, w: nat)
    ensures
        forall|j: int| 0 <= j < w ==> is_lower_hex(#[trigger] hex_fixed(v, w)[j]),
    decreases w,
{
    if w > 0 {
        lemma_hex_fixed_lower(v / 16, (w - 1) as nat);
        lemma_hex_fixed_len(v / 16, (w - 1) as nat);
        let d = v % 16;
        assert(is_lower_hex(hex_digit(d))) by {
            if d < 10 {
                assert(((d + 48) as u32) as char as u32 == d + 48);
            } else {
                assert(((d + 87) as u32) as char as u32 == d + 87);
            }
        }
        assert forall|j: int| 0 <= j < w implies is_lower_hex(#[trigger] hex_fixed(v, w)[j]) by {
            if j < w - 1 {
                assert(hex_fixed(v, w)[j] == hex_fixed(v / 16, (w - 1) as nat)[j]);
            }
        }
    }
}

/// `hex_fixed` writes exactly `w` digits.
proof fn lemma_hex_fixed_len(v: nat, w: nat)
    ensures
        hex_fixed(v, w).len() == w,
    decreases w,
{
    if w > 0 {
        lemma_hex_fixed_len(v / 16, (w - 1) as nat);
    }
}

/// The first of four digits is the digit of `v / 4096`.
proof fn lemma_hex_fixed_first(v: nat)
    ensures
        hex_fixed(v, 4)[0] == hex_digit((v / 4096) % 16),
{
    lemma_hex_fixed_len(v / 16, 3);
    lemma_hex_fixed_len(v / 256, 2);
    lemma_hex_fixed_len(v / 4096, 1);
    assert(v / 16 / 16 == v / 256);
    assert(v / 256 / 16 == v / 4096);
    assert(hex_fixed(v, 4)[0] == hex_fixed(v / 16, 3)[0]);
    assert(hex_fixed(v / 16, 3)[0] == hex_fixed(v / 256, 2)[0]);
    assert(hex_fixed(v / 256, 2)[0] == hex_fixed(v / 4096, 1)[0]);
}

/// A BOM document's serial number is `urn:uuid:` followed by a version 4
/// UUID: 45 characters, lower-case hexadecimal digits in groups of 8, 4, 4,
/// 4 and 12 separated by dashes, the version digit `4` at position 23 and a
/// variant digit from `8` to `b` at position 28.
pub proof fn law_bom_serial_number_is_a_uuid_urn(b: CycloneDxBom, assets: Seq<CryptoAsset>, seed: u128)
    requires
        is_bom_of(b, assets, seed),
    ensures
        b.serial_number@.len() == 45,
        b.serial_number@.subrange(0, 9) == "urn:uuid:"@,
        b.serial_number@.subrange(9, 45) == uuid_text(seed),
        b.serial_number@[23] == '4',
        b.serial_number@[28] == '8' || b.serial_number@[28] == '9' || b.serial_number@[28] == 'a'
            || b.serial_number@[28] == 'b',
        b.serial_number@[17] == '-' && b.serial_number@[22] == '-' && b.serial_number@[27] == '-'
            && b.serial_number@[32] == '-',
        forall|i: int|
            9 <= i < 45 && i != 17 && i != 22 && i != 27 && i != 32 ==> is_lower_hex(
                #[trigger] b.serial_number@[i],
            ),
{
    reveal_strlit("urn:uuid:");
    law_serial_number_is_uuid_shaped(seed);
    let u = uuid_text(seed);
    assert(b.serial_number@ == "urn:uuid:"@ + u);
    assert(b.serial_number@.subrange(0, 9) =~= "urn:uuid:"@);
    assert(b.serial_number@.subrange(9, 45) =~= u);
    assert(b.serial_number@[23] == u[14]);
    assert(b.serial_number@[28] == u[19]);
    assert forall|i: int| 9 <= i < 45 && i != 17 && i != 22 && i != 27 && i != 32 implies is_lower_hex(
        #[trigger] b.serial_number@[i],
    ) by {
        assert(b.serial_number@[i] == u[i - 9]);
    }
    assert(b.serial_number@[17] == u[8] && b.serial_number@[22] == u[13] && b.serial_number@[27] == u[18]
        && b.serial_number@[32] == u[23]);
}

/// The algorithm an OID entry stands for: the upper-cased name, with the
/// spellings of one algorithm (`SHA-256` and `SHA256`, `3DES` and
/// `TRIPLE-DES`, ...) taken as one.
pub open spec fn oid_family(algorithm: Seq<char>) -> Seq<char> {
    let a = upper(algorithm);
    if a == "SHA-256"@ {
        "SHA256"@
    } else if a == "SHA-384"@ {
        "SHA384"@
    } else if a == "SHA-512"@ {
        "SHA512"@
    } else if a == "SHA-1"@ {
        "SHA1"@
    } else if a == "TRIPLE-DES"@ || a == "TRIPLEDES"@ {
        "3DES"@
    } else {
        a
    }
}

/// The algorithm names and OIDs of the table are told apart.
proof fn lemma_oid_literals_distinct()
    ensures
        "2.16.840.1.101.3.4.2.1"@ != "2.16.840.1.101.3.4.1"@,
        "2.16.840.1.101.3.4.2.2"@ != "2.16.840.1.101.3.4.1"@,
        "2.16.840.1.101.3.4.2.2"@ != "2.16.840.1.101.3.4.2.1"@,
        "2.16.840.1.101.3.4.2.3"@ != "2.16.840.1.101.3.4.1"@,
        "2.16.840.1.101.3.4.2.3"@ != "2.16.840.1.101.3.4.2.1"@,
        "2.16.840.1.101.3.4.2.3"@ != "2.16.840.1.101.3.4.2.2"@,
        "1.3.14.3.2.26"@ != "2.16.840.1.101.3.4.1"@,
        "1.3.14.3.2.26"@ != "2.16.840.1.101.3.4.2.1"@,
        "1.3.14.3.2.26"@ != "2.16.840.1.101.3.4.2.2"@,
        "1.3.14.3.2.26"@ != "2.16.840.1.101.3.4.2.3"@,
        "1.2.840.113549.2.5"@ != "2.16.840.1.101.3.4.1"@,
        "1.2.840.113549.2.5"@ != "2.16.840.1.101.3.4.2.1"@,
        "1.2.840.113549.2.5"@ != "2.16.840.1.101.3.4.2.2"@,
        "1.2.840.113549.2.5"@ != "2.16.840.1.101.3.4.2.3"@,
        "1.2.840.113549.2.5"@ != "1.3.14.3.2.26"@,
        "1.2.840.113549.1.1.1"@ != "2.16.840.1.101.3.4.1"@,
        "1.2.840.113549.1.1.1"@ != "2.16.840.1.101.3.4.2.1"@,
        "1.2.840.113549.1.1.1"@ != "2.16.840.1.101.3.4.2.2"@,
        "1.2.840.113549.1.1.1"@ != "2.16.840.1.101.3.4.2.3"@,
        "1.2.840.113549.1.1.1"@ != "1.3.14.3.2.26"@,
        "1.2.840.113549.1.1.1"@ != "1.2.840.113549.2.5"@,
        "1.2.840.10045.4.3"@ != "2.16.840.1.101.3.4.1"@,
        "1.2.840.10045.4.3"@ != "2.16.840.1.101.3.4.2.1"@,
        "1.2.840.10045.4.3"@ != "2.16.840.1.101.3.4.2.2"@,
        "1.2.840.10045.4.3"@ != "2.16.840.1.101.3.4.2.3"@,
        "1.2.840.10045.4.3"@ != "1.3.14.3.2.26"@,
        "1.2.840.10045.4.3"@ != "1.2.840.113549.2.5"@,
        "1.2.840.10045.4.3"@ != "1.2.840.113549.1.1.1"@,
        "1.3.14.3.2.7"@ != "2.16.840.1.101.3.4.1"@,
        "1.3.14.3.2.7"@ != "2.16.840.1.101.3.4.2.1"@,
        "1.3.14.3.2.7"@ != "2.16.840.1.101.3.4.2.2"@,
        "1.3.14.3.2.7"@ != "2.16.840.1.101.3.4.2.3"@,
        "1.3.14.3.2.7"@ != "1.3.14.3.2.26"@,
        "1.3.14.3.2.7"@ != "1.2.840.113549.2.5"@,
        "1.3.14.3.2.7"@ != "1.2.840.113549.1.1.1"@,
        "1.3.14.3.2.7"@ != "1.2.840.10045.4.3"@,
        "1.2.840.113549.3.7"@ != "2.16.840.1.101.3.4.1"@,
        "1.2.840.113549.3.7"@ != "2.16.840.1.101.3.4.2.1"@,
        "1.2.840.113549.3.7"@ != "2.16.840.1.101.3.4.2.2"@,
        "1.2.840.113549.3.7"@ != "2.16.840.1.101.3.4.2.3"@,
        "1.2.840.113549.3.7"@ != "1.3.14.3.2.26"@,
        "1.2.840.113549.3.7"@ != "1.2.840.113549.2.5"@,
        "1.2.840.113549.3.7"@ != "1.2.840.113549.1.1.1"@,
        "1.2.840.113549.3.7"@ != "1.2.840.10045.4.3"@,
        "1.2.840.113549.3.7"@ != "1.3.14.3.2.7"@,
        "1.2.840.113549.2.9"@ != "2.16.840.1.101.3.4.1"@,
        "1.2.840.113549.2.9"@ != "2.16.840.1.101.3.4.2.1"@,
        "1.2.840.113549.2.9"@ != "2.16.840.1.101.3.4.2.2"@,
        "1.2.840.113549.2.9"@ != "2.16.840.1.101.3.4.2.3"@,
        "1.2.840.113549.2.9"@ != "1.3.14.3.2.26"@,
        "1.2.840.113549.2.9"@ != "1.2.840.113549.2.5"@,
        "1.2.840.113549.2.9"@ != "1.2.840.113549.1.1.1"@,
        "1.2.840.113549.2.9"@ != "1.2.840.10045.4.3"@,
        "1.2.840.113549.2.9"@ != "1.3.14.3.2.7"@,
        "1.2.840.113549.2.9"@ != "1.2.840.113549.3.7"@,
        "SHA256"@ != "AES"@,
        "SHA-256"@ != "AES"@,
        "SHA-256"@ != "SHA256"@,
        "SHA384"@ != "AES"@,
        "SHA384"@ != "SHA256"@,
        "SHA384"@ != "SHA-256"@,
        "SHA-384"@ != "AES"@,
        "SHA-384"@ != "SHA256"@,
        "SHA-384"@ != "SHA-256"@,
        "SHA-384"@ != "SHA384"@,
        "SHA512"@ != "AES"@,
        "SHA512"@ != "SHA256"@,
        "SHA512"@ != "SHA-256"@,
        "SHA512"@ != "SHA384"@,
        "SHA512"@ != "SHA-384"@,
        "SHA-512"@ != "AES"@,
        "SHA-512"@ != "SHA256"@,
        "SHA-512"@ != "SHA-256"@,
        "SHA-512"@ != "SHA384"@,
        "SHA-512"@ != "SHA-384"@,
        "SHA-512"@ != "SHA512"@,
        "SHA1"@ != "AES"@,
        "SHA1"@ != "SHA256"@,
        "SHA1"@ != "SHA-256"@,
        "SHA1"@ != "SHA384"@,
        "SHA1"@ != "SHA-384"@,
        "SHA1"@ != "SHA512"@,
        "SHA1"@ != "SHA-512"@,
        "SHA-1"@ != "AES"@,
        "SHA-1"@ != "SHA256"@,
        "SHA-1"@ != "SHA-256"@,
        "SHA-1"@ != "SHA384"@,
        "SHA-1"@ != "SHA-384"@,
        "SHA-1"@ != "SHA512"@,
        "SHA-1"@ != "SHA-512"@,
        "SHA-1"@ != "SHA1"@,
        "MD5"@ != "AES"@,
        "MD5"@ != "SHA256"@,
        "MD5"@ != "SHA-256"@,
        "MD5"@ != "SHA384"@,
        "MD5"@ != "SHA-384"@,
        "MD5"@ != "SHA512"@,
        "MD5"@ != "SHA-512"@,
        "MD5"@ != "SHA1"@,
        "MD5"@ != "SHA-1"@,
        "RSA"@ != "AES"@,
        "RSA"@ != "SHA256"@,
        "RSA"@ != "SHA-256"@,
        "RSA"@ != "SHA384"@,
        "RSA"@ != "SHA-384"@,
        "RSA"@ != "SHA512"@,
        "RSA"@ != "SHA-512"@,
        "RSA"@ != "SHA1"@,
        "RSA"@ != "SHA-1"@,
        "RSA"@ != "MD5"@,
        "ECDSA"@ != "AES"@,
        "ECDSA"@ != "SHA256"@,
        "ECDSA"@ != "SHA-256"@,
        "ECDSA"@ != "SHA384"@,
        "ECDSA"@ != "SHA-384"@,
        "ECDSA"@ != "SHA512"@,
        "ECDSA"@ != "SHA-512"@,
        "ECDSA"@ != "SHA1"@,
        "ECDSA"@ != "SHA-1"@,
        "ECDSA"@ != "MD5"@,
        "ECDSA"@ != "RSA"@,
        "DES"@ != "AES"@,
        "DES"@ != "SHA256"@,
        "DES"@ != "SHA-256"@,
        "DES"@ != "SHA384"@,
        "DES"@ != "SHA-384"@,
        "DES"@ != "SHA512"@,
        "DES"@ != "SHA-512"@,
        "DES"@ != "SHA1"@,
        "DES"@ != "SHA-1"@,
        "DES"@ != "MD5"@,
        "DES"@ != "RSA"@,
        "DES"@ != "ECDSA"@,
        "3DES"@ != "AES"@,
        "3DES"@ != "SHA256"@,
        "3DES"@ != "SHA-256"@,
        "3DES"@ != "SHA384"@,
        "3DES"@ != "SHA-384"@,
        "3DES"@ != "SHA512"@,
        "3DES"@ != "SHA-512"@,
        "3DES"@ != "SHA1"@,
        "3DES"@ != "SHA-1"@,
        "3DES"@ != "MD5"@,
        "3DES"@ != "RSA"@,
        "3DES"@ != "ECDSA"@,
        "3DES"@ != "DES"@,
        "TRIPLE-DES"@ != "AES"@,
        "TRIPLE-DES"@ != "SHA256"@,
        "TRIPLE-DES"@ != "SHA-256"@,
        "TRIPLE-DES"@ != "SHA384"@,
        "TRIPLE-DES"@ != "SHA-384"@,
        "TRIPLE-DES"@ != "SHA512"@,
        "TRIPLE-DES"@ != "SHA-512"@,
        "TRIPLE-DES"@ != "SHA1"@,
        "TRIPLE-DES"@ != "SHA-1"@,
        "TRIPLE-DES"@ != "MD5"@,
        "TRIPLE-DES"@ != "RSA"@,
        "TRIPLE-DES"@ != "ECDSA"@,
        "TRIPLE-DES"@ != "DES"@,
        "TRIPLE-DES"@ != "3DES"@,
        "TRIPLEDES"@ != "AES"@,
        "TRIPLEDES"@ != "SHA256"@,
        "TRIPLEDES"@ != "SHA-256"@,
        "TRIPLEDES"@ != "SHA384"@,
        "TRIPLEDES"@ != "SHA-384"@,
        "TRIPLEDES"@ != "SHA512"@,
        "TRIPLEDES"@ != "SHA-512"@,
        "TRIPLEDES"@ != "SHA1"@,
        "TRIPLEDES"@ != "SHA-1"@,
        "TRIPLEDES"@ != "MD5"@,
        "TRIPLEDES"@ != "RSA"@,
        "TRIPLEDES"@ != "ECDSA"@,
        "TRIPLEDES"@ != "DES"@,
        "TRIPLEDES"@ != "3DES"@,
        "TRIPLEDES"@ != "TRIPLE-DES"@,
        "HMAC"@ != "AES"@,
        "HMAC"@ != "SHA256"@,
        "HMAC"@ != "SHA-256"@,
        "HMAC"@ != "SHA384"@,
        "HMAC"@ != "SHA-384"@,
        "HMAC"@ != "SHA512"@,
        "HMAC"@ != "SHA-512"@,
        "HMAC"@ != "SHA1"@,
        "HMAC"@ != "SHA-1"@,
        "HMAC"@ != "MD5"@,
        "HMAC"@ != "RSA"@,
        "HMAC"@ != "ECDSA"@,
        "HMAC"@ != "DES"@,
        "HMAC"@ != "3DES"@,
        "HMAC"@ != "TRIPLE-DES"@,
        "HMAC"@ != "TRIPLEDES"@,
{
    reveal_strlit("2.16.840.1.101.3.4.1");
    reveal_strlit("2.16.840.1.101.3.4.2.1");
    reveal_strlit("2.16.840.1.101.3.4.2.2");
    reveal_strlit("2.16.840.1.101.3.4.2.3");
    reveal_strlit("1.3.14.3.2.26");
    reveal_strlit("1.2.840.113549.2.5");
    reveal_strlit("1.2.840.113549.1.1.1");
    reveal_strlit("1.2.840.10045.4.3");
    reveal_strlit("1.3.14.3.2.7");
    reveal_strlit("1.2.840.113549.3.7");
    reveal_strlit("1.2.840.113549.2.9");
    reveal_strlit("AES");
    reveal_strlit("SHA256");
    reveal_strlit("SHA-256");
    reveal_strlit("SHA384");
    reveal_strlit("SHA-384");
    reveal_strlit("SHA512");
    reveal_strlit("SHA-512");
    reveal_strlit("SHA1");
    reveal_strlit("SHA-1");
    reveal_strlit("MD5");
    reveal_strlit("RSA");
    reveal_strlit("ECDSA");
    reveal_strlit("DES");
    reveal_strlit("3DES");
    reveal_strlit("TRIPLE-DES");
    reveal_strlit("TRIPLEDES");
    reveal_strlit("HMAC");
    assert("2.16.840.1.101.3.4.2.1"@.len() != "2.16.840.1.101.3.4.1"@.len());
    assert("2.16.840.1.101.3.4.2.2"@.len() != "2.16.840.1.101.3.4.1"@.len());
    assert("2.16.840.1.101.3.4.2.3"@.len() != "2.16.840.1.101.3.4.1"@.len());
    assert("1.3.14.3.2.26"@.len() != "2.16.840.1.101.3.4.1"@.len());
    assert("1.3.14.3.2.26"@.len() != "2.16.840.1.101.3.4.2.1"@.len());
    assert("1.3.14.3.2.26"@.len() != "2.16.840.1.101.3.4.2.2"@.len());
    assert("1.3.14.3.2.26"@.len() != "2.16.840.1.101.3.4.2.3"@.len());
    assert("1.2.840.113549.2.5"@.len() != "2.16.840.1.101.3.4.1"@.len());
    assert("1.2.840.113549.2.5"@.len() != "2.16.840.1.101.3.4.2.1"@.len());
    assert("1.2.840.113549.2.5"@.len() != "2.16.840.1.101.3.4.2.2"@.len());
    assert("1.2.840.113549.2.5"@.len() != "2.16.840.1.101.3.4.2.3"@.len());
    assert("1.2.840.113549.2.5"@.len() != "1.3.14.3.2.26"@.len());
    assert("1.2.840.113549.1.1.1"@.len() != "2.16.840.1.101.3.4.2.1"@.len());
    assert("1.2.840.113549.1.1.1"@.len() != "2.16.840.1.101.3.4.2.2"@.len());
    assert("1.2.840.113549.1.1.1"@.len() != "2.16.840.1.101.3.4.2.3"@.len());
    assert("1.2.840.113549.1.1.1"@.len() != "1.3.14.3.2.26"@.len());
    assert("1.2.840.113549.1.1.1"@.len() != "1.2.840.113549.2.5"@.len());
    assert("1.2.840.10045.4.3"@.len() != "2.16.840.1.101.3.4.1"@.len());
    assert("1.2.840.10045.4.3"@.len() != "2.16.840.1.101.3.4.2.1"@.len());
    assert("1.2.840.10045.4.3"@.len() != "2.16.840.1.101.3.4.2.2"@.len());
    assert("1.2.840.10045.4.3"@.len() != "2.16.840.1.101.3.4.2.3"@.len());
    assert("1.2.840.10045.4.3"@.len() != "1.3.14.3.2.26"@.len());
    assert("1.2.840.10045.4.3"@.len() != "1.2.840.113549.2.5"@.len());
    assert("1.2.840.10045.4.3"@.len() != "1.2.840.113549.1.1.1"@.len());
    assert("1.3.14.3.2.7"@.len() != "2.16.840.1.101.3.4.1"@.len());
    assert("1.3.14.3.2.7"@.len() != "2.16.840.1.101.3.4.2.1"@.len());
    assert("1.3.14.3.2.7"@.len() != "2.16.840.1.101.3.4.2.2"@.len());
    assert("1.3.14.3.2.7"@.len() != "2.16.840.1.101.3.4.2.3"@.len());
    assert("1.3.14.3.2.7"@.len() != "1.3.14.3.2.26"@.len());
    assert("1.3.14.3.2.7"@.len() != "1.2.840.113549.2.5"@.len());
    assert("1.3.14.3.2.7"@.len() != "1.2.840.113549.1.1.1"@.len());
    assert("1.3.14.3.2.7"@.len() != "1.2.840.10045.4.3"@.len());
    assert("1.2.840.113549.3.7"@.len() != "2.16.840.1.101.3.4.1"@.len());
    assert("1.2.840.113549.3.7"@.len() != "2.16.840.1.101.3.4.2.1"@.len());
    assert("1.2.840.113549.3.7"@.len() != "2.16.840.1.101.3.4.2.2"@.len());
    assert("1.2.840.113549.3.7"@.len() != "2.16.840.1.101.3.4.2.3"@.len());
    assert("1.2.840.113549.3.7"@.len() != "1.3.14.3.2.26"@.len());
    assert("1.2.840.113549.3.7"@.len() != "1.2.840.113549.1.1.1"@.len());
    assert("1.2.840.113549.3.7"@.len() != "1.2.840.10045.4.3"@.len());
    assert("1.2.840.113549.3.7"@.len() != "1.3.14.3.2.7"@.len());
    assert("1.2.840.113549.2.9"@.len() != "2.16.840.1.101.3.4.1"@.len());
    assert("1.2.840.113549.2.9"@.len() != "2.16.840.1.101.3.4.2.1"@.len());
    assert("1.2.840.113549.2.9"@.len() != "2.16.840.1.101.3.4.2.2"@.len());
    assert("1.2.840.113549.2.9"@.len() != "2.16.840.1.101.3.4.2.3"@.len());
    assert("1.2.840.113549.2.9"@.len() != "1.3.14.3.2.26"@.len());
    assert("1.2.840.113549.2.9"@.len() != "1.2.840.113549.1.1.1"@.len());
    assert("1.2.840.113549.2.9"@.len() != "1.2.840.10045.4.3"@.len());
    assert("1.2.840.113549.2.9"@.len() != "1.3.14.3.2.7"@.len());
    assert("SHA256"@.len() != "AES"@.len());
    assert("SHA-256"@.len() != "AES"@.len());
    assert("SHA-256"@.len() != "SHA256"@.len());
    assert("SHA384"@.len() != "AES"@.len());
    assert("SHA384"@.len() != "SHA-256"@.len());
    assert("SHA-384"@.len() != "AES"@.len());
    assert("SHA-384"@.len() != "SHA256"@.len());
    assert("SHA-384"@.len() != "SHA384"@.len());
    assert("SHA512"@.len() != "AES"@.len());
    assert("SHA512"@.len() != "SHA-256"@.len());
    assert("SHA512"@.len() != "SHA-384"@.len());
    assert("SHA-512"@.len() != "AES"@.len());
    assert("SHA-512"@.len() != "SHA256"@.len());
    assert("SHA-512"@.len() != "SHA384"@.len());
    assert("SHA-512"@.len() != "SHA512"@.len());
    assert("SHA1"@.len() != "AES"@.len());
    assert("SHA1"@.len() != "SHA256"@.len());
    assert("SHA1"@.len() != "SHA-256"@.len());
    assert("SHA1"@.len() != "SHA384"@.len());
    assert("SHA1"@.len() != "SHA-384"@.len());
    assert("SHA1"@.len() != "SHA512"@.len());
    assert("SHA1"@.len() != "SHA-512"@.len());
    assert("SHA-1"@.len() != "AES"@.len());
    assert("SHA-1"@.len() != "SHA256"@.len());
    assert("SHA-1"@.len() != "SHA-256"@.len());
    assert("SHA-1"@.len() != "SHA384"@.len());
    assert("SHA-1"@.len() != "SHA-384"@.len());
    assert("SHA-1"@.len() != "SHA512"@.len());
    assert("SHA-1"@.len() != "SHA-512"@.len());
    assert("SHA-1"@.len() != "SHA1"@.len());
    assert("MD5"@.len() != "SHA256"@.len());
    assert("MD5"@.len() != "SHA-256"@.len());
    assert("MD5"@.len() != "SHA384"@.len());
    assert("MD5"@.len() != "SHA-384"@.len());
    assert("MD5"@.len() != "SHA512"@.len());
    assert("MD5"@.len() != "SHA-512"@.len());
    assert("MD5"@.len() != "SHA1"@.len());
    assert("MD5"@.len() != "SHA-1"@.len());
    assert("RSA"@.len() != "SHA256"@.len());
    assert("RSA"@.len() != "SHA-256"@.len());
    assert("RSA"@.len() != "SHA384"@.len());
    assert("RSA"@.len() != "SHA-384"@.len());
    assert("RSA"@.len() != "SHA512"@.len());
    assert("RSA"@.len() != "SHA-512"@.len());
    assert("RSA"@.len() != "SHA1"@.len());
    assert("RSA"@.len() != "SHA-1"@.len());
    assert("ECDSA"@.len() != "AES"@.len());
    assert("ECDSA"@.len() != "SHA256"@.len());
    assert("ECDSA"@.len() != "SHA-256"@.len());
    assert("ECDSA"@.len() != "SHA384"@.len());
    assert("ECDSA"@.len() != "SHA-384"@.len());
    assert("ECDSA"@.len() != "SHA512"@.len());
    assert("ECDSA"@.len() != "SHA-512"@.len());
    assert("ECDSA"@.len() != "SHA1"@.len());
    assert("ECDSA"@.len() != "MD5"@.len());
    assert("ECDSA"@.len() != "RSA"@.len());
    assert("DES"@.len() != "SHA256"@.len());
    assert("DES"@.len() != "SHA-256"@.len());
    assert("DES"@.len() != "SHA384"@.len());
    assert("DES"@.len() != "SHA-384"@.len());
    assert("DES"@.len() != "SHA512"@.len());
    assert("DES"@.len() != "SHA-512"@.len());
    assert("DES"@.len() != "SHA1"@.len());
    assert("DES"@.len() != "SHA-1"@.len());
    assert("DES"@.len() != "ECDSA"@.len());
    assert("3DES"@.len() != "AES"@.len());
    assert("3DES"@.len() != "SHA256"@.len());
    assert("3DES"@.len() != "SHA-256"@.len());
    assert("3DES"@.len() != "SHA384"@.len());
    assert("3DES"@.len() != "SHA-384"@.len());
    assert("3DES"@.len() != "SHA512"@.len());
    assert("3DES"@.len() != "SHA-512"@.len());
    assert("3DES"@.len() != "SHA-1"@.len());
    assert("3DES"@.len() != "MD5"@.len());
    assert("3DES"@.len() != "RSA"@.len());
    assert("3DES"@.len() != "ECDSA"@.len());
    assert("3DES"@.len() != "DES"@.len());
    assert("TRIPLE-DES"@.len() != "AES"@.len());
    assert("TRIPLE-DES"@.len() != "SHA256"@.len());
    assert("TRIPLE-DES"@.len() != "SHA-256"@.len());
    assert("TRIPLE-DES"@.len() != "SHA384"@.len());
    assert("TRIPLE-DES"@.len() != "SHA-384"@.len());
    assert("TRIPLE-DES"@.len() != "SHA512"@.len());
    assert("TRIPLE-DES"@.len() != "SHA-512"@.len());
    assert("TRIPLE-DES"@.len() != "SHA1"@.len());
    assert("TRIPLE-DES"@.len() != "SHA-1"@.len());
    assert("TRIPLE-DES"@.len() != "MD5"@.len());
    assert("TRIPLE-DES"@.len() != "RSA"@.len());
    assert("TRIPLE-DES"@.len() != "ECDSA"@.len());
    assert("TRIPLE-DES"@.len() != "DES"@.len());
    assert("TRIPLE-DES"@.len() != "3DES"@.len());
    assert("TRIPLEDES"@.len() != "AES"@.len());
    assert("TRIPLEDES"@.len() != "SHA256"@.len());
    assert("TRIPLEDES"@.len() != "SHA-256"@.len());
    assert("TRIPLEDES"@.len() != "SHA384"@.len());
    assert("TRIPLEDES"@.len() != "SHA-384"@.len());
    assert("TRIPLEDES"@.len() != "SHA512"@.len());
    assert("TRIPLEDES"@.len() != "SHA-512"@.len());
    assert("TRIPLEDES"@.len() != "SHA1"@.len());
    assert("TRIPLEDES"@.len() != "SHA-1"@.len());
    assert("TRIPLEDES"@.len() != "MD5"@.len());
    assert("TRIPLEDES"@.len() != "RSA"@.len());
    assert("TRIPLEDES"@.len() != "ECDSA"@.len());
    assert("TRIPLEDES"@.len() != "DES"@.len());
    assert("TRIPLEDES"@.len() != "3DES"@.len());
    assert("TRIPLEDES"@.len() != "TRIPLE-DES"@.len());
    assert("HMAC"@.len() != "AES"@.len());
    assert("HMAC"@.len() != "SHA256"@.len());
    assert("HMAC"@.len() != "SHA-256"@.len());
    assert("HMAC"@.len() != "SHA384"@.len());
    assert("HMAC"@.len() != "SHA-384"@.len());
    assert("HMAC"@.len() != "SHA512"@.len());
    assert("HMAC"@.len() != "SHA-512"@.len());
    assert("HMAC"@.len() != "SHA-1"@.len());
    assert("HMAC"@.len() != "MD5"@.len());
    assert("HMAC"@.len() != "RSA"@.len());
    assert("HMAC"@.len() != "ECDSA"@.len());
    assert("HMAC"@.len() != "DES"@.len());
    assert("HMAC"@.len() != "TRIPLE-DES"@.len());
    assert("HMAC"@.len() != "TRIPLEDES"@.len());
    assert("2.16.840.1.101.3.4.2.2"@[21] != "2.16.840.1.101.3.4.2.1"@[21]);
    assert("2.16.840.1.101.3.4.2.3"@[21] != "2.16.840.1.101.3.4.2.1"@[21]);
    assert("2.16.840.1.101.3.4.2.3"@[21] != "2.16.840.1.101.3.4.2.2"@[21]);
    assert("1.2.840.113549.1.1.1"@[0] != "2.16.840.1.101.3.4.1"@[0]);
    assert("1.2.840.113549.3.7"@[15] != "1.2.840.113549.2.5"@[15]);
    assert("1.2.840.113549.2.9"@[17] != "1.2.840.113549.2.5"@[17]);
    assert("1.2.840.113549.2.9"@[15] != "1.2.840.113549.3.7"@[15]);
    assert("SHA384"@[3] != "SHA256"@[3]);
    assert("SHA-384"@[4] != "SHA-256"@[4]);
    assert("SHA512"@[3] != "SHA256"@[3]);
    assert("SHA512"@[3] != "SHA384"@[3]);
    assert("SHA-512"@[4] != "SHA-256"@[4]);
    assert("SHA-512"@[4] != "SHA-384"@[4]);
    assert("MD5"@[0] != "AES"@[0]);
    assert("RSA"@[0] != "AES"@[0]);
    assert("RSA"@[0] != "MD5"@[0]);
    assert("ECDSA"@[0] != "SHA-1"@[0]);
    assert("DES"@[0] != "AES"@[0]);
    assert("DES"@[0] != "MD5"@[0]);
    assert("DES"@[0] != "RSA"@[0]);
    assert("3DES"@[0] != "SHA1"@[0]);
    assert("HMAC"@[0] != "SHA1"@[0]);
    assert("HMAC"@[0] != "3DES"@[0]);
}

/// Two algorithms that get the same OID are the same algorithm: no OID of
/// the table is given to two families (the OID of `ECDSA` is not that of
/// `RSA`, the OID of `SHA-256` not that of `SHA-512`, ...).
pub proof fn law_oid_names_one_algorithm(a: Seq<char>, b: Seq<char>)
    requires
        oid_of(a) is Some,
        oid_of(a) == oid_of(b),
    ensures
        oid_family(a) == oid_family(b),
{
    lemma_oid_literals_distinct();
}

/// The registration arc under which each algorithm family's OIDs are
/// assigned: NIST's `aes` and `hashAlgs` arcs, the OIW `algorithms` arc
/// (SHA-1, DES), RSADSI's `digestAlgorithm` (MD5, HMAC) and
/// `encryptionAlgorithm` (3DES) arcs, PKCS #1 (RSA) and ANSI X9.62's
/// `signatures` arc (ECDSA).
pub open spec fn oid_arc(family: Seq<char>) -> Option<Seq<char>> {
    if family == "AES"@ {
        Some("2.16.840.1.101.3.4.1"@)
    } else if family == "SHA256"@ || family == "SHA384"@ || family == "SHA512"@ {
        Some("2.16.840.1.101.3.4.2"@)
    } else if family == "SHA1"@ || family == "DES"@ {
        Some("1.3.14.3.2"@)
    } else if family == "MD5"@ || family == "HMAC"@ {
        Some("1.2.840.113549.2"@)
    } else if family == "3DES"@ {
        Some("1.2.840.113549.3"@)
    } else if family == "RSA"@ {
        Some("1.2.840.113549.1.1"@)
    } else if family == "ECDSA"@ {
        Some("1.2.840.10045.4"@)
    } else {
        None
    }
}

/// Each OID of the table lies under the registration arc of its
/// algorithm's family, one level below it: an ECDSA component is labelled
/// with an X9.62 signature OID, an RSA one with a PKCS #1 OID, a SHA-2 one
/// with a NIST hash OID.
pub proof fn law_oid_lies_under_its_arc(a: Seq<char>)
    requires
        oid_of(a) is Some,
    ensures
        oid_arc(oid_family(a)) is Some,
        has_prefix(oid_of(a)->0, oid_arc(oid_family(a))->0 + "."@) || oid_of(a)->0 == oid_arc(oid_family(a))->0,
{
    lemma_oid_literals_distinct();
    reveal_strlit(".");
    reveal_strlit("1.2.840.10045.4");
    reveal_strlit("1.2.840.113549.1.1");
    reveal_strlit("1.2.840.113549.2");
    reveal_strlit("1.2.840.113549.3");
    reveal_strlit("1.3.14.3.2");
    reveal_strlit("2.16.840.1.101.3.4.1");
    reveal_strlit("2.16.840.1.101.3.4.2");
    reveal_strlit("2.16.840.1.101.3.4.2.1");
    reveal_strlit("2.16.840.1.101.3.4.2.2");
    reveal_strlit("2.16.840.1.101.3.4.2.3");
    reveal_strlit("1.3.14.3.2.26");
    reveal_strlit("1.2.840.113549.2.5");
    reveal_strlit("1.2.840.113549.1.1.1");
    reveal_strlit("1.2.840.10045.4.3");
    reveal_strlit("1.3.14.3.2.7");
    reveal_strlit("1.2.840.113549.3.7");
    reveal_strlit("1.2.840.113549.2.9");
    let u = upper(a);
    if u == "AES"@ {
    } else if u == "SHA256"@ || u == "SHA-256"@ {
        assert(("2.16.840.1.101.3.4.2"@ + "."@).len() <= "2.16.840.1.101.3.4.2.1"@.len());
        assert("2.16.840.1.101.3.4.2.1"@.subrange(0, ("2.16.840.1.101.3.4.2"@ + "."@).len() as int) =~= "2.16.840.1.101.3.4.2"@ + "."@);
    } else if u == "SHA384"@ || u == "SHA-384"@ {
        assert(("2.16.840.1.101.3.4.2"@ + "."@).len() <= "2.16.840.1.101.3.4.2.2"@.len());
        assert("2.16.840.1.101.3.4.2.2"@.subrange(0, ("2.16.840.1.101.3.4.2"@ + "."@).len() as int) =~= "2.16.840.1.101.3.4.2"@ + "."@);
    } else if u == "SHA512"@ || u == "SHA-512"@ {
        assert(("2.16.840.1.101.3.4.2"@ + "."@).len() <= "2.16.840.1.101.3.4.2.3"@.len());
        assert("2.16.840.1.101.3.4.2.3"@.subrange(0, ("2.16.840.1.101.3.4.2"@ + "."@).len() as int) =~= "2.16.840.1.101.3.4.2"@ + "."@);
    } else if u == "SHA1"@ || u == "SHA-1"@ {
        assert(("1.3.14.3.2"@ + "."@).len() <= "1.3.14.3.2.26"@.len());
        assert("1.3.14.3.2.26"@.subrange(0, ("1.3.14.3.2"@ + "."@).len() as int) =~= "1.3.14.3.2"@ + "."@);
    } else if u == "MD5"@ {
        assert(("1.2.840.113549.2"@ + "."@).len() <= "1.2.840.113549.2.5"@.len());
        assert("1.2.840.113549.2.5"@.subrange(0, ("1.2.840.113549.2"@ + "."@).len() as int) =~= "1.2.840.113549.2"@ + "."@);
    } else if u == "RSA"@ {
        assert(("1.2.840.113549.1.1"@ + "."@).len() <= "1.2.840.113549.1.1.1"@.len());
        assert("1.2.840.113549.1.1.1"@.subrange(0, ("1.2.840.113549.1.1"@ + "."@).len() as int) =~= "1.2.840.113549.1.1"@ + "."@);
    } else if u == "ECDSA"@ {
        assert(("1.2.840.10045.4"@ + "."@).len() <= "1.2.840.10045.4.3"@.len());
        assert("1.2.840.10045.4.3"@.subrange(0, ("1.2.840.10045.4"@ + "."@).len() as int) =~= "1.2.840.10045.4"@ + "."@);
    } else if u == "DES"@ {
        assert(("1.3.14.3.2"@ + "."@).len() <= "1.3.14.3.2.7"@.len());
        assert("1.3.14.3.2.7"@.subrange(0, ("1.3.14.3.2"@ + "."@).len() as int) =~= "1.3.14.3.2"@ + "."@);
    } else if u == "3DES"@ || u == "TRIPLE-DES"@ || u == "TRIPLEDES"@ {
        assert(("1.2.840.113549.3"@ + "."@).len() <= "1.2.840.113549.3.7"@.len());
        assert("1.2.840.113549.3.7"@.subrange(0, ("1.2.840.113549.3"@ + "."@).len() as int) =~= "1.2.840.113549.3"@ + "."@);
    } else if u == "HMAC"@ {
        assert(("1.2.840.113549.2"@ + "."@).len() <= "1.2.840.113549.2.9"@.len());
        assert("1.2.840.113549.2.9"@.subrange(0, ("1.2.840.113549.2"@ + "."@).len() as int) =~= "1.2.840.113549.2"@ + "."@);
    }
}

} // verus!
