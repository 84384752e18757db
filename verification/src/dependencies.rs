//! Dependency scanner: parses lockfiles to detect cryptographic libraries
//! introduced through third-party dependencies.

use vstd::prelude::*;

use crate::json::{entries_view, entry_view, json_entries, json_object_entries, opt_views, strs};
use crate::models::{opt_view, owned, views, CryptoAsset, DetectionSource, QuantumSafe, Severity};
use crate::text::{
    join, join_exec,
    contains_seq, copy_range, seqs,
    chars_of, first_word, first_word_of, has_prefix,
    has_sub, in_class_exec, is, lines, lines_of, lower, lower_chars, push_all, push_str,
    replace_char, replace_char_exec, same, split_by, split_lit, starts_with, strip, strip_end,
    strip_chars, strip_end_lit, strip_lit, strip_prefix_all, strip_prefix_all_lit, string_of, trim,
    trim_chars, upper, upper_chars,
};

verus! {

// ---------------------------------------------------------------------------
// Known crypto-heavy libraries
// ---------------------------------------------------------------------------

/// A table of package names and descriptions, as characters.
pub open spec fn table_view(t: Seq<(&'static str, &'static str)>) -> Seq<(Seq<char>, Seq<char>)> {
    t.map_values(|p: (&'static str, &'static str)| (p.0@, p.1@))
}

/// Python packages known to use or provide cryptographic functionality.
pub open spec fn python_table() -> Seq<(Seq<char>, Seq<char>)> {
    seq![
        ("cryptography"@, "General-purpose cryptographic library (hazmat primitives, X.509, etc.)"@),
        ("pycryptodome"@, "PyCryptodome: AES, RSA, DES, hashing, and more"@),
        ("pycryptodomex"@, "PyCryptodome (alternative namespace)"@),
        ("pynacl"@, "Python binding to libsodium (Curve25519, Ed25519, ChaCha20)"@),
        ("pyopenssl"@, "Python wrapper around OpenSSL (TLS, X.509)"@),
        ("pyjwt"@, "JSON Web Token library (HMAC, RSA, ECDSA signing)"@),
        ("python-jose"@, "JavaScript Object Signing and Encryption for Python"@),
        ("jwcrypto"@, "JWK, JWS, JWE implementations"@),
        ("paramiko"@, "SSH2 protocol library (RSA, ECDSA, AES, ChaCha20)"@),
        ("bcrypt"@, "bcrypt password hashing"@),
        ("passlib"@, "Password hashing framework (bcrypt, scrypt, argon2, etc.)"@),
        ("argon2-cffi"@, "Argon2 password hashing"@),
        ("itsdangerous"@, "Data signing with HMAC (Flask sessions, etc.)"@),
        ("certifi"@, "Mozilla CA certificate bundle"@),
        ("pysftp"@, "SFTP client built on paramiko (SSH/crypto)"@),
        ("fabric"@, "SSH-based remote execution (uses paramiko)"@),
        ("scrypt"@, "scrypt key derivation function"@),
        ("tls"@, "TLS protocol library"@),
        ("requests"@, "HTTP library (uses TLS via urllib3/OpenSSL)"@),
        ("urllib3"@, "HTTP client with TLS support"@),
        ("hashlib"@, "Standard library hashing (MD5, SHA, BLAKE2)"@),
        ("hmac"@, "Standard library HMAC"@),
        ("ssl"@, "Standard library TLS/SSL"@),
        ("gnupg"@, "GnuPG/GPG interface"@),
        ("pgpy"@, "OpenPGP implementation"@),
    ]
}

/// The Python package table.
pub fn python_crypto_packages() -> (t: Vec<(&'static str, &'static str)>)
    ensures
        table_view(t@) == python_table(),
{
    let mut t: Vec<(&'static str, &'static str)> = Vec::new();
    t.push(("cryptography", "General-purpose cryptographic library (hazmat primitives, X.509, etc.)"));
    t.push(("pycryptodome", "PyCryptodome: AES, RSA, DES, hashing, and more"));
    t.push(("pycryptodomex", "PyCryptodome (alternative namespace)"));
    t.push(("pynacl", "Python binding to libsodium (Curve25519, Ed25519, ChaCha20)"));
    t.push(("pyopenssl", "Python wrapper around OpenSSL (TLS, X.509)"));
    t.push(("pyjwt", "JSON Web Token library (HMAC, RSA, ECDSA signing)"));
    t.push(("python-jose", "JavaScript Object Signing and Encryption for Python"));
    t.push(("jwcrypto", "JWK, JWS, JWE implementations"));
    t.push(("paramiko", "SSH2 protocol library (RSA, ECDSA, AES, ChaCha20)"));
    t.push(("bcrypt", "bcrypt password hashing"));
    t.push(("passlib", "Password hashing framework (bcrypt, scrypt, argon2, etc.)"));
    t.push(("argon2-cffi", "Argon2 password hashing"));
    t.push(("itsdangerous", "Data signing with HMAC (Flask sessions, etc.)"));
    t.push(("certifi", "Mozilla CA certificate bundle"));
    t.push(("pysftp", "SFTP client built on paramiko (SSH/crypto)"));
    t.push(("fabric", "SSH-based remote execution (uses paramiko)"));
    t.push(("scrypt", "scrypt key derivation function"));
    t.push(("tls", "TLS protocol library"));
    t.push(("requests", "HTTP library (uses TLS via urllib3/OpenSSL)"));
    t.push(("urllib3", "HTTP client with TLS support"));
    t.push(("hashlib", "Standard library hashing (MD5, SHA, BLAKE2)"));
    t.push(("hmac", "Standard library HMAC"));
    t.push(("ssl", "Standard library TLS/SSL"));
    t.push(("gnupg", "GnuPG/GPG interface"));
    t.push(("pgpy", "OpenPGP implementation"));
    assert(table_view(t@) =~= python_table());
    t
}

/// Node.js packages known to use or provide cryptographic functionality.
pub open spec fn npm_table() -> Seq<(Seq<char>, Seq<char>)> {
    seq![
        ("jsonwebtoken"@, "JWT signing/verification (HMAC, RSA, ECDSA)"@),
        ("bcrypt"@, "bcrypt password hashing"@),
        ("bcryptjs"@, "Pure-JS bcrypt implementation"@),
        ("crypto-js"@, "JavaScript cryptographic library (AES, DES, SHA, HMAC)"@),
        ("node-forge"@, "TLS, PKI, X.509, AES, DES, RSA, and more"@),
        ("tweetnacl"@, "TweetNaCl.js (Curve25519, Ed25519, XSalsa20)"@),
        ("libsodium-wrappers"@, "libsodium bindings for JS"@),
        ("sodium-native"@, "Native libsodium bindings"@),
        ("jose"@, "JOSE (JWS, JWE, JWT, JWK) library"@),
        ("passport-jwt"@, "Passport.js JWT authentication strategy"@),
        ("helmet"@, "Express security headers (HSTS, CSP)"@),
        ("express-session"@, "Session management (may use crypto for session IDs)"@),
        ("cookie-signature"@, "Cookie signing with HMAC"@),
        ("ssh2"@, "SSH2 client/server (RSA, ECDSA, AES, ChaCha20)"@),
        ("tls"@, "Node.js TLS module"@),
        ("https"@, "Node.js HTTPS module"@),
        ("argon2"@, "Argon2 password hashing"@),
        ("scrypt-js"@, "scrypt key derivation"@),
        ("openpgp"@, "OpenPGP.js (RSA, ECC, AES, compression)"@),
        ("elliptic"@, "Elliptic curve cryptography (secp256k1, P-256, etc.)"@),
        ("ethereumjs-util"@, "Ethereum utilities (secp256k1, keccak)"@),
        ("web3"@, "Ethereum Web3.js (signing, hashing)"@),
        ("ethers"@, "Ethereum library (signing, keccak, AES)"@),
    ]
}

/// The npm package table.
pub fn npm_crypto_packages() -> (t: Vec<(&'static str, &'static str)>)
    ensures
        table_view(t@) == npm_table(),
{
    let mut t: Vec<(&'static str, &'static str)> = Vec::new();
    t.push(("jsonwebtoken", "JWT signing/verification (HMAC, RSA, ECDSA)"));
    t.push(("bcrypt", "bcrypt password hashing"));
    t.push(("bcryptjs", "Pure-JS bcrypt implementation"));
    t.push(("crypto-js", "JavaScript cryptographic library (AES, DES, SHA, HMAC)"));
    t.push(("node-forge", "TLS, PKI, X.509, AES, DES, RSA, and more"));
    t.push(("tweetnacl", "TweetNaCl.js (Curve25519, Ed25519, XSalsa20)"));
    t.push(("libsodium-wrappers", "libsodium bindings for JS"));
    t.push(("sodium-native", "Native libsodium bindings"));
    t.push(("jose", "JOSE (JWS, JWE, JWT, JWK) library"));
    t.push(("passport-jwt", "Passport.js JWT authentication strategy"));
    t.push(("helmet", "Express security headers (HSTS, CSP)"));
    t.push(("express-session", "Session management (may use crypto for session IDs)"));
    t.push(("cookie-signature", "Cookie signing with HMAC"));
    t.push(("ssh2", "SSH2 client/server (RSA, ECDSA, AES, ChaCha20)"));
    t.push(("tls", "Node.js TLS module"));
    t.push(("https", "Node.js HTTPS module"));
    t.push(("argon2", "Argon2 password hashing"));
    t.push(("scrypt-js", "scrypt key derivation"));
    t.push(("openpgp", "OpenPGP.js (RSA, ECC, AES, compression)"));
    t.push(("elliptic", "Elliptic curve cryptography (secp256k1, P-256, etc.)"));
    t.push(("ethereumjs-util", "Ethereum utilities (secp256k1, keccak)"));
    t.push(("web3", "Ethereum Web3.js (signing, hashing)"));
    t.push(("ethers", "Ethereum library (signing, keccak, AES)"));
    assert(table_view(t@) =~= npm_table());
    t
}

/// Rust crates known to use or provide cryptographic functionality.
pub open spec fn cargo_table() -> Seq<(Seq<char>, Seq<char>)> {
    seq![
        ("rustls"@, "TLS library in pure Rust"@),
        ("ring"@, "Cryptographic primitives (AES, SHA, RSA, ECDSA, Ed25519)"@),
        ("openssl"@, "OpenSSL bindings for Rust"@),
        ("openssl-sys"@, "Raw OpenSSL FFI bindings"@),
        ("native-tls"@, "Platform TLS abstraction"@),
        ("aes"@, "AES block cipher"@),
        ("aes-gcm"@, "AES-GCM authenticated encryption"@),
        ("chacha20poly1305"@, "ChaCha20-Poly1305 AEAD"@),
        ("sha2"@, "SHA-2 hash functions"@),
        ("sha3"@, "SHA-3 / Keccak hash functions"@),
        ("blake2"@, "BLAKE2 hash function"@),
        ("blake3"@, "BLAKE3 hash function"@),
        ("md-5"@, "MD5 hash function"@),
        ("hmac"@, "HMAC message authentication"@),
        ("rsa"@, "RSA encryption/signing"@),
        ("ed25519-dalek"@, "Ed25519 signing"@),
        ("x25519-dalek"@, "X25519 Diffie-Hellman"@),
        ("curve25519-dalek"@, "Curve25519 elliptic curve"@),
        ("p256"@, "NIST P-256 elliptic curve"@),
        ("p384"@, "NIST P-384 elliptic curve"@),
        ("k256"@, "secp256k1 elliptic curve"@),
        ("ecdsa"@, "ECDSA signature algorithm"@),
        ("jsonwebtoken"@, "JWT encoding/decoding"@),
        ("argon2"@, "Argon2 password hashing"@),
        ("bcrypt"@, "bcrypt password hashing"@),
        ("scrypt"@, "scrypt key derivation"@),
        ("pbkdf2"@, "PBKDF2 key derivation"@),
        ("hkdf"@, "HKDF key derivation"@),
        ("digest"@, "Cryptographic digest traits"@),
        ("cipher"@, "Symmetric cipher traits"@),
        ("pqcrypto"@, "Post-quantum cryptography"@),
        ("kyber"@, "CRYSTALS-Kyber key encapsulation"@),
        ("dilithium"@, "CRYSTALS-Dilithium signatures"@),
        ("snow"@, "Noise protocol framework"@),
        ("sodiumoxide"@, "libsodium bindings for Rust"@),
        ("sequoia-openpgp"@, "OpenPGP implementation"@),
    ]
}

/// The Cargo crate table.
pub fn cargo_crypto_packages() -> (t: Vec<(&'static str, &'static str)>)
    ensures
        table_view(t@) == cargo_table(),
{
    let mut t: Vec<(&'static str, &'static str)> = Vec::new();
    t.push(("rustls", "TLS library in pure Rust"));
    t.push(("ring", "Cryptographic primitives (AES, SHA, RSA, ECDSA, Ed25519)"));
    t.push(("openssl", "OpenSSL bindings for Rust"));
    t.push(("openssl-sys", "Raw OpenSSL FFI bindings"));
    t.push(("native-tls", "Platform TLS abstraction"));
    t.push(("aes", "AES block cipher"));
    t.push(("aes-gcm", "AES-GCM authenticated encryption"));
    t.push(("chacha20poly1305", "ChaCha20-Poly1305 AEAD"));
    t.push(("sha2", "SHA-2 hash functions"));
    t.push(("sha3", "SHA-3 / Keccak hash functions"));
    t.push(("blake2", "BLAKE2 hash function"));
    t.push(("blake3", "BLAKE3 hash function"));
    t.push(("md-5", "MD5 hash function"));
    t.push(("hmac", "HMAC message authentication"));
    t.push(("rsa", "RSA encryption/signing"));
    t.push(("ed25519-dalek", "Ed25519 signing"));
    t.push(("x25519-dalek", "X25519 Diffie-Hellman"));
    t.push(("curve25519-dalek", "Curve25519 elliptic curve"));
    t.push(("p256", "NIST P-256 elliptic curve"));
    t.push(("p384", "NIST P-384 elliptic curve"));
    t.push(("k256", "secp256k1 elliptic curve"));
    t.push(("ecdsa", "ECDSA signature algorithm"));
    t.push(("jsonwebtoken", "JWT encoding/decoding"));
    t.push(("argon2", "Argon2 password hashing"));
    t.push(("bcrypt", "bcrypt password hashing"));
    t.push(("scrypt", "scrypt key derivation"));
    t.push(("pbkdf2", "PBKDF2 key derivation"));
    t.push(("hkdf", "HKDF key derivation"));
    t.push(("digest", "Cryptographic digest traits"));
    t.push(("cipher", "Symmetric cipher traits"));
    t.push(("pqcrypto", "Post-quantum cryptography"));
    t.push(("kyber", "CRYSTALS-Kyber key encapsulation"));
    t.push(("dilithium", "CRYSTALS-Dilithium signatures"));
    t.push(("snow", "Noise protocol framework"));
    t.push(("sodiumoxide", "libsodium bindings for Rust"));
    t.push(("sequoia-openpgp", "OpenPGP implementation"));
    assert(table_view(t@) =~= cargo_table());
    t
}

} // verus!

verus! {

// ---------------------------------------------------------------------------
// Dependency findings
// ---------------------------------------------------------------------------

/// What a dependency finding records: the package, the line (0 when the
/// lockfile gives none), the package description and the dependency path.
pub struct DepRecord {
    pub name: Seq<char>,
    pub line: nat,
    pub description: Seq<char>,
    pub path: Option<Seq<char>>,
}

/// `a` is the dependency finding `r` of the lockfile `file`.
pub open spec fn is_dependency_asset(a: CryptoAsset, file: Seq<char>, r: DepRecord) -> bool {
    &&& a.algorithm@ == "DEPENDENCY:"@ + upper(r.name)
    &&& a.file_path@ == file
    &&& a.line_number == r.line
    &&& a.library_source@ == r.name
    &&& a.key_size is None
    &&& a.mode is None
    &&& a.padding is None
    &&& a.curve is None
    &&& a.quantum_safe == QuantumSafe::Unknown
    &&& a.severity == Severity::Unknown
    &&& a.detection_source == DetectionSource::Dependency
    &&& views(a.findings@) == seq![r.description]
    &&& a.cert_subject is None
    &&& a.cert_issuer is None
    &&& a.cert_expiry is None
    &&& a.cert_serial is None
    &&& a.protocol_version is None
    &&& a.cipher_suites@.len() == 0
    &&& opt_view(a.dependency_path) == r.path
    &&& a.remediation is None
}

/// `after` is `before` followed by the dependency findings `recs` of `file`.
pub open spec fn appends(
    before: Seq<CryptoAsset>,
    after: Seq<CryptoAsset>,
    file: Seq<char>,
    recs: Seq<DepRecord>,
) -> bool {
    &&& after.len() == before.len() + recs.len()
    &&& after.subrange(0, before.len() as int) == before
    &&& forall|i: int|
        0 <= i < recs.len() ==> is_dependency_asset(
            #[trigger] after[before.len() + i],
            file,
            recs[i],
        )
}

/// Appending nothing keeps the findings.
pub proof fn lemma_appends_nothing(s: Seq<CryptoAsset>, file: Seq<char>)
    ensures
        appends(s, s, file, Seq::empty()),
{
    assert(s.subrange(0, s.len() as int) =~= s);
}

/// Appending in two steps.
pub proof fn lemma_appends_trans(
    a: Seq<CryptoAsset>,
    b: Seq<CryptoAsset>,
    c: Seq<CryptoAsset>,
    file: Seq<char>,
    r1: Seq<DepRecord>,
    r2: Seq<DepRecord>,
)
    requires
        appends(a, b, file, r1),
        appends(b, c, file, r2),
    ensures
        appends(a, c, file, r1 + r2),
{
    assert(c.subrange(0, a.len() as int) =~= b.subrange(0, a.len() as int));
    assert forall|i: int| 0 <= i < (r1 + r2).len() implies is_dependency_asset(
        #[trigger] c[a.len() + i],
        file,
        (r1 + r2)[i],
    ) by {
        if i < r1.len() {
            assert(c[a.len() + i] == b[a.len() + i]);
        } else {
            assert(c[a.len() + i] == c[b.len() + (i - r1.len())]);
        }
    }
}

/// Builds the dependency finding `name` (described by `description`) of
/// the lockfile `file_path`.
pub fn dependency_asset(
    name: &[char],
    file_path: &str,
    line: usize,
    description: &str,
    path: Option<String>,
) -> (a: CryptoAsset)
    ensures
        is_dependency_asset(
            a,
            file_path@,
            DepRecord {
                name: name@,
                line: line as nat,
                description: description@,
                path: opt_view(path),
            },
        ),
{
    let up = upper_chars(name);
    let mut algo: Vec<char> = Vec::new();
    push_str(&mut algo, "DEPENDENCY:");
    push_all(&mut algo, &up);
    let mut asset = CryptoAsset::new(string_of(&algo), owned(file_path), line, string_of(name));
    asset.detection_source = DetectionSource::Dependency;
    asset.findings.push(owned(description));
    assert(views(asset.findings@) =~= seq![description@]);
    asset.dependency_path = path;
    asset
}

/// Pushes one dependency finding.
fn push_dependency(
    findings: &mut Vec<CryptoAsset>,
    name: &[char],
    file_path: &str,
    line: usize,
    description: &str,
    path: Option<String>,
)
    ensures
        appends(
            old(findings)@,
            final(findings)@,
            file_path@,
            seq![DepRecord { name: name@, line: line as nat, description: description@, path: opt_view(path) }],
        ),
{
    let a = dependency_asset(name, file_path, line, description, path);
    findings.push(a);
    assert(findings@.subrange(0, old(findings)@.len() as int) =~= old(findings)@);
}

// ---------------------------------------------------------------------------
// Package tables lookups
// ---------------------------------------------------------------------------

/// How a package name is compared with the names of a table.
#[derive(Clone, Copy, PartialEq, Eq, Structural)]
pub enum NameRule {
    /// Exact equality.
    Exact,
    /// Equality after lower-casing and replacing `-` by `_` (PEP 503).
    Normalized,
}

/// PEP 503 normalisation: lower-case, hyphens as underscores.
pub open spec fn normalized(s: Seq<char>) -> Seq<char> {
    replace_char(lower(s), '-', '_')
}

/// A table name matches a package name under a rule.
pub open spec fn name_matches(entry: Seq<char>, name: Seq<char>, rule: NameRule) -> bool {
    match rule {
        NameRule::Exact => entry == name,
        NameRule::Normalized => normalized(entry) == normalized(name),
    }
}

/// The first entry at or after `i` of the table whose name matches.
pub open spec fn table_find_from(
    t: Seq<(Seq<char>, Seq<char>)>,
    name: Seq<char>,
    rule: NameRule,
    i: int,
) -> Option<int>
    decreases t.len() - i,
{
    if i < 0 || i >= t.len() {
        None
    } else if name_matches(t[i].0, name, rule) {
        Some(i)
    } else {
        table_find_from(t, name, rule, i + 1)
    }
}

/// The description of the first entry of the table whose name matches.
pub open spec fn table_lookup(t: Seq<(Seq<char>, Seq<char>)>, name: Seq<char>, rule: NameRule) -> Option<
    Seq<char>,
> {
    match table_find_from(t, name, rule, 0) {
        Some(i) => Some(t[i].1),
        None => None,
    }
}

/// Whether a table name matches a package name.
pub fn name_matches_exec(entry: &str, name: &[char], rule: NameRule) -> (r: bool)
    ensures
        r == name_matches(entry@, name@, rule),
{
    let e = chars_of(entry);
    match rule {
        NameRule::Exact => same(&e, name),
        NameRule::Normalized => {
            let le = lower_chars(&e);
            let ln = lower_chars(name);
            let ne = replace_char_exec(&le, '-', '_');
            let nn = replace_char_exec(&ln, '-', '_');
            same(&ne, &nn)
        },
    }
}

/// The description of the first table entry whose name matches.
pub fn table_lookup_exec(t: &Vec<(&'static str, &'static str)>, name: &[char], rule: NameRule) -> (r:
    Option<&'static str>)
    ensures
        r matches Some(d) ==> table_lookup(table_view(t@), name@, rule) == Some(d@),
        r is None ==> table_lookup(table_view(t@), name@, rule) is None,
{
    let ghost tv = table_view(t@);
    let mut i: usize = 0;
    while i < t.len()
        invariant
            i <= t@.len(),
            tv == table_view(t@),
            table_find_from(tv, name@, rule, 0) == table_find_from(tv, name@, rule, i as int),
        decreases t.len() - i,
    {
        if name_matches_exec(t[i].0, name, rule) {
            return Some(t[i].1);
        }
        i = i + 1;
    }
    None
}

// ---------------------------------------------------------------------------
// requirements.txt
// ---------------------------------------------------------------------------

/// The package name of a `requirements.txt` line: comments and environment
/// markers dropped, the part before any version specifier or extra,
/// normalised (PEP 503).
pub open spec fn python_package_name(line: Seq<char>) -> Seq<char> {
    let l1 = trim(split_by(line, seq!['#'])[0]);
    let l2 = trim(split_by(l1, seq![';'])[0]);
    let name = trim(split_by(l2, seq!['=', '>', '<', '!', '~', '['])[0]);
    normalized(name)
}

/// Extract the package name from a `requirements.txt` line: handles
/// `cryptography==41.0.0`, `requests>=2.28`, `bcrypt`, `package[extra]`.
pub fn extract_python_package_name(line: &str) -> (r: String)
    ensures
        r@ == python_package_name(line@),
{
    let l = chars_of(line);
    let p1 = split_lit(&l, "#");
    proof {
        crate::text::lemma_split_nonempty(l@, "#"@);
        reveal_strlit("#");
        assert("#"@ =~= seq!['#']);
    }
    let l1 = trim_chars(&p1[0]);
    let p2 = split_lit(&l1, ";");
    proof {
        crate::text::lemma_split_nonempty(l1@, ";"@);
        reveal_strlit(";");
        assert(";"@ =~= seq![';']);
    }
    let l2 = trim_chars(&p2[0]);
    let p3 = split_lit(&l2, "=><!~[");
    proof {
        crate::text::lemma_split_nonempty(l2@, "=><!~["@);
        reveal_strlit("=><!~[");
        assert("=><!~["@ =~= seq!['=', '>', '<', '!', '~', '[']);
    }
    let name = trim_chars(&p3[0]);
    // Normalize: PEP 503 says hyphens and underscores are equivalent
    let low = lower_chars(&name);
    let n = replace_char_exec(&low, '-', '_');
    string_of(&n)
}

/// The PEP 440 version comparison operators.
pub open spec fn pep440_operators() -> Seq<Seq<char>> {
    seq!["=="@, ">="@, "<="@, "<"@, ">"@, "!="@, "~="@, "==="@]
}

/// A character that can stand in a requirement's distribution name: no
/// white space, comment, marker, comparison or extras character.
pub open spec fn plain_name_char(c: char) -> bool {
    !crate::text::is_ws(c) && c != '#' && c != ';' && c != '=' && c != '>' && c != '<'
        && c != '!' && c != '~' && c != '['
}

/// Every character of a version operator is a comparison character.
proof fn lemma_operator_chars(op: Seq<char>)
    requires
        pep440_operators().contains(op),
    ensures
        op.len() > 0,
        forall|j: int| 0 <= j < op.len() ==> #[trigger] op[j] == '=' || op[j] == '>' || op[j] == '<'
            || op[j] == '!' || op[j] == '~',
{
    reveal_strlit("==");
    reveal_strlit(">=");
    reveal_strlit("<=");
    reveal_strlit("<");
    reveal_strlit(">");
    reveal_strlit("!=");
    reveal_strlit("~=");
    reveal_strlit("===");
    let k = choose|k: int| 0 <= k < pep440_operators().len() && pep440_operators()[k] == op;
    assert(pep440_operators()[k] == op);
}

/// A requirement written as a name, a PEP 440 operator and a version names
/// the package by its name alone: `cryptography~=41.0`, `bcrypt>=4`,
/// `pyOpenSSL===23.2.0` give the normalised name, never one that ends in
/// part of the operator.
pub proof fn law_requirement_name_stops_at_operator(name: Seq<char>, op: Seq<char>, version: Seq<char>)
    requires
        forall|i: int| 0 <= i < name.len() ==> plain_name_char(#[trigger] name[i]),
        pep440_operators().contains(op),
        forall|i: int| 0 <= i < version.len() ==> #[trigger] version[i] != '#' && version[i] != ';',
    ensures
        python_package_name(name + op + version) == normalized(name),
{
    lemma_operator_chars(op);
    let a = name + op;
    let s = a + version;
    assert(name + op + version == s);
    assert forall|i: int| 0 <= i < a.len() implies #[trigger] a[i] != '#' && a[i] != ';' && !crate::text::is_ws(a[i]) by {
        if i < name.len() {
            assert(a[i] == name[i]);
        } else {
            assert(a[i] == op[i - name.len()]);
        }
    }
    assert(a[0] == name[0] || a[0] == op[0]);
    assert(a.last() == a[a.len() - 1]);
    // comments: none, so the first piece is the whole line
    assert forall|i: int| 0 <= i < s.len() implies !seq!['#'].contains(#[trigger] s[i]) by {
        if i < a.len() {
            assert(s[i] == a[i]);
        } else {
            assert(s[i] == version[i - a.len()]);
        }
    }
    crate::text::lemma_split_whole(s, seq!['#']);
    crate::text::lemma_trim_after_head(a, version);
    let v1 = strip_end(version, Seq::empty(), true);
    crate::text::lemma_strip_end_prefix(version, Seq::empty(), true);
    let l1 = a + v1;
    assert(trim(split_by(s, seq!['#'])[0]) == l1);
    // markers: none either
    assert forall|i: int| 0 <= i < l1.len() implies !seq![';'].contains(#[trigger] l1[i]) by {
        if i < a.len() {
            assert(l1[i] == a[i]);
        } else {
            assert(l1[i] == v1[i - a.len()]);
            assert(v1[i - a.len()] == version[i - a.len()]);
        }
    }
    crate::text::lemma_split_whole(l1, seq![';']);
    crate::text::lemma_trim_after_head(a, v1);
    let v2 = strip_end(v1, Seq::empty(), true);
    let l2 = a + v2;
    assert(trim(split_by(l1, seq![';'])[0]) == l2);
    // the name ends where the operator begins
    let spec_chars = seq!['=', '>', '<', '!', '~', '['];
    assert(l2 == name + (op + v2));
    assert((op + v2)[0] == op[0]);
    assert(spec_chars.contains(op[0])) by {
        if op[0] == '=' {
            assert(spec_chars[0] == op[0]);
        } else if op[0] == '>' {
            assert(spec_chars[1] == op[0]);
        } else if op[0] == '<' {
            assert(spec_chars[2] == op[0]);
        } else if op[0] == '!' {
            assert(spec_chars[3] == op[0]);
        } else {
            assert(spec_chars[4] == op[0]);
        }
    }
    assert forall|i: int| 0 <= i < name.len() implies !spec_chars.contains(#[trigger] name[i]) by {
        assert(plain_name_char(name[i]));
    }
    crate::text::lemma_split_first_piece(name, op + v2, spec_chars);
    // and a name holds no white space to trim
    if name.len() > 0 {
        assert(plain_name_char(name[0]));
        assert(plain_name_char(name[name.len() - 1]));
        assert(!Seq::<char>::empty().contains(name[0]));
        assert(!Seq::<char>::empty().contains(name.last()));
    }
    assert(trim(name) == name);
}

/// The finding a `requirements.txt` line gives, numbered `n` (1-indexed).
pub open spec fn requirement_record(line: Seq<char>, n: nat) -> Seq<DepRecord> {
    let t = trim(line);
    if t.len() == 0 || has_prefix(t, "#"@) || has_prefix(t, "-"@) {
        Seq::empty()
    } else {
        let pkg = python_package_name(t);
        match table_lookup(python_table(), pkg, NameRule::Normalized) {
            Some(d) => seq![DepRecord { name: pkg, line: n, description: d, path: None }],
            None => Seq::empty(),
        }
    }
}

/// The findings of the given `requirements.txt` lines.
pub open spec fn requirement_records(ls: Seq<Seq<char>>) -> Seq<DepRecord>
    decreases ls.len(),
{
    if ls.len() == 0 {
        Seq::empty()
    } else {
        requirement_records(ls.drop_last()) + requirement_record(ls.last(), ls.len())
    }
}

/// Parse `requirements.txt` for known crypto packages.
pub fn parse_requirements(contents: &str, file_path: &str, findings: &mut Vec<CryptoAsset>)
    ensures
        appends(old(findings)@, final(findings)@, file_path@, requirement_records(lines(contents@))),
{
    let table = python_crypto_packages();
    let text = chars_of(contents);
    let ls = lines_of(&text);
    let ghost lsv = lines(contents@);
    proof {
        lemma_appends_nothing(findings@, file_path@);
    }
    let mut i: usize = 0;
    while i < ls.len()
        invariant
            i <= ls@.len(),
            ls@.len() == lsv.len(),
            forall|k: int| 0 <= k < ls@.len() ==> #[trigger] ls@[k]@ == lsv[k],
            table_view(table@) == python_table(),
            appends(
                old(findings)@,
                findings@,
                file_path@,
                requirement_records(lsv.subrange(0, i as int)),
            ),
        decreases ls.len() - i,
    {
        let ghost before = findings@;
        assert(lsv.subrange(0, i + 1).drop_last() =~= lsv.subrange(0, i as int));
        let line = trim_chars(&ls[i]);
        if line.len() == 0 || starts_with(&line, "#") || starts_with(&line, "-") {
            proof {
                lemma_appends_nothing(findings@, file_path@);
                lemma_appends_trans(
                    old(findings)@,
                    before,
                    findings@,
                    file_path@,
                    requirement_records(lsv.subrange(0, i as int)),
                    Seq::empty(),
                );
                assert(requirement_records(lsv.subrange(0, i + 1)) =~= requirement_records(
                    lsv.subrange(0, i as int),
                ) + Seq::empty());
            }
        } else {
            let line_s = string_of(&line);
            let pkg_s = extract_python_package_name(line_s.as_str());
            let pkg = chars_of(pkg_s.as_str());
            match table_lookup_exec(&table, &pkg, NameRule::Normalized) {
                Some(description) => {
                    push_dependency(findings, &pkg, file_path, i + 1, description, None);
                    proof {
                        lemma_appends_trans(
                            old(findings)@,
                            before,
                            findings@,
                            file_path@,
                            requirement_records(lsv.subrange(0, i as int)),
                            requirement_record(lsv[i as int], (i + 1) as nat),
                        );
                    }
                },
                None => {
                    proof {
                        lemma_appends_nothing(findings@, file_path@);
                        lemma_appends_trans(
                            old(findings)@,
                            before,
                            findings@,
                            file_path@,
                            requirement_records(lsv.subrange(0, i as int)),
                            Seq::empty(),
                        );
                        assert(requirement_records(lsv.subrange(0, i + 1)) =~= requirement_records(
                            lsv.subrange(0, i as int),
                        ) + Seq::empty());
                    }
                },
            }
        }
        i = i + 1;
    }
    assert(lsv.subrange(0, lsv.len() as int) =~= lsv);
}

} // verus!

verus! {

// ---------------------------------------------------------------------------
// npm packages
// ---------------------------------------------------------------------------

/// Some finding already names the package `pkg` in the lockfile `file`.
pub open spec fn already_found(fs: Seq<CryptoAsset>, pkg: Seq<char>, file: Seq<char>) -> bool {
    exists|i: int| 0 <= i < fs.len() && (#[trigger] fs[i]).library_source@ == pkg && fs[i].file_path@ == file
}

/// No two findings name the same package in the same lockfile.
pub open spec fn packages_unique(fs: Seq<CryptoAsset>) -> bool {
    forall|i: int, j: int|
        0 <= i < j < fs.len() ==> !((#[trigger] fs[i]).library_source@ == (#[trigger] fs[j]).library_source@
            && fs[i].file_path@ == fs[j].file_path@)
}

/// Recording an npm package never reports a package twice for one
/// lockfile: findings without repeats stay without repeats.
pub proof fn law_npm_packages_are_reported_once(
    fs: Seq<CryptoAsset>,
    after: Seq<CryptoAsset>,
    pkg: Seq<char>,
    file: Seq<char>,
    path: Option<Seq<char>>,
)
    requires
        packages_unique(fs),
        appends(fs, after, file, npm_check(fs, pkg, file, path)),
    ensures
        packages_unique(after),
{
    let recs = npm_check(fs, pkg, file, path);
    assert(after.subrange(0, fs.len() as int) == fs);
    if recs.len() == 0 {
        assert(after =~= fs);
    } else {
        let n = fs.len() as int;
        assert(is_dependency_asset(after[n + 0], file, recs[0]));
        assert forall|i: int, j: int| 0 <= i < j < after.len() implies !((#[trigger] after[i]).library_source@
            == (#[trigger] after[j]).library_source@ && after[i].file_path@ == after[j].file_path@) by {
            assert(after[i] == fs[i]);
            if j < n {
                assert(after[j] == fs[j]);
            } else {
                assert(j == n);
                if after[i].library_source@ == after[j].library_source@ && after[i].file_path@ == after[j].file_path@ {
                    assert(already_found(fs, pkg, file));
                }
            }
        }
    }
}

/// Some record names the package `pkg`.
pub open spec fn recorded(recs: Seq<DepRecord>, pkg: Seq<char>) -> bool {
    exists|j: int| 0 <= j < recs.len() && (#[trigger] recs[j]).name == pkg
}

/// After appending records of `file`, a package of `file` is known iff it
/// was known before or was just recorded.
pub proof fn lemma_already_found_after(
    before: Seq<CryptoAsset>,
    after: Seq<CryptoAsset>,
    file: Seq<char>,
    recs: Seq<DepRecord>,
    pkg: Seq<char>,
)
    requires
        appends(before, after, file, recs),
    ensures
        already_found(after, pkg, file) == (already_found(before, pkg, file) || recorded(recs, pkg)),
{
    if already_found(after, pkg, file) {
        let i = choose|i: int|
            0 <= i < after.len() && (#[trigger] after[i]).library_source@ == pkg && after[i].file_path@
                == file;
        if i < before.len() {
            assert(after[i] == after.subrange(0, before.len() as int)[i]);
        } else {
            assert(is_dependency_asset(after[before.len() + (i - before.len())], file, recs[i - before.len()]));
            assert(recs[i - before.len()].name == pkg);
        }
    }
    if already_found(before, pkg, file) {
        let i = choose|i: int|
            0 <= i < before.len() && (#[trigger] before[i]).library_source@ == pkg && before[i].file_path@
                == file;
        assert(after[i] == after.subrange(0, before.len() as int)[i]);
    }
    if recorded(recs, pkg) {
        let j = choose|j: int| 0 <= j < recs.len() && (#[trigger] recs[j]).name == pkg;
        assert(is_dependency_asset(after[before.len() + j], file, recs[j]));
    }
}

/// The finding `check_npm_package` adds for `pkg` given the findings `fs`.
pub open spec fn npm_check(fs: Seq<CryptoAsset>, pkg: Seq<char>, file: Seq<char>, path: Option<Seq<char>>) -> Seq<
    DepRecord,
> {
    match table_lookup(npm_table(), pkg, NameRule::Exact) {
        Some(d) => if already_found(fs, pkg, file) {
            Seq::empty()
        } else {
            seq![DepRecord { name: pkg, line: 0, description: d, path }]
        },
        None => Seq::empty(),
    }
}

/// Whether some finding already names the package in the lockfile.
fn already_found_exec(findings: &Vec<CryptoAsset>, pkg: &[char], file_path: &str) -> (r: bool)
    ensures
        r == already_found(findings@, pkg@, file_path@),
{
    let file = chars_of(file_path);
    let mut i: usize = 0;
    while i < findings.len()
        invariant
            i <= findings@.len(),
            file@ == file_path@,
            forall|k: int|
                0 <= k < i ==> !((#[trigger] findings@[k]).library_source@ == pkg@
                    && findings@[k].file_path@ == file_path@),
        decreases findings.len() - i,
    {
        let lib = chars_of(findings[i].library_source.as_str());
        let fp = chars_of(findings[i].file_path.as_str());
        if same(&lib, pkg) && same(&fp, &file) {
            return true;
        }
        i = i + 1;
    }
    false
}

/// Record a known crypto npm package, unless already recorded for this lockfile.
pub fn check_npm_package(pkg_name: &str, file_path: &str, findings: &mut Vec<CryptoAsset>)
    ensures
        appends(
            old(findings)@,
            final(findings)@,
            file_path@,
            npm_check(old(findings)@, pkg_name@, file_path@, None),
        ),
{
    let table = npm_crypto_packages();
    let pkg = chars_of(pkg_name);
    match table_lookup_exec(&table, &pkg, NameRule::Exact) {
        Some(description) => {
            // Avoid duplicates
            if already_found_exec(findings, &pkg, file_path) {
                proof {
                    lemma_appends_nothing(findings@, file_path@);
                }
                return ;
            }
            push_dependency(findings, &pkg, file_path, 0, description, None);
        },
        None => {
            proof {
                lemma_appends_nothing(findings@, file_path@);
            }
        },
    }
}

// ---------------------------------------------------------------------------
// yarn.lock
// ---------------------------------------------------------------------------

/// The package a `yarn.lock` line declares, if any: package lines are not
/// comments and contain `@`; the name is what precedes the first `@`.
pub open spec fn yarn_line_package(line: Seq<char>) -> Option<Seq<char>> {
    let t = trim(line);
    if t.len() == 0 || has_prefix(t, "#"@) {
        None
    } else if !is_ws_start(t) && has_sub(t, "@"@) {
        Some(strip(split_by(t, seq!['@'])[0], seq!['"'], false))
    } else {
        None
    }
}

/// `s` begins with white space.
pub open spec fn is_ws_start(s: Seq<char>) -> bool {
    s.len() > 0 && crate::text::is_ws(s[0])
}

/// The records the given `yarn.lock` lines add to the findings `fs`.
pub open spec fn yarn_records(fs: Seq<CryptoAsset>, file: Seq<char>, ls: Seq<Seq<char>>) -> Seq<DepRecord>
    decreases ls.len(),
{
    if ls.len() == 0 {
        Seq::empty()
    } else {
        let prev = yarn_records(fs, file, ls.drop_last());
        prev + match yarn_line_package(ls.last()) {
            Some(p) => match table_lookup(npm_table(), p, NameRule::Exact) {
                Some(d) => if already_found(fs, p, file) || recorded(prev, p) {
                    Seq::empty()
                } else {
                    seq![DepRecord { name: p, line: 0, description: d, path: None }]
                },
                None => Seq::empty(),
            },
            None => Seq::empty(),
        }
    }
}

/// Parse `yarn.lock` for known crypto npm packages.
pub fn parse_yarn_lock(contents: &str, file_path: &str, findings: &mut Vec<CryptoAsset>)
    ensures
        appends(old(findings)@, final(findings)@, file_path@, yarn_records(old(findings)@, file_path@, lines(contents@))),
{
    let text = chars_of(contents);
    let ls = lines_of(&text);
    let ghost lsv = lines(contents@);
    let ghost fs0 = findings@;
    proof {
        lemma_appends_nothing(findings@, file_path@);
    }
    let mut i: usize = 0;
    while i < ls.len()
        invariant
            i <= ls@.len(),
            ls@.len() == lsv.len(),
            forall|k: int| 0 <= k < ls@.len() ==> #[trigger] ls@[k]@ == lsv[k],
            fs0 == old(findings)@,
            appends(fs0, findings@, file_path@, yarn_records(fs0, file_path@, lsv.subrange(0, i as int))),
        decreases ls.len() - i,
    {
        let ghost before = findings@;
        let ghost prev = yarn_records(fs0, file_path@, lsv.subrange(0, i as int));
        assert(lsv.subrange(0, i + 1).drop_last() =~= lsv.subrange(0, i as int));
        let line = trim_chars(&ls[i]);
        let mut pkg_opt: Option<Vec<char>> = None;
        if !(line.len() == 0 || starts_with(&line, "#")) {
            let ws_start = line.len() > 0 && crate::text::is_whitespace(line[0]);
            if !ws_start && crate::text::contains(&line, "@") {
                let parts = split_lit(&line, "@");
                proof {
                    crate::text::lemma_split_nonempty(line@, "@"@);
                    reveal_strlit("@");
                    assert("@"@ =~= seq!['@']);
                }
                let name = strip_lit(&parts[0], "\"");
                proof {
                    reveal_strlit("\"");
                    assert("\""@ =~= seq!['"']);
                }
                pkg_opt = Some(name);
            }
        }
        assert(match pkg_opt { Some(p) => yarn_line_package(lsv[i as int]) == Some(p@), None => yarn_line_package(lsv[i as int]) is None });
        match pkg_opt {
            Some(p) => {
                let ps = string_of(&p);
                proof {
                    lemma_already_found_after(fs0, before, file_path@, prev, p@);
                }
                check_npm_package(ps.as_str(), file_path, findings);
                proof {
                    lemma_appends_trans(fs0, before, findings@, file_path@, prev, npm_check(before, p@, file_path@, None));
                    assert(yarn_records(fs0, file_path@, lsv.subrange(0, i + 1)) =~= prev + npm_check(before, p@, file_path@, None));
                }
            },
            None => {
                proof {
                    lemma_appends_nothing(findings@, file_path@);
                    assert(yarn_records(fs0, file_path@, lsv.subrange(0, i + 1)) =~= prev + Seq::empty());
                }
            },
        }
        i = i + 1;
    }
    assert(lsv.subrange(0, lsv.len() as int) =~= lsv);
}

} // verus!

verus! {

// ---------------------------------------------------------------------------
// Cargo.lock
// ---------------------------------------------------------------------------

/// A package of `Cargo.lock`: its name and the names it depends on.
pub struct CargoPackage {
    pub name: String,
    pub dependencies: Vec<String>,
}

/// A package as characters.
pub open spec fn package_view(p: CargoPackage) -> (Seq<char>, Seq<Seq<char>>) {
    (p.name@, views(p.dependencies@))
}

/// Packages as characters.
pub open spec fn packages_view(ps: Seq<CargoPackage>) -> Seq<(Seq<char>, Seq<Seq<char>>)> {
    ps.map_values(|p: CargoPackage| package_view(p))
}

/// The state of the line-by-line reading of `Cargo.lock`.
pub struct CargoScan {
    pub pkgs: Seq<(Seq<char>, Seq<Seq<char>>)>,
    pub cur: Option<Seq<char>>,
    pub deps: Seq<Seq<char>>,
}

/// The dependency named by a dependency-array line such as `"rustls 0.21.0",`.
pub open spec fn cargo_dep_name(line: Seq<char>) -> Seq<char> {
    let t = strip(strip_end(strip(line, seq!['"'], false), seq![','], false), seq!['"'], false);
    match first_word(t) {
        Some(w) => w,
        None => Seq::empty(),
    }
}

/// The packages known so far, with the one being read flushed.
pub open spec fn flushed(st: CargoScan) -> Seq<(Seq<char>, Seq<Seq<char>>)> {
    match st.cur {
        Some(n) => st.pkgs.push((n, st.deps)),
        None => st.pkgs,
    }
}

/// One line of `Cargo.lock`.
pub open spec fn cargo_step(st: CargoScan, raw: Seq<char>) -> CargoScan {
    let line = trim(raw);
    let st1 = if line == "[[package]]"@ {
        CargoScan { pkgs: flushed(st), cur: None, deps: Seq::empty() }
    } else {
        st
    };
    let st2 = if has_prefix(line, "name = "@) {
        CargoScan {
            pkgs: st1.pkgs,
            cur: Some(strip(strip_prefix_all(line, "name = "@), seq!['"'], false)),
            deps: st1.deps,
        }
    } else {
        st1
    };
    if has_prefix(line, "\""@) && st2.cur is Some && cargo_dep_name(line).len() > 0 {
        CargoScan { pkgs: st2.pkgs, cur: st2.cur, deps: st2.deps.push(cargo_dep_name(line)) }
    } else {
        st2
    }
}

/// The reading of the given lines.
pub open spec fn cargo_scan(ls: Seq<Seq<char>>) -> CargoScan
    decreases ls.len(),
{
    if ls.len() == 0 {
        CargoScan { pkgs: Seq::empty(), cur: None, deps: Seq::empty() }
    } else {
        cargo_step(cargo_scan(ls.drop_last()), ls.last())
    }
}

/// The packages of `Cargo.lock` with the given lines, in order.
pub open spec fn cargo_packages(ls: Seq<Seq<char>>) -> Seq<(Seq<char>, Seq<Seq<char>>)> {
    flushed(cargo_scan(ls))
}

/// The name `name`, once per occurrence of `child` in `deps`.
pub open spec fn name_per_use(deps: Seq<Seq<char>>, child: Seq<char>, name: Seq<char>) -> Seq<Seq<char>>
    decreases deps.len(),
{
    if deps.len() == 0 {
        Seq::empty()
    } else if deps.last() == child {
        name_per_use(deps.drop_last(), child, name).push(name)
    } else {
        name_per_use(deps.drop_last(), child, name)
    }
}

/// The parents of `child`: the packages depending on it, in order, once
/// per dependency entry (the reverse dependency map of `Cargo.lock`).
pub open spec fn parents_of(pkgs: Seq<(Seq<char>, Seq<Seq<char>>)>, child: Seq<char>) -> Seq<Seq<char>>
    decreases pkgs.len(),
{
    if pkgs.len() == 0 {
        Seq::empty()
    } else {
        parents_of(pkgs.drop_last(), child) + name_per_use(pkgs.last().1, child, pkgs.last().0)
    }
}

/// The first element at or after `i` of `ps` not in `path` (and, when
/// `plain`, not a known crypto crate).
pub open spec fn first_fresh(ps: Seq<Seq<char>>, path: Seq<Seq<char>>, plain: bool, i: int) -> Option<
    Seq<char>,
>
    decreases ps.len() - i,
{
    if i < 0 || i >= ps.len() {
        None
    } else if !path.contains(ps[i]) && (!plain || table_lookup(cargo_table(), ps[i], NameRule::Exact) is None) {
        Some(ps[i])
    } else {
        first_fresh(ps, path, plain, i + 1)
    }
}

/// The next parent of the walk: not yet visited, preferring crates that are
/// not themselves crypto crates.
pub open spec fn next_parent(pkgs: Seq<(Seq<char>, Seq<Seq<char>>)>, path: Seq<Seq<char>>) -> Option<
    Seq<char>,
> {
    let ps = parents_of(pkgs, path.last());
    match first_fresh(ps, path, true, 0) {
        Some(p) => Some(p),
        None => first_fresh(ps, path, false, 0),
    }
}

/// The walk up the reverse dependencies, at most `fuel` steps.
pub open spec fn walk(pkgs: Seq<(Seq<char>, Seq<Seq<char>>)>, path: Seq<Seq<char>>, fuel: nat) -> Seq<
    Seq<char>,
>
    decreases fuel,
{
    if fuel == 0 {
        path
    } else {
        match next_parent(pkgs, path) {
            Some(p) => walk(pkgs, path.push(p), (fuel - 1) as nat),
            None => path,
        }
    }
}

/// The chain from `target` up to a root: `target` first.
pub open spec fn dependency_chain(pkgs: Seq<(Seq<char>, Seq<Seq<char>>)>, target: Seq<char>) -> Seq<
    Seq<char>,
> {
    walk(pkgs, seq![target], pkgs.len())
}


/// The rendered dependency path of `target`: root first, empty when
/// `target` has no parent.
pub open spec fn dependency_path_text(pkgs: Seq<(Seq<char>, Seq<Seq<char>>)>, target: Seq<char>) -> Seq<
    char,
> {
    let c = dependency_chain(pkgs, target);
    if c.len() <= 1 {
        Seq::empty()
    } else {
        join(c.reverse(), " -> "@)
    }
}

/// Every entry of `name_per_use` is the parent's name.
proof fn lemma_name_per_use_is_name(deps: Seq<Seq<char>>, child: Seq<char>, name: Seq<char>)
    ensures
        forall|k: int|
            0 <= k < name_per_use(deps, child, name).len() ==> #[trigger] name_per_use(
                deps,
                child,
                name,
            )[k] == name,
    decreases deps.len(),
{
    if deps.len() > 0 {
        lemma_name_per_use_is_name(deps.drop_last(), child, name);
        let prev = name_per_use(deps.drop_last(), child, name);
        assert forall|k: int| 0 <= k < name_per_use(deps, child, name).len() implies #[trigger] name_per_use(
            deps,
            child,
            name,
        )[k] == name by {
            if k < prev.len() {
                assert(name_per_use(deps, child, name)[k] == prev[k]);
            }
        }
    }
}

/// Every parent is the name of some package.
proof fn lemma_parents_are_packages(pkgs: Seq<(Seq<char>, Seq<Seq<char>>)>, child: Seq<char>)
    ensures
        forall|k: int|
            0 <= k < parents_of(pkgs, child).len() ==> pkgs.map_values(
                |p: (Seq<char>, Seq<Seq<char>>)| p.0,
            ).contains(#[trigger] parents_of(pkgs, child)[k]),
    decreases pkgs.len(),
{
    if pkgs.len() > 0 {
        let t = pkgs.drop_last();
        lemma_parents_are_packages(t, child);
        lemma_name_per_use_is_name(pkgs.last().1, child, pkgs.last().0);
        let names = pkgs.map_values(|p: (Seq<char>, Seq<Seq<char>>)| p.0);
        let tnames = t.map_values(|p: (Seq<char>, Seq<Seq<char>>)| p.0);
        assert forall|k: int| 0 <= k < parents_of(pkgs, child).len() implies names.contains(
            #[trigger] parents_of(pkgs, child)[k],
        ) by {
            let pt = parents_of(t, child);
            if k < pt.len() {
                let j = choose|j: int| 0 <= j < tnames.len() && tnames[j] == pt[k];
                assert(names[j] == tnames[j]);
            } else {
                assert(names[pkgs.len() - 1] == pkgs.last().0);
            }
        }
    }
}

/// A walk path without repeats whose tail is made of package names is at
/// most one longer than the number of packages.
proof fn lemma_path_bound(pkgs: Seq<(Seq<char>, Seq<Seq<char>>)>, path: Seq<Seq<char>>)
    requires
        path.len() >= 1,
        path.no_duplicates(),
        forall|k: int|
            1 <= k < path.len() ==> pkgs.map_values(|p: (Seq<char>, Seq<Seq<char>>)| p.0).contains(
                #[trigger] path[k],
            ),
    ensures
        path.len() - 1 <= pkgs.len(),
{
    let names = pkgs.map_values(|p: (Seq<char>, Seq<Seq<char>>)| p.0);
    let tail = path.drop_first();
    assert(tail.no_duplicates()) by {
        assert forall|i: int, j: int| 0 <= i < tail.len() && 0 <= j < tail.len() && i != j implies tail[i]
            != tail[j] by {
            assert(tail[i] == path[i + 1]);
            assert(tail[j] == path[j + 1]);
        }
    }
    tail.unique_seq_to_set();
    names.lemma_cardinality_of_set();
    assert(tail.to_set().subset_of(names.to_set())) by {
        assert forall|x: Seq<char>| tail.to_set().contains(x) implies names.to_set().contains(x) by {
            let i = choose|i: int| 0 <= i < tail.len() && tail[i] == x;
            assert(path[i + 1] == x);
        }
    }
    vstd::set_lib::lemma_len_subset(tail.to_set(), names.to_set());
}

} // verus!

verus! {

/// Appends the parent's name once for each of its dependencies on `child`.
fn name_uses_into(out: &mut Vec<Vec<char>>, deps: &Vec<String>, child: &[char], name: &String)
    ensures
        seqs(final(out)@) == seqs(old(out)@) + name_per_use(views(deps@), child@, name@),
{
    let ghost dv = views(deps@);
    let mut j: usize = 0;
    while j < deps.len()
        invariant
            j <= deps@.len(),
            dv == views(deps@),
            seqs(out@) == seqs(old(out)@) + name_per_use(dv.subrange(0, j as int), child@, name@),
        decreases deps.len() - j,
    {
        assert(dv.subrange(0, j + 1).drop_last() =~= dv.subrange(0, j as int));
        let d = chars_of(deps[j].as_str());
        assert(dv[j as int] == deps@[j as int]@);
        assert(dv.subrange(0, j + 1).last() == d@);
        if same(&d, child) {
            let n = chars_of(name.as_str());
            proof {
                crate::text::lemma_seqs_push(out@, n);
            }
            out.push(n);
            assert(seqs(out@) =~= seqs(old(out)@) + name_per_use(dv.subrange(0, j + 1), child@, name@));
        } else {
            assert(seqs(out@) =~= seqs(old(out)@) + name_per_use(dv.subrange(0, j + 1), child@, name@));
        }
        j = j + 1;
    }
    assert(dv.subrange(0, dv.len() as int) =~= dv);
}

/// The parents of `child` among the packages.
fn parents_exec(packages: &Vec<CargoPackage>, child: &[char]) -> (r: Vec<Vec<char>>)
    ensures
        seqs(r@) == parents_of(packages_view(packages@), child@),
{
    let ghost pv = packages_view(packages@);
    let mut out: Vec<Vec<char>> = Vec::new();
    let mut i: usize = 0;
    assert(seqs(out@) =~= Seq::empty());
    while i < packages.len()
        invariant
            i <= packages@.len(),
            pv == packages_view(packages@),
            seqs(out@) == parents_of(pv.subrange(0, i as int), child@),
        decreases packages.len() - i,
    {
        assert(pv.subrange(0, i + 1).drop_last() =~= pv.subrange(0, i as int));
        name_uses_into(&mut out, &packages[i].dependencies, child, &packages[i].name);
        i = i + 1;
    }
    assert(pv.subrange(0, pv.len() as int) =~= pv);
    out
}

/// The first element of `ps` not in `path` (and, when `plain`, not a known
/// crypto crate).
fn first_fresh_exec(
    ps: &Vec<Vec<char>>,
    path: &Vec<Vec<char>>,
    plain: bool,
    table: &Vec<(&'static str, &'static str)>,
) -> (r: Option<usize>)
    requires
        table_view(table@) == cargo_table(),
    ensures
        r matches Some(k) ==> k < ps@.len() && first_fresh(seqs(ps@), seqs(path@), plain, 0) == Some(
            ps@[k as int]@,
        ),
        r is None ==> first_fresh(seqs(ps@), seqs(path@), plain, 0) is None,
{
    let ghost pv = seqs(ps@);
    let mut i: usize = 0;
    while i < ps.len()
        invariant
            i <= ps@.len(),
            pv == seqs(ps@),
            table_view(table@) == cargo_table(),
            first_fresh(pv, seqs(path@), plain, 0) == first_fresh(pv, seqs(path@), plain, i as int),
        decreases ps.len() - i,
    {
        assert(pv[i as int] == ps@[i as int]@);
        if !contains_seq(path, &ps[i]) {
            if !plain || table_lookup_exec(table, &ps[i], NameRule::Exact).is_none() {
                return Some(i);
            }
        }
        i = i + 1;
    }
    None
}


/// The character vectors in reverse order.
fn reversed(v: &Vec<Vec<char>>) -> (r: Vec<Vec<char>>)
    ensures
        seqs(r@) == seqs(v@).reverse(),
{
    let mut r: Vec<Vec<char>> = Vec::new();
    let mut i: usize = v.len();
    while i > 0
        invariant
            i <= v@.len(),
            r@.len() == v@.len() - i,
            forall|k: int| 0 <= k < r@.len() ==> #[trigger] r@[k]@ == v@[v@.len() - 1 - k]@,
        decreases i,
    {
        i = i - 1;
        let w = copy_range(&v[i], 0, v[i].len());
        assert(w@ =~= v@[i as int]@);
        r.push(w);
    }
    assert(seqs(r@) =~= seqs(v@).reverse());
    r
}

/// Trace the reverse dependency path from a crypto crate back to the
/// project root: `"axum -> hyper -> rustls -> ring"`, or an empty string
/// when the crate has no parent.
pub fn trace_dependency_path(target: &str, packages: &Vec<CargoPackage>) -> (r: String)
    ensures
        r@ == dependency_path_text(packages_view(packages@), target@),
{
    let ghost pv = packages_view(packages@);
    let ghost n = pv.len();
    let table = cargo_crypto_packages();
    let t = chars_of(target);
    let mut path: Vec<Vec<char>> = Vec::new();
    path.push(t);
    assert(seqs(path@) =~= seq![target@]);
    loop
        invariant
            pv == packages_view(packages@),
            n == pv.len(),
            table_view(table@) == cargo_table(),
            path@.len() >= 1,
            path@.len() - 1 <= n,
            seqs(path@).no_duplicates(),
            forall|k: int|
                1 <= k < seqs(path@).len() ==> pv.map_values(|p: (Seq<char>, Seq<Seq<char>>)| p.0).contains(
                    #[trigger] seqs(path@)[k],
                ),
            dependency_chain(pv, target@) == walk(pv, seqs(path@), (n - (path@.len() - 1)) as nat),
        ensures
            path@.len() >= 1,
            dependency_chain(pv, target@) == seqs(path@),
        decreases n + 1 - path@.len(),
    {
        let ghost pp = seqs(path@);
        let ghost fuel = (n - (path@.len() - 1)) as nat;
        let last = path.len() - 1;
        assert(pp.last() == path@[last as int]@);
        let parents = parents_exec(packages, &path[last]);
        let pick = match first_fresh_exec(&parents, &path, true, &table) {
            Some(k) => Some(k),
            None => first_fresh_exec(&parents, &path, false, &table),
        };
        match pick {
            Some(k) => {
                let p = copy_range(&parents[k], 0, parents[k].len());
                assert(p@ =~= parents@[k as int]@);
                proof {
                    assert(next_parent(pv, pp) == Some(p@));
                    lemma_parents_are_packages(pv, pp.last());
                    assert(seqs(parents@)[k as int] == p@);
                    let np = pp.push(p@);
                    assert(np.no_duplicates()) by {
                        assert(!pp.contains(p@)) by {
                            if first_fresh(seqs(parents@), pp, true, 0) is Some {
                                lemma_first_fresh(seqs(parents@), pp, true, 0);
                            } else {
                                lemma_first_fresh(seqs(parents@), pp, false, 0);
                            }
                        }
                        assert forall|i: int, j: int|
                            0 <= i < np.len() && 0 <= j < np.len() && i != j implies np[i] != np[j] by {
                            if i < pp.len() && j < pp.len() {
                                assert(np[i] == pp[i] && np[j] == pp[j]);
                            } else if i < pp.len() {
                                assert(np[i] == pp[i]);
                            } else if j < pp.len() {
                                assert(np[j] == pp[j]);
                            }
                        }
                    }
                    let names = pv.map_values(|q: (Seq<char>, Seq<Seq<char>>)| q.0);
                    assert forall|k2: int| 1 <= k2 < np.len() implies names.contains(#[trigger] np[k2]) by {
                        if k2 < pp.len() {
                            assert(np[k2] == pp[k2]);
                        } else {
                            assert(np[k2] == seqs(parents@)[k as int]);
                        }
                    }
                    lemma_path_bound(pv, np);
                    assert(fuel >= 1);
                }
                path.push(p);
                assert(seqs(path@) =~= pp.push(p@));
            },
            None => {
                assert(next_parent(pv, pp) is None);
                break ;
            },
        }
    }
    if path.len() <= 1 {
        return String::new();
    }
    let rev = reversed(&path);
    let joined = join_exec(&rev, " -> ");
    string_of(&joined)
}

/// A parent chosen by `first_fresh` is not yet on the path.
proof fn lemma_first_fresh(ps: Seq<Seq<char>>, path: Seq<Seq<char>>, plain: bool, i: int)
    requires
        0 <= i,
        first_fresh(ps, path, plain, i) is Some,
    ensures
        !path.contains(first_fresh(ps, path, plain, i)->0),
    decreases ps.len() - i,
{
    if i < ps.len() && !(!path.contains(ps[i]) && (!plain || table_lookup(cargo_table(), ps[i], NameRule::Exact) is None)) {
        lemma_first_fresh(ps, path, plain, i + 1);
    }
}

} // verus!

verus! {

/// The view of a package list grows with the list.
proof fn lemma_packages_push(ps: Seq<CargoPackage>, p: CargoPackage)
    ensures
        packages_view(ps.push(p)) == packages_view(ps).push(package_view(p)),
{
    assert(packages_view(ps.push(p)) =~= packages_view(ps).push(package_view(p))) by {
        assert forall|k: int| 0 <= k < ps.len() + 1 implies packages_view(ps.push(p))[k]
            == packages_view(ps).push(package_view(p))[k] by {
            if k < ps.len() {
                assert(ps.push(p)[k] == ps[k]);
            }
        }
    }
}

/// The package name of a `dependencies` entry of a `Cargo.lock` package.
fn cargo_dep_name_exec(line: &[char]) -> (r: Vec<char>)
    ensures
        r@ == cargo_dep_name(line@),
{
    proof {
        reveal_strlit("\"");
        reveal_strlit(",");
        assert("\""@ =~= seq!['"']);
        assert(","@ =~= seq![',']);
    }
    let a = strip_lit(line, "\"");
    let b = strip_end_lit(&a, ",");
    let c = strip_lit(&b, "\"");
    match first_word_of(&c) {
        Some(w) => w,
        None => Vec::new(),
    }
}

/// Read the packages of `Cargo.lock` and their dependencies.
pub fn parse_cargo_packages(contents: &str) -> (r: Vec<CargoPackage>)
    ensures
        packages_view(r@) == cargo_packages(lines(contents@)),
{
    let text = chars_of(contents);
    let ls = lines_of(&text);
    let ghost lsv = lines(contents@);
    let mut packages: Vec<CargoPackage> = Vec::new();
    let mut current_name: Option<String> = None;
    let mut current_deps: Vec<String> = Vec::new();
    assert(packages_view(packages@) =~= Seq::empty());
    assert(views(current_deps@) =~= Seq::empty());
    let mut i: usize = 0;
    while i < ls.len()
        invariant
            i <= ls@.len(),
            ls@.len() == lsv.len(),
            forall|k: int| 0 <= k < ls@.len() ==> #[trigger] ls@[k]@ == lsv[k],
            packages_view(packages@) == cargo_scan(lsv.subrange(0, i as int)).pkgs,
            opt_view(current_name) == cargo_scan(lsv.subrange(0, i as int)).cur,
            views(current_deps@) == cargo_scan(lsv.subrange(0, i as int)).deps,
        decreases ls.len() - i,
    {
        assert(lsv.subrange(0, i + 1).drop_last() =~= lsv.subrange(0, i as int));
        let line = trim_chars(&ls[i]);
        if is(&line, "[[package]]") {
            // Flush previous package
            let cn = current_name;
            current_name = None;
            match cn {
                Some(name) => {
                    let deps = current_deps;
                    current_deps = Vec::new();
                    let p = CargoPackage { name, dependencies: deps };
                    proof {
                        lemma_packages_push(packages@, p);
                    }
                    packages.push(p);
                },
                None => {},
            }
            current_deps = Vec::new();
            assert(views(current_deps@) =~= Seq::empty());
        }
        if starts_with(&line, "name = ") {
            let rest = strip_prefix_all_lit(&line, "name = ");
            let n = strip_lit(&rest, "\"");
            proof {
                reveal_strlit("\"");
                assert("\""@ =~= seq!['"']);
            }
            current_name = Some(string_of(&n));
        }
        // Dependency array entries like:  "ring",  "rustls 0.21.0",
        if starts_with(&line, "\"") && current_name.is_some() {
            let dep = cargo_dep_name_exec(&line);
            if dep.len() > 0 {
                let d = string_of(&dep);
                proof {
                    crate::models::lemma_views_push(current_deps@, d);
                }
                current_deps.push(d);
            }
        }
        i = i + 1;
    }
    assert(lsv.subrange(0, lsv.len() as int) =~= lsv);
    // Flush last package
    match current_name {
        Some(name) => {
            let p = CargoPackage { name, dependencies: current_deps };
            proof {
                lemma_packages_push(packages@, p);
            }
            packages.push(p);
        },
        None => {},
    }
    packages
}

/// The finding a package of `Cargo.lock` gives.
pub open spec fn cargo_record(pkgs: Seq<(Seq<char>, Seq<Seq<char>>)>, p: (Seq<char>, Seq<Seq<char>>)) -> Seq<
    DepRecord,
> {
    match table_lookup(cargo_table(), p.0, NameRule::Exact) {
        Some(d) => seq![
            DepRecord {
                name: p.0,
                line: 0,
                description: d,
                path: if dependency_path_text(pkgs, p.0).len() == 0 {
                    None
                } else {
                    Some(dependency_path_text(pkgs, p.0))
                },
            },
        ],
        None => Seq::empty(),
    }
}

/// The findings of the packages `ps` of `Cargo.lock` (whose packages are `pkgs`).
pub open spec fn cargo_records(pkgs: Seq<(Seq<char>, Seq<Seq<char>>)>, ps: Seq<(Seq<char>, Seq<Seq<char>>)>) -> Seq<
    DepRecord,
>
    decreases ps.len(),
{
    if ps.len() == 0 {
        Seq::empty()
    } else {
        cargo_records(pkgs, ps.drop_last()) + cargo_record(pkgs, ps.last())
    }
}

/// Parse `Cargo.lock` for known crypto Rust crates and trace, for each, the
/// path from the project root through intermediate dependencies.
pub fn parse_cargo_lock(contents: &str, file_path: &str, findings: &mut Vec<CryptoAsset>)
    ensures
        appends(
            old(findings)@,
            final(findings)@,
            file_path@,
            cargo_records(cargo_packages(lines(contents@)), cargo_packages(lines(contents@))),
        ),
{
    // Phase 1: all packages and their dependencies
    let packages = parse_cargo_packages(contents);
    let ghost pv = packages_view(packages@);
    let table = cargo_crypto_packages();
    proof {
        lemma_appends_nothing(findings@, file_path@);
    }
    // Phase 2: find crypto packages and trace paths
    let mut i: usize = 0;
    while i < packages.len()
        invariant
            i <= packages@.len(),
            pv == packages_view(packages@),
            table_view(table@) == cargo_table(),
            appends(old(findings)@, findings@, file_path@, cargo_records(pv, pv.subrange(0, i as int))),
        decreases packages.len() - i,
    {
        let ghost before = findings@;
        assert(pv.subrange(0, i + 1).drop_last() =~= pv.subrange(0, i as int));
        assert(pv[i as int] == package_view(packages@[i as int]));
        let name = chars_of(packages[i].name.as_str());
        match table_lookup_exec(&table, &name, NameRule::Exact) {
            Some(description) => {
                let path = trace_dependency_path(packages[i].name.as_str(), &packages);
                let dep_path = if path.as_str().is_empty() {
                    None
                } else {
                    Some(path)
                };
                assert(dep_path is None <==> dependency_path_text(pv, name@).len() == 0) by {
                    reveal_strlit("");
                }
                push_dependency(findings, &name, file_path, 0, description, dep_path);
                proof {
                    lemma_appends_trans(
                        old(findings)@,
                        before,
                        findings@,
                        file_path@,
                        cargo_records(pv, pv.subrange(0, i as int)),
                        cargo_record(pv, pv[i as int]),
                    );
                }
            },
            None => {
                proof {
                    lemma_appends_nothing(findings@, file_path@);
                    lemma_appends_trans(
                        old(findings)@,
                        before,
                        findings@,
                        file_path@,
                        cargo_records(pv, pv.subrange(0, i as int)),
                        Seq::empty(),
                    );
                    assert(cargo_records(pv, pv.subrange(0, i + 1)) =~= cargo_records(
                        pv,
                        pv.subrange(0, i as int),
                    ) + Seq::empty());
                }
            },
        }
        i = i + 1;
    }
    assert(pv.subrange(0, pv.len() as int) =~= pv);
}

/// Record a known crypto Rust crate.
pub fn check_cargo_package(pkg_name: &str, file_path: &str, findings: &mut Vec<CryptoAsset>)
    ensures
        appends(
            old(findings)@,
            final(findings)@,
            file_path@,
            match table_lookup(cargo_table(), pkg_name@, NameRule::Exact) {
                Some(d) => seq![DepRecord { name: pkg_name@, line: 0, description: d, path: None }],
                None => Seq::empty(),
            },
        ),
{
    let table = cargo_crypto_packages();
    let pkg = chars_of(pkg_name);
    match table_lookup_exec(&table, &pkg, NameRule::Exact) {
        Some(description) => {
            push_dependency(findings, &pkg, file_path, 0, description, None);
        },
        None => {
            proof {
                lemma_appends_nothing(findings@, file_path@);
            }
        },
    }
}

} // verus!

verus! {

// ---------------------------------------------------------------------------
// Pipfile.lock
// ---------------------------------------------------------------------------

/// The findings of the members (package names) of a Pipfile.lock section.
pub open spec fn pipfile_section_records(es: Seq<(Seq<char>, Seq<Option<Seq<Seq<char>>>>)>) -> Seq<DepRecord>
    decreases es.len(),
{
    if es.len() == 0 {
        Seq::empty()
    } else {
        pipfile_section_records(es.drop_last()) + match table_lookup(
            python_table(),
            es.last().0,
            NameRule::Normalized,
        ) {
            Some(d) => seq![DepRecord { name: es.last().0, line: 0, description: d, path: None }],
            None => Seq::empty(),
        }
    }
}

/// The findings of one section of a Pipfile.lock.
pub open spec fn pipfile_records(text: Seq<char>, section: Seq<char>) -> Seq<DepRecord> {
    match json_entries(text, section, Seq::empty()) {
        Some(es) => pipfile_section_records(es),
        None => Seq::empty(),
    }
}

/// Extract the crypto packages of one section of a `Pipfile.lock`.
fn pipfile_section(contents: &str, section: &'static str, file_path: &str, findings: &mut Vec<CryptoAsset>)
    ensures
        appends(old(findings)@, final(findings)@, file_path@, pipfile_records(contents@, section@)),
{
    let table = python_crypto_packages();
    let fields: Vec<&str> = Vec::new();
    assert(strs(fields@) =~= Seq::empty());
    proof {
        lemma_appends_nothing(findings@, file_path@);
    }
    match json_object_entries(contents, section, fields.as_slice()) {
        Some(entries) => {
            let ghost ev = entries_view(entries@);
            let mut i: usize = 0;
            while i < entries.len()
                invariant
                    i <= entries@.len(),
                    ev == entries_view(entries@),
                    table_view(table@) == python_table(),
                    appends(old(findings)@, findings@, file_path@, pipfile_section_records(ev.subrange(0, i as int))),
                decreases entries.len() - i,
            {
                let ghost before = findings@;
                assert(ev.subrange(0, i + 1).drop_last() =~= ev.subrange(0, i as int));
                assert(ev[i as int] == entry_view(entries@[i as int]));
                let name = chars_of(entries[i].key.as_str());
                match table_lookup_exec(&table, &name, NameRule::Normalized) {
                    Some(description) => {
                        push_dependency(findings, &name, file_path, 0, description, None);
                        proof {
                            lemma_appends_trans(
                                old(findings)@,
                                before,
                                findings@,
                                file_path@,
                                pipfile_section_records(ev.subrange(0, i as int)),
                                seq![DepRecord { name: name@, line: 0, description: description@, path: None }],
                            );
                        }
                    },
                    None => {
                        proof {
                            lemma_appends_nothing(findings@, file_path@);
                            lemma_appends_trans(
                                old(findings)@,
                                before,
                                findings@,
                                file_path@,
                                pipfile_section_records(ev.subrange(0, i as int)),
                                Seq::empty(),
                            );
                        }
                    },
                }
                assert(pipfile_section_records(ev.subrange(0, i + 1)) =~= pipfile_section_records(
                    ev.subrange(0, i as int),
                ) + match table_lookup(python_table(), name@, NameRule::Normalized) {
                    Some(d) => seq![DepRecord { name: name@, line: 0, description: d, path: None }],
                    None => Seq::empty(),
                });
                i = i + 1;
            }
            assert(ev.subrange(0, ev.len() as int) =~= ev);
        },
        None => {},
    }
}

/// Parse `Pipfile.lock` (JSON) for known crypto packages in its `default`
/// and `develop` sections.
pub fn parse_pipfile_lock(contents: &str, file_path: &str, findings: &mut Vec<CryptoAsset>)
    ensures
        appends(
            old(findings)@,
            final(findings)@,
            file_path@,
            pipfile_records(contents@, "default"@) + pipfile_records(contents@, "develop"@),
        ),
{
    let ghost f0 = findings@;
    pipfile_section(contents, "default", file_path, findings);
    let ghost f1 = findings@;
    pipfile_section(contents, "develop", file_path, findings);
    proof {
        lemma_appends_trans(
            f0,
            f1,
            findings@,
            file_path@,
            pipfile_records(contents@, "default"@),
            pipfile_records(contents@, "develop"@),
        );
    }
}

} // verus!

verus! {

// ---------------------------------------------------------------------------
// package-lock.json
// ---------------------------------------------------------------------------

/// A package-to-dependencies map kept in insertion order.
pub open spec fn assoc_view(m: Seq<(String, Vec<String>)>) -> Seq<(Seq<char>, Seq<Seq<char>>)> {
    m.map_values(|p: (String, Vec<String>)| (p.0@, views(p.1@)))
}

/// The position of key `k` at or after `i`.
pub open spec fn assoc_find(m: Seq<(Seq<char>, Seq<Seq<char>>)>, k: Seq<char>, i: int) -> Option<int>
    decreases m.len() - i,
{
    if i < 0 || i >= m.len() {
        None
    } else if m[i].0 == k {
        Some(i)
    } else {
        assoc_find(m, k, i + 1)
    }
}

/// Inserting `k -> v`: replaces the value of an existing key, else appends.
pub open spec fn assoc_insert(m: Seq<(Seq<char>, Seq<Seq<char>>)>, k: Seq<char>, v: Seq<Seq<char>>) -> Seq<
    (Seq<char>, Seq<Seq<char>>),
> {
    match assoc_find(m, k, 0) {
        Some(j) => m.update(j, (k, v)),
        None => m.push((k, v)),
    }
}

/// The keys of `m` whose dependencies list `child`, in order.
pub open spec fn parents_in(m: Seq<(Seq<char>, Seq<Seq<char>>)>, child: Seq<char>) -> Seq<Seq<char>>
    decreases m.len(),
{
    if m.len() == 0 {
        Seq::empty()
    } else {
        parents_in(m.drop_last(), child) + if m.last().1.contains(child) {
            seq![m.last().0]
        } else {
            Seq::empty()
        }
    }
}

/// The first parent at or after `i` that is not itself a known crypto package.
pub open spec fn first_plain_parent(ps: Seq<Seq<char>>, i: int) -> Option<Seq<char>>
    decreases ps.len() - i,
{
    if i < 0 || i >= ps.len() {
        None
    } else if table_lookup(npm_table(), ps[i], NameRule::Exact) is None {
        Some(ps[i])
    } else {
        first_plain_parent(ps, i + 1)
    }
}

/// The dependency path recorded for an npm package: its most useful parent
/// (the first non-crypto one, else the first one) and the package.
pub open spec fn npm_dependency_path(m: Seq<(Seq<char>, Seq<Seq<char>>)>, pkg: Seq<char>) -> Option<Seq<char>> {
    let ps = parents_in(m, pkg);
    if ps.len() == 0 {
        None
    } else {
        Some(
            match first_plain_parent(ps, 0) {
                Some(p) => p,
                None => ps[0],
            } + " -> "@ + pkg,
        )
    }
}

/// The position of key `k` in the association list, if present.
fn assoc_find_exec(m: &Vec<(String, Vec<String>)>, k: &[char]) -> (r: Option<usize>)
    ensures
        r matches Some(j) ==> j < m@.len() && assoc_find(assoc_view(m@), k@, 0) == Some(j as int),
        r is None ==> assoc_find(assoc_view(m@), k@, 0) is None,
{
    let ghost mv = assoc_view(m@);
    let mut i: usize = 0;
    while i < m.len()
        invariant
            i <= m@.len(),
            mv == assoc_view(m@),
            assoc_find(mv, k@, 0) == assoc_find(mv, k@, i as int),
        decreases m.len() - i,
    {
        let key = chars_of(m[i].0.as_str());
        assert(mv[i as int].0 == m@[i as int].0@);
        if same(&key, k) {
            return Some(i);
        }
        i = i + 1;
    }
    None
}

/// Sets the value of key `k` in the association list, appending it when new.
fn assoc_insert_exec(m: &mut Vec<(String, Vec<String>)>, k: String, v: Vec<String>)
    ensures
        assoc_view(final(m)@) == assoc_insert(assoc_view(old(m)@), k@, views(v@)),
{
    let kc = chars_of(k.as_str());
    match assoc_find_exec(m, &kc) {
        Some(j) => {
            m.set(j, (k, v));
            assert(assoc_view(m@) =~= assoc_view(old(m)@).update(j as int, (kc@, views(v@))));
        },
        None => {
            m.push((k, v));
            assert(assoc_view(m@) =~= assoc_view(old(m)@).push((kc@, views(v@))));
        },
    }
}

/// Whether the strings include `w`.
fn strings_contain(v: &Vec<String>, w: &[char]) -> (r: bool)
    ensures
        r == views(v@).contains(w@),
{
    let mut i: usize = 0;
    while i < v.len()
        invariant
            i <= v@.len(),
            forall|k: int| 0 <= k < i ==> v@[k]@ != w@,
        decreases v.len() - i,
    {
        let c = chars_of(v[i].as_str());
        if same(&c, w) {
            assert(views(v@)[i as int] == w@);
            return true;
        }
        i = i + 1;
    }
    assert forall|k: int| 0 <= k < views(v@).len() implies views(v@)[k] != w@ by {
        assert(views(v@)[k] == v@[k]@);
    }
    false
}

/// The first parent that is not itself a crypto package.
fn first_plain_exec(ps: &Vec<Vec<char>>, table: &Vec<(&'static str, &'static str)>) -> (r: Option<usize>)
    requires
        table_view(table@) == npm_table(),
    ensures
        r matches Some(j) ==> j < ps@.len() && first_plain_parent(seqs(ps@), 0) == Some(ps@[j as int]@),
        r is None ==> first_plain_parent(seqs(ps@), 0) is None,
{
    let ghost pv = seqs(ps@);
    let mut j: usize = 0;
    while j < ps.len()
        invariant
            j <= ps@.len(),
            pv == seqs(ps@),
            table_view(table@) == npm_table(),
            first_plain_parent(pv, 0) == first_plain_parent(pv, j as int),
        decreases ps.len() - j,
    {
        assert(pv[j as int] == ps@[j as int]@);
        if table_lookup_exec(table, &ps[j], NameRule::Exact).is_none() {
            return Some(j);
        }
        j = j + 1;
    }
    None
}

/// The `parent -> package` path of an npm package, when a plain parent depends on it.
fn npm_dependency_path_exec(m: &Vec<(String, Vec<String>)>, pkg: &[char], table: &Vec<(&'static str, &'static str)>) -> (r: Option<String>)
    requires
        table_view(table@) == npm_table(),
    ensures
        opt_view(r) == npm_dependency_path(assoc_view(m@), pkg@),
{
    let ghost mv = assoc_view(m@);
    // Find which packages depend on this crypto package
    let mut parents: Vec<Vec<char>> = Vec::new();
    let mut i: usize = 0;
    assert(seqs(parents@) =~= Seq::empty());
    while i < m.len()
        invariant
            i <= m@.len(),
            mv == assoc_view(m@),
            seqs(parents@) == parents_in(mv.subrange(0, i as int), pkg@),
        decreases m.len() - i,
    {
        assert(mv.subrange(0, i + 1).drop_last() =~= mv.subrange(0, i as int));
        assert(mv[i as int] == (m@[i as int].0@, views(m@[i as int].1@)));
        if strings_contain(&m[i].1, pkg) {
            let p = chars_of(m[i].0.as_str());
            proof {
                crate::text::lemma_seqs_push(parents@, p);
            }
            parents.push(p);
        }
        assert(seqs(parents@) =~= parents_in(mv.subrange(0, i + 1), pkg@));
        i = i + 1;
    }
    assert(mv.subrange(0, mv.len() as int) =~= mv);
    if parents.len() == 0 {
        return None;
    }
    // Pick the first non-crypto parent as the most useful trace
    let ghost pv = seqs(parents@);
    let best = match first_plain_exec(&parents, table) {
        Some(j) => j,
        None => 0,
    };
    assert(pv[best as int] == parents@[best as int]@);
    let mut out: Vec<char> = Vec::new();
    push_all(&mut out, &parents[best]);
    push_str(&mut out, " -> ");
    push_all(&mut out, pkg);
    Some(string_of(&out))
}

/// The finding `check_npm_package_with_path` adds for `pkg`, given the
/// findings `fs` and the dependency map `m`.
pub open spec fn npm_path_check(
    fs: Seq<CryptoAsset>,
    pkg: Seq<char>,
    file: Seq<char>,
    m: Seq<(Seq<char>, Seq<Seq<char>>)>,
) -> Seq<DepRecord> {
    match table_lookup(npm_table(), pkg, NameRule::Exact) {
        Some(d) => if already_found(fs, pkg, file) {
            Seq::empty()
        } else {
            seq![DepRecord { name: pkg, line: 0, description: d, path: npm_dependency_path(m, pkg) }]
        },
        None => Seq::empty(),
    }
}

/// Record a known crypto npm package with the package that pulls it in,
/// unless already recorded for this lockfile.
pub fn check_npm_package_with_path(
    pkg_name: &str,
    file_path: &str,
    pkg_deps: &Vec<(String, Vec<String>)>,
    findings: &mut Vec<CryptoAsset>,
)
    ensures
        appends(
            old(findings)@,
            final(findings)@,
            file_path@,
            npm_path_check(old(findings)@, pkg_name@, file_path@, assoc_view(pkg_deps@)),
        ),
{
    let table = npm_crypto_packages();
    let pkg = chars_of(pkg_name);
    match table_lookup_exec(&table, &pkg, NameRule::Exact) {
        Some(description) => {
            // Avoid duplicates
            if already_found_exec(findings, &pkg, file_path) {
                proof {
                    lemma_appends_nothing(findings@, file_path@);
                }
                return ;
            }
            let path = npm_dependency_path_exec(pkg_deps, &pkg, &table);
            push_dependency(findings, &pkg, file_path, 0, description, path);
        },
        None => {
            proof {
                lemma_appends_nothing(findings@, file_path@);
            }
        },
    }
}

} // verus!

verus! {

/// The state of the reading of `package-lock.json`: the dependency map
/// built so far and the findings recorded so far.
pub struct LockState {
    pub m: Seq<(Seq<char>, Seq<Seq<char>>)>,
    pub recs: Seq<DepRecord>,
}

/// The last `/`-separated segment (`str::rsplit('/').next()`).
pub open spec fn last_segment(s: Seq<char>) -> Seq<char> {
    split_by(s, seq!['/']).last()
}

/// An optional list, empty when absent.
pub open spec fn or_empty(o: Option<Seq<Seq<char>>>) -> Seq<Seq<char>> {
    match o {
        Some(v) => v,
        None => Seq::empty(),
    }
}

/// One package of the `packages` object (lockfile v2/v3).
pub open spec fn lock_v2_step(
    fs: Seq<CryptoAsset>,
    file: Seq<char>,
    st: LockState,
    e: (Seq<char>, Seq<Option<Seq<Seq<char>>>>),
) -> LockState {
    let name = last_segment(e.0);
    let deps = or_empty(e.1[0]) + or_empty(e.1[1]);
    let m = if deps.len() > 0 {
        assoc_insert(st.m, name, deps)
    } else {
        st.m
    };
    LockState {
        m,
        recs: st.recs + npm_path_check_after(fs, st.recs, name, file, m),
    }
}

/// One package of the `dependencies` object (lockfile v1).
pub open spec fn lock_v1_step(
    fs: Seq<CryptoAsset>,
    file: Seq<char>,
    st: LockState,
    e: (Seq<char>, Seq<Option<Seq<Seq<char>>>>),
) -> LockState {
    let m = match e.1[0] {
        Some(keys) => assoc_insert(st.m, e.0, keys),
        None => st.m,
    };
    LockState { m, recs: st.recs + npm_path_check_after(fs, st.recs, e.0, file, m) }
}

/// `npm_path_check` against the findings `fs` followed by the records `prev`.
pub open spec fn npm_path_check_after(
    fs: Seq<CryptoAsset>,
    prev: Seq<DepRecord>,
    pkg: Seq<char>,
    file: Seq<char>,
    m: Seq<(Seq<char>, Seq<Seq<char>>)>,
) -> Seq<DepRecord> {
    match table_lookup(npm_table(), pkg, NameRule::Exact) {
        Some(d) => if already_found(fs, pkg, file) || recorded(prev, pkg) {
            Seq::empty()
        } else {
            seq![DepRecord { name: pkg, line: 0, description: d, path: npm_dependency_path(m, pkg) }]
        },
        None => Seq::empty(),
    }
}

/// Reading the members `es`, with `v1` choosing the lockfile layout.
pub open spec fn lock_fold(
    fs: Seq<CryptoAsset>,
    file: Seq<char>,
    st: LockState,
    es: Seq<(Seq<char>, Seq<Option<Seq<Seq<char>>>>)>,
    v1: bool,
) -> LockState
    decreases es.len(),
{
    if es.len() == 0 {
        st
    } else {
        let prev = lock_fold(fs, file, st, es.drop_last(), v1);
        if v1 {
            lock_v1_step(fs, file, prev, es.last())
        } else {
            lock_v2_step(fs, file, prev, es.last())
        }
    }
}

/// The findings of `package-lock.json` with text `text`, given the
/// findings `fs` already made.
pub open spec fn package_lock_records(fs: Seq<CryptoAsset>, file: Seq<char>, text: Seq<char>) -> Seq<DepRecord> {
    let empty = LockState { m: Seq::empty(), recs: Seq::empty() };
    let st2 = match json_entries(text, "packages"@, seq!["dependencies"@, "devDependencies"@]) {
        Some(es) => lock_fold(fs, file, empty, es, false),
        None => empty,
    };
    let st3 = match json_entries(text, "dependencies"@, seq!["requires"@]) {
        Some(es) => lock_fold(fs, file, st2, es, true),
        None => st2,
    };
    st3.recs
}

/// The strings of both optional lists, in order.
fn concat_strings(a: &Option<Vec<String>>, b: &Option<Vec<String>>) -> (r: Vec<String>)
    ensures
        views(r@) == or_empty(crate::json::opt_views(*a)) + or_empty(crate::json::opt_views(*b)),
{
    let mut r: Vec<String> = Vec::new();
    assert(views(r@) =~= Seq::empty());
    match a {
        Some(v) => {
            r = crate::models::copy_strings(v);
        },
        None => {},
    }
    let ghost mid = views(r@);
    match b {
        Some(v) => {
            let mut i: usize = 0;
            while i < v.len()
                invariant
                    i <= v@.len(),
                    views(r@) == mid + views(v@).subrange(0, i as int),
                decreases v.len() - i,
            {
                proof {
                    crate::models::lemma_views_push(r@, v@[i as int]);
                }
                r.push(v[i].clone());
                assert(views(v@).subrange(0, i + 1) =~= views(v@).subrange(0, i as int).push(v@[i as int]@));
                i = i + 1;
            }
            assert(views(v@).subrange(0, v@.len() as int) =~= views(v@));
        },
        None => {
            assert(mid + Seq::empty() =~= mid);
        },
    }
    r
}

/// Extract the crypto packages of one layout of a `package-lock.json`
/// (`packages` for lockfile version 2 and later, `dependencies` for version 1).
fn package_lock_section(
    contents: &str,
    file_path: &str,
    v1: bool,
    pkg_deps: &mut Vec<(String, Vec<String>)>,
    findings: &mut Vec<CryptoAsset>,
    fs0: Ghost<Seq<CryptoAsset>>,
    recs0: Ghost<Seq<DepRecord>>,
)
    requires
        appends(fs0@, old(findings)@, file_path@, recs0@),
    ensures
        ({
            let st0 = LockState { m: assoc_view(old(pkg_deps)@), recs: recs0@ };
            let st = if v1 {
                match json_entries(contents@, "dependencies"@, seq!["requires"@]) {
                    Some(es) => lock_fold(fs0@, file_path@, st0, es, true),
                    None => st0,
                }
            } else {
                match json_entries(contents@, "packages"@, seq!["dependencies"@, "devDependencies"@]) {
                    Some(es) => lock_fold(fs0@, file_path@, st0, es, false),
                    None => st0,
                }
            };
            &&& assoc_view(final(pkg_deps)@) == st.m
            &&& appends(fs0@, final(findings)@, file_path@, st.recs)
        }),
{
    let section: &str = if v1 {
        "dependencies"
    } else {
        "packages"
    };
    let fields: Vec<&str> = if v1 {
        vec!["requires"]
    } else {
        vec!["dependencies", "devDependencies"]
    };
    assert(strs(fields@) =~= if v1 { seq!["requires"@] } else { seq!["dependencies"@, "devDependencies"@] });
    let ghost st0 = LockState { m: assoc_view(pkg_deps@), recs: recs0@ };
    match json_object_entries(contents, section, fields.as_slice()) {
        Some(entries) => {
            let ghost ev = entries_view(entries@);
            let mut i: usize = 0;
            while i < entries.len()
                invariant
                    i <= entries@.len(),
                    ev == entries_view(entries@),
                    forall|k: int| 0 <= k < entries@.len() ==> (#[trigger] entries@[k]).fields@.len() == fields@.len(),
                    fields@.len() == if v1 { 1int } else { 2int },
                    assoc_view(pkg_deps@) == lock_fold(fs0@, file_path@, st0, ev.subrange(0, i as int), v1).m,
                    appends(fs0@, findings@, file_path@, lock_fold(fs0@, file_path@, st0, ev.subrange(0, i as int), v1).recs),
                decreases entries.len() - i,
            {
                let ghost before = findings@;
                let ghost prev = lock_fold(fs0@, file_path@, st0, ev.subrange(0, i as int), v1);
                assert(ev.subrange(0, i + 1).drop_last() =~= ev.subrange(0, i as int));
                let e = &entries[i];
                assert(ev[i as int] == entry_view(*e));
                let ghost fv = e.fields@.map_values(|f: Option<Vec<String>>| opt_views(f));
                assert(fv[0] == opt_views(e.fields@[0]));
                let name: String;
                if v1 {
                    let kc = chars_of(e.key.as_str());
                    name = string_of(&kc);
                    match &e.fields[0] {
                        Some(keys) => {
                            let ks = crate::models::copy_strings(keys);
                            assoc_insert_exec(pkg_deps, string_of(&kc), ks);
                        },
                        None => {},
                    }
                } else {
                    assert(fv[1] == opt_views(e.fields@[1]));
                    let kc = chars_of(e.key.as_str());
                    let parts = split_lit(&kc, "/");
                    proof {
                        crate::text::lemma_split_nonempty(kc@, "/"@);
                        reveal_strlit("/");
                        assert("/"@ =~= seq!['/']);
                    }
                    let last = &parts[parts.len() - 1];
                    name = string_of(last);
                    let deps = concat_strings(&e.fields[0], &e.fields[1]);
                    if deps.len() > 0 {
                        assoc_insert_exec(pkg_deps, string_of(last), deps);
                    }
                }
                proof {
                    lemma_already_found_after(fs0@, before, file_path@, prev.recs, name@);
                }
                check_npm_package_with_path(name.as_str(), file_path, pkg_deps, findings);
                proof {
                    lemma_appends_trans(
                        fs0@,
                        before,
                        findings@,
                        file_path@,
                        prev.recs,
                        npm_path_check(before, name@, file_path@, assoc_view(pkg_deps@)),
                    );
                }
                i = i + 1;
            }
            assert(ev.subrange(0, ev.len() as int) =~= ev);
        },
        None => {},
    }
}

/// Parse `package-lock.json` for known crypto npm packages, with the
/// package that pulls each one in (lockfile v2/v3 `packages`, then v1
/// `dependencies`).
pub fn parse_package_lock_json(contents: &str, file_path: &str, findings: &mut Vec<CryptoAsset>)
    ensures
        appends(old(findings)@, final(findings)@, file_path@, package_lock_records(old(findings)@, file_path@, contents@)),
{
    let ghost fs0 = findings@;
    let mut pkg_deps: Vec<(String, Vec<String>)> = Vec::new();
    assert(assoc_view(pkg_deps@) =~= Seq::empty());
    proof {
        lemma_appends_nothing(findings@, file_path@);
    }
    package_lock_section(contents, file_path, false, &mut pkg_deps, findings, Ghost(fs0), Ghost(Seq::empty()));
    let ghost empty = LockState { m: Seq::empty(), recs: Seq::empty() };
    let ghost st2 = match json_entries(contents@, "packages"@, seq!["dependencies"@, "devDependencies"@]) {
        Some(es) => lock_fold(fs0, file_path@, empty, es, false),
        None => empty,
    };
    package_lock_section(contents, file_path, true, &mut pkg_deps, findings, Ghost(fs0), Ghost(st2.recs));
}

} // verus!

verus! {

// ---------------------------------------------------------------------------
// Lockfile dispatch
// ---------------------------------------------------------------------------

/// The lockfile names looked for at the root of a project, in scan order.
pub fn lockfile_names() -> (r: Vec<&'static str>)
    ensures
        strs(r@) == seq!["requirements.txt"@, "Pipfile.lock"@, "package-lock.json"@, "yarn.lock"@, "Cargo.lock"@],
{
    let r = vec!["requirements.txt", "Pipfile.lock", "package-lock.json", "yarn.lock", "Cargo.lock"];
    assert(strs(r@) =~= seq!["requirements.txt"@, "Pipfile.lock"@, "package-lock.json"@, "yarn.lock"@, "Cargo.lock"@]);
    r
}

/// The findings the lockfile named `name`, at `file` with text `text`,
/// adds to the findings `fs`.
pub open spec fn lockfile_records(name: Seq<char>, fs: Seq<CryptoAsset>, file: Seq<char>, text: Seq<char>) -> Seq<
    DepRecord,
> {
    if name == "requirements.txt"@ {
        requirement_records(lines(text))
    } else if name == "Pipfile.lock"@ {
        pipfile_records(text, "default"@) + pipfile_records(text, "develop"@)
    } else if name == "package-lock.json"@ {
        package_lock_records(fs, file, text)
    } else if name == "yarn.lock"@ {
        yarn_records(fs, file, lines(text))
    } else if name == "Cargo.lock"@ {
        cargo_records(cargo_packages(lines(text)), cargo_packages(lines(text)))
    } else {
        Seq::empty()
    }
}

/// Extract the crypto dependencies of one lockfile, chosen by its name.
pub fn scan_lockfile(filename: &str, contents: &str, path_str: &str, findings: &mut Vec<CryptoAsset>)
    ensures
        appends(
            old(findings)@,
            final(findings)@,
            path_str@,
            lockfile_records(filename@, old(findings)@, path_str@, contents@),
        ),
{
    let name = chars_of(filename);
    if is(&name, "requirements.txt") {
        parse_requirements(contents, path_str, findings);
    } else if is(&name, "Pipfile.lock") {
        parse_pipfile_lock(contents, path_str, findings);
    } else if is(&name, "package-lock.json") {
        parse_package_lock_json(contents, path_str, findings);
    } else if is(&name, "yarn.lock") {
        parse_yarn_lock(contents, path_str, findings);
    } else if is(&name, "Cargo.lock") {
        parse_cargo_lock(contents, path_str, findings);
    } else {
        proof {
            lemma_appends_nothing(findings@, path_str@);
        }
    }
}

/// A lockfile found at the root of a project: its name, its path and its text.
pub struct Lockfile {
    pub file_name: String,
    pub path: String,
    pub contents: String,
}

/// `stages` are the successive findings of scanning `files` in order.
pub open spec fn dependency_stages(files: Seq<Lockfile>, stages: Seq<Seq<CryptoAsset>>) -> bool {
    &&& stages.len() == files.len() + 1
    &&& stages[0].len() == 0
    &&& forall|i: int|
        0 <= i < files.len() ==> appends(
            #[trigger] stages[i],
            stages[i + 1],
            files[i].path@,
            lockfile_records(files[i].file_name@, stages[i], files[i].path@, files[i].contents@),
        )
}

/// Extract the cryptographic dependencies of the lockfiles found at the root
/// of a project (in the order of `lockfile_names`).
pub fn scan_dependencies(lockfiles: &Vec<Lockfile>) -> (r: Vec<CryptoAsset>)
    ensures
        exists|stages: Seq<Seq<CryptoAsset>>| dependency_stages(lockfiles@, stages) && stages.last() == r@,
{
    let mut findings: Vec<CryptoAsset> = Vec::new();
    let ghost mut stages: Seq<Seq<CryptoAsset>> = seq![findings@];
    let mut i: usize = 0;
    while i < lockfiles.len()
        invariant
            i <= lockfiles@.len(),
            stages.len() == i + 1,
            stages[0].len() == 0,
            stages.last() == findings@,
            forall|k: int|
                0 <= k < i ==> appends(
                    #[trigger] stages[k],
                    stages[k + 1],
                    lockfiles@[k].path@,
                    lockfile_records(lockfiles@[k].file_name@, stages[k], lockfiles@[k].path@, lockfiles@[k].contents@),
                ),
        decreases lockfiles.len() - i,
    {
        let lf = &lockfiles[i];
        scan_lockfile(lf.file_name.as_str(), lf.contents.as_str(), lf.path.as_str(), &mut findings);
        proof {
            let old_stages = stages;
            stages = stages.push(findings@);
            assert forall|k: int| 0 <= k < i + 1 implies appends(
                #[trigger] stages[k],
                stages[k + 1],
                lockfiles@[k].path@,
                lockfile_records(lockfiles@[k].file_name@, stages[k], lockfiles@[k].path@, lockfiles@[k].contents@),
            ) by {
                if k < i {
                    assert(stages[k] == old_stages[k] && stages[k + 1] == old_stages[k + 1]);
                }
            }
        }
        i = i + 1;
    }
    assert(dependency_stages(lockfiles@, stages));
    findings
}

/// Every finding of a dependency scan comes from a lockfile: it is marked
/// as a dependency, left unevaluated, and its algorithm starts with
/// `DEPENDENCY:`.
#[verifier::spinoff_prover]
#[verifier::rlimit(40)]
pub proof fn law_dependency_findings_are_dependencies(files: Seq<Lockfile>, stages: Seq<Seq<CryptoAsset>>)
    requires
        dependency_stages(files, stages),
    ensures
        forall|j: int|
            0 <= j < stages.last().len() ==> (#[trigger] stages.last()[j]).detection_source
                == DetectionSource::Dependency && stages.last()[j].severity == Severity::Unknown
                && has_prefix(stages.last()[j].algorithm@, "DEPENDENCY:"@),
    decreases files.len(),
{
    if files.len() > 0 {
        let n = files.len() - 1;
        let f2 = files.drop_last();
        let s2 = stages.drop_last();
        assert(dependency_stages(f2, s2)) by {
            assert forall|i: int| 0 <= i < f2.len() implies appends(
                #[trigger] s2[i],
                s2[i + 1],
                f2[i].path@,
                lockfile_records(f2[i].file_name@, s2[i], f2[i].path@, f2[i].contents@),
            ) by {
                assert(s2[i] == stages[i] && s2[i + 1] == stages[i + 1] && f2[i] == files[i]);
            }
        }
        law_dependency_findings_are_dependencies(f2, s2);
        let prev = stages[n];
        let last = stages[n + 1];
        let recs = lockfile_records(files[n].file_name@, prev, files[n].path@, files[n].contents@);
        assert(appends(stages[n], stages[n + 1], files[n].path@, recs));
        assert forall|j: int| 0 <= j < last.len() implies (#[trigger] last[j]).detection_source
            == DetectionSource::Dependency && last[j].severity == Severity::Unknown && has_prefix(
            last[j].algorithm@,
            "DEPENDENCY:"@,
        ) by {
            if j < prev.len() {
                assert(last[j] == last.subrange(0, prev.len() as int)[j]);
                assert(prev == s2.last());
            } else {
                let r = recs[j - prev.len()];
                assert(is_dependency_asset(last[prev.len() + (j - prev.len())], files[n].path@, r));
                assert(last[j].algorithm@.subrange(0, "DEPENDENCY:"@.len() as int) =~= "DEPENDENCY:"@);
            }
        }
    } else {
    }
}

/// The package `p` is not itself a known npm crypto package.
pub open spec fn plain_npm(p: Seq<char>) -> bool {
    table_lookup(npm_table(), p, NameRule::Exact) is None
}

/// The npm dependency path of a package names a package that depends on it,
/// a non-crypto one whenever there is such a parent; there is no path
/// exactly when no package depends on it.
pub proof fn law_npm_path_names_a_plain_parent(m: Seq<(Seq<char>, Seq<Seq<char>>)>, pkg: Seq<char>)
    ensures
        npm_dependency_path(m, pkg) is None <==> forall|i: int| 0 <= i < m.len() ==> !(#[trigger] m[i]).1.contains(pkg),
        npm_dependency_path(m, pkg) matches Some(t) ==> exists|i: int|
            0 <= i < m.len() && (#[trigger] m[i]).1.contains(pkg) && t == m[i].0 + " -> "@ + pkg && ((exists|
                j: int,
            | 0 <= j < m.len() && (#[trigger] m[j]).1.contains(pkg) && plain_npm(m[j].0)) ==> plain_npm(m[i].0)),
{
    let ps = parents_in(m, pkg);
    lemma_parents_in(m, pkg);
    lemma_first_plain_parent(ps, 0);
    if let Some(t) = npm_dependency_path(m, pkg) {
        let p = match first_plain_parent(ps, 0) {
            Some(q) => q,
            None => ps[0],
        };
        let k = choose|k: int| 0 <= k < ps.len() && ps[k] == p;
        assert(is_parent_in(m, pkg, ps[k]));
        let i = choose|i: int| 0 <= i < m.len() && (#[trigger] m[i]).0 == ps[k] && m[i].1.contains(pkg);
        assert(t == m[i].0 + " -> "@ + pkg);
        if exists|j: int| 0 <= j < m.len() && (#[trigger] m[j]).1.contains(pkg) && plain_npm(m[j].0) {
            let j = choose|j: int| 0 <= j < m.len() && (#[trigger] m[j]).1.contains(pkg) && plain_npm(m[j].0);
            let q = choose|q: int| 0 <= q < ps.len() && ps[q] == m[j].0;
            assert(plain_npm(ps[q]));
        }
    } else {
        if exists|i: int| 0 <= i < m.len() && (#[trigger] m[i]).1.contains(pkg) {
            let i = choose|i: int| 0 <= i < m.len() && (#[trigger] m[i]).1.contains(pkg);
            let q = choose|q: int| 0 <= q < ps.len() && ps[q] == m[i].0;
        }
    }
}

/// Some key of `m` is `p` and its dependencies list `child`.
pub open spec fn is_parent_in(m: Seq<(Seq<char>, Seq<Seq<char>>)>, child: Seq<char>, p: Seq<char>) -> bool {
    exists|i: int| 0 <= i < m.len() && (#[trigger] m[i]).0 == p && m[i].1.contains(child)
}

/// The parents are exactly the keys whose dependencies list the child.
proof fn lemma_parents_in(m: Seq<(Seq<char>, Seq<Seq<char>>)>, child: Seq<char>)
    ensures
        forall|k: int| 0 <= k < parents_in(m, child).len() ==> is_parent_in(m, child, #[trigger] parents_in(m, child)[k]),
        forall|i: int|
            0 <= i < m.len() && (#[trigger] m[i]).1.contains(child) ==> exists|k: int|
                0 <= k < parents_in(m, child).len() && parents_in(m, child)[k] == m[i].0,
    decreases m.len(),
{
    if m.len() > 0 {
        let t = m.drop_last();
        lemma_parents_in(t, child);
        let pt = parents_in(t, child);
        let pm = parents_in(m, child);
        let l = m.len() - 1;
        if m[l].1.contains(child) {
            assert(pm == pt + seq![m[l].0]);
        } else {
            assert(pm == pt);
        }
        assert forall|k: int| 0 <= k < pm.len() implies is_parent_in(m, child, #[trigger] pm[k]) by {
            if k < pt.len() {
                assert(pm[k] == pt[k]);
                assert(is_parent_in(t, child, pt[k]));
                let i = choose|i: int| 0 <= i < t.len() && (#[trigger] t[i]).0 == pt[k] && t[i].1.contains(child);
                assert(m[i] == t[i]);
            } else {
                assert(pm[k] == m[l].0);
            }
        }
        assert forall|i: int| 0 <= i < m.len() && (#[trigger] m[i]).1.contains(child) implies exists|k: int|
            0 <= k < pm.len() && pm[k] == m[i].0 by {
            if i < l {
                assert(t[i] == m[i]);
                let k = choose|k: int| 0 <= k < pt.len() && pt[k] == t[i].0;
                assert(pm[k] == pt[k]);
            } else {
                assert(pm[pt.len() as int] == m[l].0);
            }
        }
    }
}

/// The first plain parent from `i` on is a plain member of `ps`, and there
/// is none exactly when no member from `i` on is plain.
proof fn lemma_first_plain_parent(ps: Seq<Seq<char>>, i: int)
    requires
        0 <= i,
    ensures
        first_plain_parent(ps, i) matches Some(p) ==> plain_npm(p) && exists|k: int| i <= k < ps.len() && ps[k] == p,
        first_plain_parent(ps, i) is None ==> forall|k: int| i <= k < ps.len() ==> !plain_npm(#[trigger] ps[k]),
    decreases ps.len() - i,
{
    if i < ps.len() && !plain_npm(ps[i]) {
        lemma_first_plain_parent(ps, i + 1);
        if first_plain_parent(ps, i) is None {
            assert forall|k: int| i <= k < ps.len() implies !plain_npm(#[trigger] ps[k]) by {
                if k > i {
                }
            }
        }
    }
}

/// Each step of a chain goes from a crate to one of its parents.
pub open spec fn parent_steps(pkgs: Seq<(Seq<char>, Seq<Seq<char>>)>, c: Seq<Seq<char>>) -> bool {
    forall|i: int| 0 <= i < c.len() - 1 ==> parents_of(pkgs, #[trigger] c[i]).contains(c[i + 1])
}

/// The dependency chain of a crate starts at the crate, never names a crate
/// twice, goes at each step to a parent of the previous crate, and ends at a
/// crate whose parents are all already in the chain; it stops at once, and
/// the rendered path is empty, exactly when the crate has no parent other
/// than itself.
pub proof fn law_dependency_chain_climbs_parents(pkgs: Seq<(Seq<char>, Seq<Seq<char>>)>, target: Seq<char>)
    ensures
        dependency_chain(pkgs, target).len() >= 1,
        dependency_chain(pkgs, target)[0] == target,
        dependency_chain(pkgs, target).no_duplicates(),
        parent_steps(pkgs, dependency_chain(pkgs, target)),
        forall|k: int|
            0 <= k < parents_of(pkgs, dependency_chain(pkgs, target).last()).len() ==> dependency_chain(
                pkgs,
                target,
            ).contains(#[trigger] parents_of(pkgs, dependency_chain(pkgs, target).last())[k]),
        pkgs.len() > 0 ==> (dependency_path_text(pkgs, target).len() == 0 <==> forall|k: int|
            0 <= k < parents_of(pkgs, target).len() ==> #[trigger] parents_of(pkgs, target)[k] == target),
{
    let start = seq![target];
    assert(start.no_duplicates());
    lemma_walk_climbs(pkgs, start, pkgs.len());
    let c = dependency_chain(pkgs, target);
    assert(c.subrange(0, 1) == start);
    assert(c[0] == start[0]);
    let last_ps = parents_of(pkgs, c.last());
    if next_parent(pkgs, c) is Some {
        assert(c.len() == 1 + pkgs.len());
        lemma_no_fresh_name_left(pkgs, c);
        lemma_first_fresh_found(last_ps, c, false, 0);
        lemma_first_fresh_found(last_ps, c, true, 0);
        lemma_parents_are_packages(pkgs, c.last());
        if first_fresh(last_ps, c, true, 0) is Some {
            let k = choose|k: int| 0 <= k < last_ps.len() && last_ps[k] == first_fresh(last_ps, c, true, 0)->0;
            lemma_first_fresh(last_ps, c, true, 0);
            assert(package_names(pkgs).contains(last_ps[k]));
        } else {
            let k = choose|k: int| 0 <= k < last_ps.len() && last_ps[k] == first_fresh(last_ps, c, false, 0)->0;
            lemma_first_fresh(last_ps, c, false, 0);
            assert(package_names(pkgs).contains(last_ps[k]));
        }
    }
    assert(next_parent(pkgs, c) is None);
    lemma_first_fresh_found(last_ps, c, false, 0);
    assert forall|k: int| 0 <= k < last_ps.len() implies c.contains(#[trigger] last_ps[k]) by {
        assert(!(!c.contains(last_ps[k]) && (!false || table_lookup(cargo_table(), last_ps[k], NameRule::Exact) is None)));
    }
    if pkgs.len() > 0 {
        let ps = parents_of(pkgs, target);
        lemma_first_fresh_found(ps, start, true, 0);
        lemma_first_fresh_found(ps, start, false, 0);
        if c.len() > 1 {
            assert(c.reverse().len() >= 2);
            reveal_strlit(" -> ");
            assert(join(c.reverse(), " -> "@).len() >= 4);
            if forall|k: int| 0 <= k < ps.len() ==> #[trigger] ps[k] == target {
                assert(next_parent(pkgs, start) is None) by {
                    if first_fresh(ps, start, false, 0) is Some {
                        let k = choose|k: int| 0 <= k < ps.len() && ps[k] == first_fresh(ps, start, false, 0)->0;
                        lemma_first_fresh(ps, start, false, 0);
                        assert(start.contains(target));
                    }
                }
            }
        } else {
            assert(next_parent(pkgs, start) is None);
            assert forall|k: int| 0 <= k < ps.len() implies #[trigger] ps[k] == target by {
                if ps[k] != target {
                    assert(!start.contains(ps[k]));
                }
            }
        }
    }
}

/// The names of the packages, in order.
pub open spec fn package_names(pkgs: Seq<(Seq<char>, Seq<Seq<char>>)>) -> Seq<Seq<char>> {
    pkgs.map_values(|p: (Seq<char>, Seq<Seq<char>>)| p.0)
}

/// A chain without repeats whose tail holds as many package names as there
/// are packages holds every package name.
proof fn lemma_no_fresh_name_left(pkgs: Seq<(Seq<char>, Seq<Seq<char>>)>, c: Seq<Seq<char>>)
    requires
        c.len() == 1 + pkgs.len(),
        c.no_duplicates(),
        forall|k: int| 1 <= k < c.len() ==> package_names(pkgs).contains(#[trigger] c[k]),
    ensures
        forall|x: Seq<char>| package_names(pkgs).contains(x) ==> c.contains(x),
{
    let names = package_names(pkgs);
    let tail = c.drop_first();
    assert(tail.no_duplicates()) by {
        assert forall|i: int, j: int| 0 <= i < tail.len() && 0 <= j < tail.len() && i != j implies tail[i]
            != tail[j] by {
            assert(tail[i] == c[i + 1]);
            assert(tail[j] == c[j + 1]);
        }
    }
    tail.unique_seq_to_set();
    names.lemma_cardinality_of_set();
    assert(tail.to_set().subset_of(names.to_set())) by {
        assert forall|x: Seq<char>| tail.to_set().contains(x) implies names.to_set().contains(x) by {
            let i = choose|i: int| 0 <= i < tail.len() && tail[i] == x;
            assert(c[i + 1] == x);
        }
    }
    vstd::set_lib::lemma_len_subset(tail.to_set(), names.to_set());
    vstd::set_lib::lemma_subset_equality(tail.to_set(), names.to_set());
    assert forall|x: Seq<char>| names.contains(x) implies c.contains(x) by {
        assert(names.to_set().contains(x));
        assert(tail.to_set().contains(x));
        let i = choose|i: int| 0 <= i < tail.len() && tail[i] == x;
        assert(c[i + 1] == x);
    }
}

/// A search for a fresh parent finds one exactly when some member of `ps`
/// from `i` on qualifies, and what it finds is such a member.
proof fn lemma_first_fresh_found(ps: Seq<Seq<char>>, path: Seq<Seq<char>>, plain: bool, i: int)
    requires
        0 <= i,
    ensures
        first_fresh(ps, path, plain, i) matches Some(p) ==> exists|k: int| i <= k < ps.len() && ps[k] == p,
        first_fresh(ps, path, plain, i) is None ==> forall|k: int|
            i <= k < ps.len() ==> !(!path.contains(#[trigger] ps[k]) && (!plain || table_lookup(
                cargo_table(),
                ps[k],
                NameRule::Exact,
            ) is None)),
    decreases ps.len() - i,
{
    if i < ps.len() && !(!path.contains(ps[i]) && (!plain || table_lookup(cargo_table(), ps[i], NameRule::Exact) is None)) {
        lemma_first_fresh_found(ps, path, plain, i + 1);
        if first_fresh(ps, path, plain, i) is None {
            assert forall|k: int| i <= k < ps.len() implies !(!path.contains(#[trigger] ps[k]) && (!plain
                || table_lookup(cargo_table(), ps[k], NameRule::Exact) is None)) by {
                if k > i {
                }
            }
        }
    }
}

/// The walk extends its path with fresh parents, keeping the chain free of
/// repeats and made of parent steps.
proof fn lemma_walk_climbs(pkgs: Seq<(Seq<char>, Seq<Seq<char>>)>, path: Seq<Seq<char>>, fuel: nat)
    requires
        path.len() >= 1,
        path.no_duplicates(),
        parent_steps(pkgs, path),
        forall|k: int| 1 <= k < path.len() ==> package_names(pkgs).contains(#[trigger] path[k]),
    ensures
        forall|k: int|
            1 <= k < walk(pkgs, path, fuel).len() ==> package_names(pkgs).contains(
                #[trigger] walk(pkgs, path, fuel)[k],
            ),
        walk(pkgs, path, fuel).len() == path.len() + fuel || next_parent(pkgs, walk(pkgs, path, fuel)) is None,
        walk(pkgs, path, fuel).len() >= path.len(),
        walk(pkgs, path, fuel).subrange(0, path.len() as int) == path,
        walk(pkgs, path, fuel).no_duplicates(),
        parent_steps(pkgs, walk(pkgs, path, fuel)),
        walk(pkgs, path, fuel).len() == path.len() ==> (fuel == 0 || next_parent(pkgs, path) is None),
    decreases fuel,
{
    if fuel == 0 {
        assert(path.subrange(0, path.len() as int) =~= path);
    } else {
        match next_parent(pkgs, path) {
            Some(p) => {
                let ps = parents_of(pkgs, path.last());
                let plain = first_fresh(ps, path, true, 0) is Some;
                lemma_first_fresh(ps, path, plain, 0);
                lemma_first_fresh_found(ps, path, plain, 0);
                assert(!path.contains(p));
                assert(ps.contains(p));
                lemma_parents_are_packages(pkgs, path.last());
                let np = path.push(p);
                assert forall|k: int| 1 <= k < np.len() implies package_names(pkgs).contains(#[trigger] np[k]) by {
                    if k < path.len() {
                        assert(np[k] == path[k]);
                    } else {
                        let j = choose|j: int| 0 <= j < ps.len() && ps[j] == p;
                    }
                }
                assert(np.no_duplicates()) by {
                    assert forall|i: int, j: int| 0 <= i < np.len() && 0 <= j < np.len() && i != j implies np[i]
                        != np[j] by {
                        if i < path.len() && j < path.len() {
                            assert(np[i] == path[i] && np[j] == path[j]);
                        } else if i < path.len() {
                            assert(np[i] == path[i]);
                            assert(path.contains(path[i]));
                        } else if j < path.len() {
                            assert(np[j] == path[j]);
                            assert(path.contains(path[j]));
                        }
                    }
                }
                assert(parent_steps(pkgs, np)) by {
                    assert forall|i: int| 0 <= i < np.len() - 1 implies parents_of(pkgs, #[trigger] np[i]).contains(
                        np[i + 1],
                    ) by {
                        if i < path.len() - 1 {
                            assert(np[i] == path[i] && np[i + 1] == path[i + 1]);
                        } else {
                            assert(np[i] == path.last());
                        }
                    }
                }
                lemma_walk_climbs(pkgs, np, (fuel - 1) as nat);
                let w = walk(pkgs, np, (fuel - 1) as nat);
                assert(w.subrange(0, path.len() as int) =~= np.subrange(0, path.len() as int));
                assert(np.subrange(0, path.len() as int) =~= path);
            },
            None => {
                assert(path.subrange(0, path.len() as int) =~= path);
            },
        }
    }
}

} // verus!
