//! Line-by-line detectors: hardcoded secrets, insecure random number
//! generators, C includes, C# `using` directives and Go TLS settings.

use vstd::prelude::*;

use crate::detection::{
    alarm, appended, lemma_appended_nothing, lemma_appended_trans, lemma_line_detections_step,
    line_detections, plain, push_alarm, push_plain, Detection, is_detection,
};
use crate::models::{owned, views, CryptoAsset, Severity};
use crate::text::{
    chars_of, contains, contains_chars, has_prefix, has_sub, is, lines, lines_of, lower, lower_chars,
    push_str, split_by, split_lit, starts_with, starts_with_chars, strip, strip_end, strip_lit,
    strip_end_lit, strip_prefix_all, strip_prefix_all_lit, string_of, trim, trim_chars,
    lemma_split_nonempty,
};

verus! {

// ---------------------------------------------------------------------------
// Hardcoded secrets (Python and JavaScript)
// ---------------------------------------------------------------------------

/// The variable names that betray hardcoded material: (name, marker,
/// upper-cased name).
pub open spec fn secret_patterns() -> Seq<(Seq<char>, Seq<char>, Seq<char>)> {
    seq![
        ("iv"@, "HARDCODED_IV"@, "IV"@),
        ("salt"@, "HARDCODED_SALT"@, "SALT"@),
        ("key"@, "HARDCODED_KEY"@, "KEY"@),
        ("secret"@, "HARDCODED_KEY"@, "SECRET"@),
        ("nonce"@, "HARDCODED_IV"@, "NONCE"@),
    ]
}

/// Triples of literals, as characters.
pub open spec fn triples(v: Seq<(&'static str, &'static str, &'static str)>) -> Seq<(Seq<char>, Seq<char>, Seq<char>)> {
    v.map_values(|t: (&'static str, &'static str, &'static str)| (t.0@, t.1@, t.2@))
}

/// The secret patterns.
pub fn secret_pattern_list() -> (r: Vec<(&'static str, &'static str, &'static str)>)
    ensures
        triples(r@) == secret_patterns(),
{
    let r: Vec<(&'static str, &'static str, &'static str)> = vec![
        ("iv", "HARDCODED_IV", "IV"),
        ("salt", "HARDCODED_SALT", "SALT"),
        ("key", "HARDCODED_KEY", "KEY"),
        ("secret", "HARDCODED_KEY", "SECRET"),
        ("nonce", "HARDCODED_IV", "NONCE"),
    ];
    assert(triples(r@) =~= secret_patterns());
    r
}

/// The text between the first and the second `=` (`split('=').nth(1)`), or
/// nothing.
pub open spec fn second_field(t: Seq<char>) -> Seq<char> {
    let p = split_by(t, seq!['=']);
    if p.len() > 1 {
        p[1]
    } else {
        Seq::empty()
    }
}

/// The second `=`-separated field of `t`.
fn second_field_exec(t: &[char]) -> (r: Vec<char>)
    ensures
        r@ == second_field(t@),
{
    let p = split_lit(t, "=");
    proof {
        reveal_strlit("=");
        assert("="@ =~= seq!['=']);
    }
    if p.len() > 1 {
        crate::text::copy_range(&p[1], 0, p[1].len())
    } else {
        Vec::new()
    }
}

/// A Python right-hand side that is a literal byte string.
pub open spec fn py_literal_bytes(rhs: Seq<char>) -> bool {
    has_prefix(rhs, "b'"@) || has_prefix(rhs, "b\""@) || has_prefix(rhs, "bytes"@) || has_prefix(
        rhs,
        "bytearray"@,
    )
}

/// The hardcoded-secret findings of a lower-cased, trimmed Python line for
/// the given patterns.
pub open spec fn py_secret_hits(pats: Seq<(Seq<char>, Seq<char>, Seq<char>)>, t: Seq<char>, n: int) -> Seq<Detection>
    decreases pats.len(),
{
    if pats.len() == 0 {
        Seq::empty()
    } else {
        let prev = py_secret_hits(pats.drop_last(), t, n);
        let p = pats.last();
        if (has_prefix(t, p.0 + " ="@) || has_prefix(t, p.0 + "="@)) && py_literal_bytes(trim(second_field(t))) {
            prev.push(
                alarm(
                    p.1,
                    n,
                    "hardcoded"@,
                    "Hardcoded "@ + p.2 + " detected. Use secure random generation instead."@,
                ),
            )
        } else {
            prev
        }
    }
}

/// The hardcoded-secret findings of line `n` of a Python file.
pub open spec fn python_secret_rule() -> spec_fn(Seq<char>, int) -> Seq<Detection> {
    |line: Seq<char>, n: int| py_secret_hits(secret_patterns(), lower(trim(line)), n)
}

/// A JavaScript right-hand side that is literal material.
pub open spec fn js_literal_material(rhs: Seq<char>) -> bool {
    has_prefix(rhs, "buffer.from"@) || has_prefix(rhs, "buffer.alloc"@) || has_prefix(rhs, "'"@)
        || has_prefix(rhs, "\""@) || has_prefix(rhs, "new uint8array"@)
}

/// The hardcoded-secret findings of a lower-cased, trimmed JavaScript line.
pub open spec fn js_secret_hits(pats: Seq<(Seq<char>, Seq<char>, Seq<char>)>, t: Seq<char>, n: int) -> Seq<Detection>
    decreases pats.len(),
{
    if pats.len() == 0 {
        Seq::empty()
    } else {
        let prev = js_secret_hits(pats.drop_last(), t, n);
        let p = pats.last();
        if (has_sub(t, "const "@ + p.0 + " ="@) || has_sub(t, "let "@ + p.0 + " ="@) || has_sub(
            t,
            "var "@ + p.0 + " ="@,
        )) && js_literal_material(trim(second_field(t))) {
            prev.push(
                alarm(p.1, n, "hardcoded"@, "Hardcoded "@ + p.2 + " detected. Use crypto.randomBytes() instead."@),
            )
        } else {
            prev
        }
    }
}

/// The hardcoded-secret findings of line `n` of a JavaScript file.
pub open spec fn js_secret_rule() -> spec_fn(Seq<char>, int) -> Seq<Detection> {
    |line: Seq<char>, n: int| js_secret_hits(secret_patterns(), lower(trim(line)), n)
}

/// `lit` followed by `mid` followed by `lit2`.
fn concat3(lit: &str, mid: &str, lit2: &str) -> (r: Vec<char>)
    ensures
        r@ == lit@ + mid@ + lit2@,
{
    let mut v = chars_of(lit);
    push_str(&mut v, mid);
    push_str(&mut v, lit2);
    v
}

/// The hardcoded-secret findings of one Python or JavaScript line.
fn secret_line(findings: &mut Vec<CryptoAsset>, line: &[char], n: usize, file_path: &str, js: bool)
    ensures
        appended(
            old(findings)@,
            final(findings)@,
            file_path@,
            if js {
                js_secret_hits(secret_patterns(), lower(trim(line@)), n as int)
            } else {
                py_secret_hits(secret_patterns(), lower(trim(line@)), n as int)
            },
        ),
{
    let tr = trim_chars(line);
    let t = lower_chars(&tr);
    let pats = secret_pattern_list();
    let ghost start = findings@;
    let ghost pv = secret_patterns();
    proof {
        lemma_appended_nothing(start, file_path@);
    }
    let mut i: usize = 0;
    while i < pats.len()
        invariant
            i <= pats@.len(),
            triples(pats@) == pv,
            pv == secret_patterns(),
            t@ == lower(trim(line@)),
            appended(
                start,
                findings@,
                file_path@,
                if js {
                    js_secret_hits(pv.subrange(0, i as int), t@, n as int)
                } else {
                    py_secret_hits(pv.subrange(0, i as int), t@, n as int)
                },
            ),
        decreases pats.len() - i,
    {
        let (name, marker, shout) = pats[i];
        assert(pv.subrange(0, i + 1).drop_last() =~= pv.subrange(0, i as int));
        assert(pv.subrange(0, i + 1).last() == (name@, marker@, shout@));
        let rhs = trim_chars(&second_field_exec(&t));
        let hit = if js {
            let a = concat3("const ", name, " =");
            let b = concat3("let ", name, " =");
            let c = concat3("var ", name, " =");
            (contains_chars(&t, &a) || contains_chars(&t, &b) || contains_chars(&t, &c)) && (starts_with(
                &rhs,
                "buffer.from",
            ) || starts_with(&rhs, "buffer.alloc") || starts_with(&rhs, "'") || starts_with(&rhs, "\"")
                || starts_with(&rhs, "new uint8array"))
        } else {
            let a = concat3("", name, " =");
            let b = concat3("", name, "=");
            proof {
                reveal_strlit("");
                assert(""@ + name@ =~= name@);
            }
            (starts_with_chars(&t, &a) || starts_with_chars(&t, &b)) && (starts_with(&rhs, "b'")
                || starts_with(&rhs, "b\"") || starts_with(&rhs, "bytes") || starts_with(&rhs, "bytearray"))
        };
        if hit {
            let ghost before = findings@;
            let message = if js {
                concat3("Hardcoded ", shout, " detected. Use crypto.randomBytes() instead.")
            } else {
                concat3("Hardcoded ", shout, " detected. Use secure random generation instead.")
            };
            push_alarm(findings, owned(marker), file_path, n, owned("hardcoded"), string_of(&message));
            proof {
                let d = alarm(marker@, n as int, "hardcoded"@, message@);
                lemma_appended_trans(
                    start,
                    before,
                    findings@,
                    file_path@,
                    if js {
                        js_secret_hits(pv.subrange(0, i as int), t@, n as int)
                    } else {
                        py_secret_hits(pv.subrange(0, i as int), t@, n as int)
                    },
                    seq![d],
                );
            }
        }
        i = i + 1;
    }
    assert(pv.subrange(0, pats@.len() as int) =~= pv);
}

// ---------------------------------------------------------------------------
// Insecure random number generators (Java, C#)
// ---------------------------------------------------------------------------

/// The finding of line `n` of a Java file that uses `java.util.Random`.
pub open spec fn java_random_rule() -> spec_fn(Seq<char>, int) -> Seq<Detection> {
    |line: Seq<char>, n: int|
        {
            let t = trim(line);
            if has_sub(t, "java.util.Random"@) || (has_sub(t, "new Random("@) && !has_sub(t, "SecureRandom"@)) {
                seq![
                    alarm(
                        "INSECURE_PRNG"@,
                        n,
                        "java.util.Random"@,
                        "java.util.Random is NOT cryptographically secure. Use java.security.SecureRandom instead."@,
                    ),
                ]
            } else {
                Seq::empty()
            }
        }
}

/// The finding of line `n` of a C# file that creates a `System.Random`.
pub open spec fn csharp_random_rule() -> spec_fn(Seq<char>, int) -> Seq<Detection> {
    |line: Seq<char>, n: int|
        {
            let t = trim(line);
            if has_sub(t, "new Random("@) && !has_sub(t, "SecureRandom"@) && !has_sub(t, "RandomNumberGenerator"@) {
                seq![
                    alarm(
                        "INSECURE_PRNG"@,
                        n,
                        "System.Random"@,
                        "System.Random is NOT cryptographically secure. Use RandomNumberGenerator instead."@,
                    ),
                ]
            } else {
                Seq::empty()
            }
        }
}

// ---------------------------------------------------------------------------
// C includes and C# using directives
// ---------------------------------------------------------------------------

/// The algorithm label of an OpenSSL header.
pub open spec fn openssl_header_algorithm(h: Seq<char>) -> Seq<char> {
    if h == "openssl/evp.h"@ {
        "EVP (see usage)"@
    } else if h == "openssl/aes.h"@ {
        "AES"@
    } else if h == "openssl/des.h"@ {
        "DES"@
    } else if h == "openssl/sha.h"@ {
        "SHA"@
    } else if h == "openssl/md5.h"@ {
        "MD5"@
    } else if h == "openssl/rsa.h"@ {
        "RSA"@
    } else if h == "openssl/ec.h"@ {
        "ECC"@
    } else if h == "openssl/hmac.h"@ {
        "HMAC"@
    } else if h == "openssl/ssl.h"@ {
        "TLS"@
    } else if h == "openssl/rand.h"@ {
        "CSPRNG"@
    } else {
        "OPENSSL (see usage)"@
    }
}

/// The header named by an `#include` line (already trimmed).
pub open spec fn included_header(t: Seq<char>) -> Seq<char> {
    strip(trim(strip_prefix_all(t, "#include"@)), seq!['<', '>', '"'], false)
}

/// The finding of line `n` of a C or C++ file that includes a crypto header.
pub open spec fn c_include_rule() -> spec_fn(Seq<char>, int) -> Seq<Detection> {
    |line: Seq<char>, n: int|
        {
            let t = trim(line);
            let h = included_header(t);
            if !has_prefix(t, "#include"@) {
                Seq::empty()
            } else if has_prefix(h, "openssl/"@) {
                seq![plain(openssl_header_algorithm(h), n, "openssl"@)]
            } else if h == "sodium.h"@ || has_prefix(h, "sodium/"@) {
                seq![plain("LIBSODIUM (see usage)"@, n, "libsodium"@)]
            } else {
                Seq::empty()
            }
        }
}

/// The finding of line `n` of a C# file with a crypto `using` directive.
pub open spec fn csharp_using_rule() -> spec_fn(Seq<char>, int) -> Seq<Detection> {
    |line: Seq<char>, n: int|
        {
            let t = trim(line);
            let ns = trim(strip_end(strip_prefix_all(t, "using"@), seq![';'], false));
            if has_prefix(t, "using"@) && has_prefix(ns, "System.Security.Cryptography"@) {
                seq![plain("SYSTEM_CRYPTO (see usage)"@, n, "System.Security.Cryptography"@)]
            } else {
                Seq::empty()
            }
        }
}

// ---------------------------------------------------------------------------
// Go TLS configuration
// ---------------------------------------------------------------------------

/// A TLS finding of a Go file.
pub open spec fn tls_detection(
    n: int,
    protocol: Option<Seq<char>>,
    severity: Severity,
    findings: Seq<Seq<char>>,
    suites: Seq<Seq<char>>,
) -> Detection {
    Detection { severity, findings, protocol_version: protocol, cipher_suites: suites, ..plain("TLS"@, n, "crypto/tls"@) }
}

/// The finding for an explicit TLS version setting on a trimmed line.
pub open spec fn go_tls_version(t: Seq<char>, n: int) -> Seq<Detection> {
    if has_sub(t, "tls.VersionTLS10"@) || has_sub(t, "VersionTLS10"@) {
        seq![tls_detection(n, Some("TLSv1.0"@), Severity::Critical, seq!["TLS 1.0 is deprecated and insecure."@], Seq::empty())]
    } else if has_sub(t, "tls.VersionTLS11"@) || has_sub(t, "VersionTLS11"@) {
        seq![tls_detection(n, Some("TLSv1.1"@), Severity::Warning, seq!["TLS 1.1 is deprecated."@], Seq::empty())]
    } else if has_sub(t, "tls.VersionTLS12"@) || has_sub(t, "VersionTLS12"@) {
        seq![tls_detection(n, Some("TLSv1.2"@), Severity::Unknown, Seq::empty(), Seq::empty())]
    } else if has_sub(t, "tls.VersionTLS13"@) || has_sub(t, "VersionTLS13"@) {
        seq![tls_detection(n, Some("TLSv1.3"@), Severity::Unknown, Seq::empty(), Seq::empty())]
    } else {
        Seq::empty()
    }
}

/// The cipher suites that the Go TLS scanner recognises.
pub open spec fn tls_cipher_suites() -> Seq<Seq<char>> {
    seq![
        "TLS_RSA_WITH_AES_128_CBC_SHA"@,
        "TLS_RSA_WITH_AES_256_CBC_SHA"@,
        "TLS_RSA_WITH_AES_128_GCM_SHA256"@,
        "TLS_RSA_WITH_AES_256_GCM_SHA384"@,
        "TLS_ECDHE_RSA_WITH_AES_128_GCM_SHA256"@,
        "TLS_ECDHE_RSA_WITH_AES_256_GCM_SHA384"@,
        "TLS_ECDHE_ECDSA_WITH_AES_128_GCM_SHA256"@,
        "TLS_ECDHE_ECDSA_WITH_AES_256_GCM_SHA384"@,
        "TLS_CHACHA20_POLY1305_SHA256"@,
        "TLS_AES_128_GCM_SHA256"@,
        "TLS_AES_256_GCM_SHA384"@,
    ]
}

/// The recognised cipher suites.
pub fn tls_cipher_suite_list() -> (r: Vec<&'static str>)
    ensures
        crate::json::strs(r@) == tls_cipher_suites(),
{
    let r: Vec<&'static str> = vec![
        "TLS_RSA_WITH_AES_128_CBC_SHA",
        "TLS_RSA_WITH_AES_256_CBC_SHA",
        "TLS_RSA_WITH_AES_128_GCM_SHA256",
        "TLS_RSA_WITH_AES_256_GCM_SHA384",
        "TLS_ECDHE_RSA_WITH_AES_128_GCM_SHA256",
        "TLS_ECDHE_RSA_WITH_AES_256_GCM_SHA384",
        "TLS_ECDHE_ECDSA_WITH_AES_128_GCM_SHA256",
        "TLS_ECDHE_ECDSA_WITH_AES_256_GCM_SHA384",
        "TLS_CHACHA20_POLY1305_SHA256",
        "TLS_AES_128_GCM_SHA256",
        "TLS_AES_256_GCM_SHA384",
    ];
    assert(crate::json::strs(r@) =~= tls_cipher_suites());
    r
}

/// One finding per recognised suite that the trimmed line names, in the
/// order of the suites.
pub open spec fn go_suite_hits(suites: Seq<Seq<char>>, t: Seq<char>, n: int) -> Seq<Detection>
    decreases suites.len(),
{
    if suites.len() == 0 {
        Seq::empty()
    } else {
        let prev = go_suite_hits(suites.drop_last(), t, n);
        if has_sub(t, suites.last()) {
            prev.push(tls_detection(n, None, Severity::Unknown, Seq::empty(), seq![suites.last()]))
        } else {
            prev
        }
    }
}

/// The TLS findings of line `n` of a Go file: its version setting, then the
/// cipher suites it names.
pub open spec fn go_tls_rule() -> spec_fn(Seq<char>, int) -> Seq<Detection> {
    |line: Seq<char>, n: int| go_tls_version(trim(line), n) + go_suite_hits(tls_cipher_suites(), trim(line), n)
}

/// Appends a TLS finding.
fn push_tls(
    findings: &mut Vec<CryptoAsset>,
    file_path: &str,
    n: usize,
    protocol: Option<&str>,
    severity: Severity,
    message: Option<&str>,
    suite: Option<&str>,
)
    ensures
        appended(
            old(findings)@,
            final(findings)@,
            file_path@,
            seq![
                tls_detection(
                    n as int,
                    match protocol {
                        Some(p) => Some(p@),
                        None => None,
                    },
                    severity,
                    match message {
                        Some(m) => seq![m@],
                        None => Seq::empty(),
                    },
                    match suite {
                        Some(s) => seq![s@],
                        None => Seq::empty(),
                    },
                ),
            ],
        ),
{
    let mut a = CryptoAsset::new(owned("TLS"), owned(file_path), n, owned("crypto/tls"));
    a.severity = severity;
    match protocol {
        Some(p) => {
            a.protocol_version = Some(owned(p));
        },
        None => {},
    }
    match message {
        Some(m) => {
            a.findings.push(owned(m));
            assert(views(a.findings@) =~= seq![m@]);
        },
        None => {
            assert(views(a.findings@) =~= Seq::empty());
        },
    }
    match suite {
        Some(s) => {
            a.cipher_suites.push(owned(s));
            assert(views(a.cipher_suites@) =~= seq![s@]);
        },
        None => {
            assert(views(a.cipher_suites@) =~= Seq::empty());
        },
    }
    findings.push(a);
    assert(findings@.subrange(0, old(findings)@.len() as int) =~= old(findings)@);
}

/// The TLS findings of one Go line.
fn go_tls_line(findings: &mut Vec<CryptoAsset>, line: &[char], n: usize, file_path: &str)
    ensures
        appended(old(findings)@, final(findings)@, file_path@, (go_tls_rule())(line@, n as int)),
{
    let t = trim_chars(line);
    let ghost start = findings@;
    if contains(&t, "tls.VersionTLS10") || contains(&t, "VersionTLS10") {
        push_tls(findings, file_path, n, Some("TLSv1.0"), Severity::Critical, Some("TLS 1.0 is deprecated and insecure."), None);
    } else if contains(&t, "tls.VersionTLS11") || contains(&t, "VersionTLS11") {
        push_tls(findings, file_path, n, Some("TLSv1.1"), Severity::Warning, Some("TLS 1.1 is deprecated."), None);
    } else if contains(&t, "tls.VersionTLS12") || contains(&t, "VersionTLS12") {
        push_tls(findings, file_path, n, Some("TLSv1.2"), Severity::Unknown, None, None);
    } else if contains(&t, "tls.VersionTLS13") || contains(&t, "VersionTLS13") {
        push_tls(findings, file_path, n, Some("TLSv1.3"), Severity::Unknown, None, None);
    } else {
        proof {
            lemma_appended_nothing(start, file_path@);
        }
    }
    let ghost mid = findings@;
    let ghost vs = go_tls_version(t@, n as int);
    assert(appended(start, mid, file_path@, vs));
    let suites = tls_cipher_suite_list();
    let ghost sv = tls_cipher_suites();
    proof {
        lemma_appended_nothing(mid, file_path@);
    }
    let mut i: usize = 0;
    while i < suites.len()
        invariant
            i <= suites@.len(),
            crate::json::strs(suites@) == sv,
            sv == tls_cipher_suites(),
            t@ == trim(line@),
            appended(mid, findings@, file_path@, go_suite_hits(sv.subrange(0, i as int), t@, n as int)),
        decreases suites.len() - i,
    {
        assert(sv.subrange(0, i + 1).drop_last() =~= sv.subrange(0, i as int));
        assert(sv.subrange(0, i + 1).last() == suites@[i as int]@);
        let s = chars_of(suites[i]);
        if contains_chars(&t, &s) {
            let ghost before = findings@;
            push_tls(findings, file_path, n, None, Severity::Unknown, None, Some(suites[i]));
            proof {
                lemma_appended_trans(
                    mid,
                    before,
                    findings@,
                    file_path@,
                    go_suite_hits(sv.subrange(0, i as int), t@, n as int),
                    seq![tls_detection(n as int, None, Severity::Unknown, Seq::empty(), seq![suites@[i as int]@])],
                );
            }
        }
        i = i + 1;
    }
    assert(sv.subrange(0, suites@.len() as int) =~= sv);
    proof {
        lemma_appended_trans(start, mid, findings@, file_path@, vs, go_suite_hits(sv, t@, n as int));
    }
}

// ---------------------------------------------------------------------------
// The line scanners
// ---------------------------------------------------------------------------

/// The line detectors.
#[derive(Clone, Copy, PartialEq, Eq, Structural)]
pub enum LineRule {
    PythonSecrets,
    JsSecrets,
    JavaRandom,
    CIncludes,
    CSharpUsings,
    CSharpRandom,
    GoTls,
}

/// What a line detector finds on line `n`.
pub open spec fn rule_of(r: LineRule) -> spec_fn(Seq<char>, int) -> Seq<Detection> {
    match r {
        LineRule::PythonSecrets => python_secret_rule(),
        LineRule::JsSecrets => js_secret_rule(),
        LineRule::JavaRandom => java_random_rule(),
        LineRule::CIncludes => c_include_rule(),
        LineRule::CSharpUsings => csharp_using_rule(),
        LineRule::CSharpRandom => csharp_random_rule(),
        LineRule::GoTls => go_tls_rule(),
    }
}

/// The label of an OpenSSL header.
fn openssl_header_algorithm_exec(h: &[char]) -> (r: &'static str)
    ensures
        r@ == openssl_header_algorithm(h@),
{
    if is(h, "openssl/evp.h") {
        "EVP (see usage)"
    } else if is(h, "openssl/aes.h") {
        "AES"
    } else if is(h, "openssl/des.h") {
        "DES"
    } else if is(h, "openssl/sha.h") {
        "SHA"
    } else if is(h, "openssl/md5.h") {
        "MD5"
    } else if is(h, "openssl/rsa.h") {
        "RSA"
    } else if is(h, "openssl/ec.h") {
        "ECC"
    } else if is(h, "openssl/hmac.h") {
        "HMAC"
    } else if is(h, "openssl/ssl.h") {
        "TLS"
    } else if is(h, "openssl/rand.h") {
        "CSPRNG"
    } else {
        "OPENSSL (see usage)"
    }
}

/// The findings of one line under one detector.
fn scan_line(findings: &mut Vec<CryptoAsset>, line: &[char], n: usize, file_path: &str, rule: LineRule)
    ensures
        appended(old(findings)@, final(findings)@, file_path@, (rule_of(rule))(line@, n as int)),
{
    let ghost start = findings@;
    match rule {
        LineRule::PythonSecrets => secret_line(findings, line, n, file_path, false),
        LineRule::JsSecrets => secret_line(findings, line, n, file_path, true),
        LineRule::GoTls => go_tls_line(findings, line, n, file_path),
        LineRule::JavaRandom => {
            let t = trim_chars(line);
            if contains(&t, "java.util.Random") || (contains(&t, "new Random(") && !contains(&t, "SecureRandom")) {
                push_alarm(
                    findings,
                    owned("INSECURE_PRNG"),
                    file_path,
                    n,
                    owned("java.util.Random"),
                    owned("java.util.Random is NOT cryptographically secure. Use java.security.SecureRandom instead."),
                );
            } else {
                proof {
                    lemma_appended_nothing(start, file_path@);
                }
            }
        },
        LineRule::CSharpRandom => {
            let t = trim_chars(line);
            if contains(&t, "new Random(") && !contains(&t, "SecureRandom") && !contains(&t, "RandomNumberGenerator") {
                push_alarm(
                    findings,
                    owned("INSECURE_PRNG"),
                    file_path,
                    n,
                    owned("System.Random"),
                    owned("System.Random is NOT cryptographically secure. Use RandomNumberGenerator instead."),
                );
            } else {
                proof {
                    lemma_appended_nothing(start, file_path@);
                }
            }
        },
        LineRule::CIncludes => {
            let t = trim_chars(line);
            let a = strip_prefix_all_lit(&t, "#include");
            let b = trim_chars(&a);
            let h = strip_lit(&b, "<>\"");
            proof {
                reveal_strlit("<>\"");
                assert("<>\""@ =~= seq!['<', '>', '"']);
            }
            if !starts_with(&t, "#include") {
                proof {
                    lemma_appended_nothing(start, file_path@);
                }
            } else if starts_with(&h, "openssl/") {
                let algo = openssl_header_algorithm_exec(&h);
                push_plain(findings, owned(algo), file_path, n, owned("openssl"));
            } else if is(&h, "sodium.h") || starts_with(&h, "sodium/") {
                push_plain(findings, owned("LIBSODIUM (see usage)"), file_path, n, owned("libsodium"));
            } else {
                proof {
                    lemma_appended_nothing(start, file_path@);
                }
            }
        },
        LineRule::CSharpUsings => {
            let t = trim_chars(line);
            let a = strip_prefix_all_lit(&t, "using");
            let b = strip_end_lit(&a, ";");
            let ns = trim_chars(&b);
            proof {
                reveal_strlit(";");
                assert(";"@ =~= seq![';']);
            }
            if starts_with(&t, "using") && starts_with(&ns, "System.Security.Cryptography") {
                push_plain(
                    findings,
                    owned("SYSTEM_CRYPTO (see usage)"),
                    file_path,
                    n,
                    owned("System.Security.Cryptography"),
                );
            } else {
                proof {
                    lemma_appended_nothing(start, file_path@);
                }
            }
        },
    }
}

/// Runs one line detector over every line of `source`, numbering lines from 1.
pub fn scan_lines(findings: &mut Vec<CryptoAsset>, source: &str, file_path: &str, rule: LineRule)
    ensures
        appended(old(findings)@, final(findings)@, file_path@, line_detections(lines(source@), rule_of(rule))),
{
    let src = chars_of(source);
    let ls = lines_of(&src);
    let ghost all = lines(source@);
    let ghost start = findings@;
    proof {
        lemma_appended_nothing(start, file_path@);
    }
    let mut i: usize = 0;
    while i < ls.len()
        invariant
            i <= ls@.len(),
            ls@.len() == all.len(),
            forall|k: int| 0 <= k < ls@.len() ==> #[trigger] ls@[k]@ == all[k],
            appended(start, findings@, file_path@, line_detections(all.subrange(0, i as int), rule_of(rule))),
        decreases ls.len() - i,
    {
        let ghost before = findings@;
        scan_line(findings, &ls[i], i + 1, file_path, rule);
        proof {
            lemma_line_detections_step(all, i as int, rule_of(rule));
            lemma_appended_trans(
                start,
                before,
                findings@,
                file_path@,
                line_detections(all.subrange(0, i as int), rule_of(rule)),
                (rule_of(rule))(all[i as int], i + 1),
            );
        }
        i = i + 1;
    }
    assert(all.subrange(0, ls@.len() as int) =~= all);
}

/// Detect hardcoded IVs, salts and keys in Python source: lines such as
/// `iv = b'...'` or `salt = bytes(...)`.
pub fn scan_python_hardcoded_secrets(findings: &mut Vec<CryptoAsset>, source: &str, file_path: &str)
    ensures
        appended(old(findings)@, final(findings)@, file_path@, line_detections(lines(source@), python_secret_rule())),
{
    scan_lines(findings, source, file_path, LineRule::PythonSecrets)
}

/// Detect hardcoded IVs, salts and keys in JavaScript source: lines such as
/// `const iv = Buffer.from('...')` or `let key = '...'`.
pub fn scan_js_hardcoded_secrets(findings: &mut Vec<CryptoAsset>, source: &str, file_path: &str)
    ensures
        appended(old(findings)@, final(findings)@, file_path@, line_detections(lines(source@), js_secret_rule())),
{
    scan_lines(findings, source, file_path, LineRule::JsSecrets)
}

/// Detect `java.util.Random` usage (insecure PRNG).
pub fn scan_java_insecure_random(findings: &mut Vec<CryptoAsset>, source: &str, file_path: &str)
    ensures
        appended(old(findings)@, final(findings)@, file_path@, line_detections(lines(source@), java_random_rule())),
{
    scan_lines(findings, source, file_path, LineRule::JavaRandom)
}

/// Detect `#include <openssl/...>` and `#include <sodium.h>` directives.
pub fn scan_c_includes(findings: &mut Vec<CryptoAsset>, source: &str, file_path: &str)
    ensures
        appended(old(findings)@, final(findings)@, file_path@, line_detections(lines(source@), c_include_rule())),
{
    scan_lines(findings, source, file_path, LineRule::CIncludes)
}

/// Detect `using System.Security.Cryptography;` directives.
pub fn scan_csharp_usings(findings: &mut Vec<CryptoAsset>, source: &str, file_path: &str)
    ensures
        appended(old(findings)@, final(findings)@, file_path@, line_detections(lines(source@), csharp_using_rule())),
{
    scan_lines(findings, source, file_path, LineRule::CSharpUsings)
}

/// Detect `new Random()` in C# (insecure PRNG).
pub fn scan_csharp_insecure_random(findings: &mut Vec<CryptoAsset>, source: &str, file_path: &str)
    ensures
        appended(old(findings)@, final(findings)@, file_path@, line_detections(lines(source@), csharp_random_rule())),
{
    scan_lines(findings, source, file_path, LineRule::CSharpRandom)
}

/// Detect explicit TLS versions and cipher suite references in Go source.
pub fn scan_go_tls_config(findings: &mut Vec<CryptoAsset>, source: &str, file_path: &str)
    ensures
        appended(old(findings)@, final(findings)@, file_path@, line_detections(lines(source@), go_tls_rule())),
{
    scan_lines(findings, source, file_path, LineRule::GoTls)
}

// ---------------------------------------------------------------------------
// Laws
// ---------------------------------------------------------------------------

/// The detectors of hardcoded secrets and of insecure random generators.
pub open spec fn raises_alarms(r: LineRule) -> bool {
    ||| r is PythonSecrets
    ||| r is JsSecrets
    ||| r is JavaRandom
    ||| r is CSharpRandom
}

/// Every finding in `ds` is flagged critical with one explanation.
pub open spec fn all_alarms(ds: Seq<Detection>) -> bool {
    forall|i: int| 0 <= i < ds.len() ==> (#[trigger] ds[i]).severity == Severity::Critical && ds[i].findings.len() == 1
}

/// A hardcoded secret or an insecure random generator is flagged critical,
/// with one explanation, on every line where it is found.
pub proof fn law_secrets_and_weak_randomness_are_critical(r: LineRule, ls: Seq<Seq<char>>)
    requires
        raises_alarms(r),
    ensures
        all_alarms(line_detections(ls, rule_of(r))),
    decreases ls.len(),
{
    if ls.len() > 0 {
        let t = ls.drop_last();
        law_secrets_and_weak_randomness_are_critical(r, t);
        let line = ls.last();
        let n = ls.len() as int;
        match r {
            LineRule::PythonSecrets => lemma_py_hits_alarms(secret_patterns(), lower(trim(line)), n),
            LineRule::JsSecrets => lemma_js_hits_alarms(secret_patterns(), lower(trim(line)), n),
            _ => {},
        }
        let a = line_detections(t, rule_of(r));
        let b = (rule_of(r))(line, n);
        assert(all_alarms(b));
        assert forall|i: int| 0 <= i < (a + b).len() implies (#[trigger] (a + b)[i]).severity == Severity::Critical
            && (a + b)[i].findings.len() == 1 by {
            if i >= a.len() {
                assert((a + b)[i] == b[i - a.len()]);
            } else {
                assert((a + b)[i] == a[i]);
            }
        }
    }
}

/// Python secret findings are alarms.
proof fn lemma_py_hits_alarms(pats: Seq<(Seq<char>, Seq<char>, Seq<char>)>, t: Seq<char>, n: int)
    ensures
        all_alarms(py_secret_hits(pats, t, n)),
    decreases pats.len(),
{
    if pats.len() > 0 {
        lemma_py_hits_alarms(pats.drop_last(), t, n);
    }
}

/// JavaScript secret findings are alarms.
proof fn lemma_js_hits_alarms(pats: Seq<(Seq<char>, Seq<char>, Seq<char>)>, t: Seq<char>, n: int)
    ensures
        all_alarms(js_secret_hits(pats, t, n)),
    decreases pats.len(),
{
    if pats.len() > 0 {
        lemma_js_hits_alarms(pats.drop_last(), t, n);
    }
}

} // verus!
