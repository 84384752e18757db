//! The findings of the matches of call and import queries: Python calls,
//! JavaScript `require`/`import`/`crypto.*` calls, Java factories, C
//! library calls, C# factories and Go imports.

use vstd::prelude::*;

use crate::detection::{
    alarm, appended, lemma_appended_nothing, lemma_appended_trans, plain, push_alarm, push_plain,
    Detection, is_detection,
};
use crate::json::strs;
use crate::models::{opt_view, owned, views, CryptoAsset};
use crate::queries::{captures_exec, capture_rule, each_capture, each_match, CaptureRule};
use crate::scanner::{
    hashlib_algorithm_list, hashlib_algorithms, member, parse_algorithm_string, parsed_algorithm,
    quote_chars,
};
use crate::syntax::{
    capture_line, capture_line_exec, capture_text, capture_text_exec, capture_view, find_named_capture,
    match_view, named_capture, query_view, Capture, CaptureView, QueryResult, QueryView,
};
use crate::text::{
    chars_of, copy_range, has_prefix, has_sub, is, split_by, split_lit, starts_with_chars, string_of,
    strip, strip_lit, strip_prefix_all, upper, upper_chars,
};

verus! {

/// Strips the quotes around a literal.
fn unquote(s: &[char]) -> (r: Vec<char>)
    ensures
        r@ == strip(s@, quote_chars(), false),
{
    proof {
        reveal_strlit("'\"`");
        assert("'\"`"@ =~= quote_chars());
    }
    strip_lit(s, "'\"`")
}

// ---------------------------------------------------------------------------
// Python calls
// ---------------------------------------------------------------------------

/// Among the matches of the argument query, the string argument with the
/// smallest start whose call object starts at `start`: (text, start).
pub open spec fn arg_best(names: Seq<Seq<char>>, ms: Seq<Seq<CaptureView>>, start: usize) -> Option<(Seq<char>, usize)>
    decreases ms.len(),
{
    if ms.len() == 0 {
        None
    } else {
        let prev = arg_best(names, ms.drop_last(), start);
        let m = ms.last();
        match (named_capture(names, m, "obj"@), named_capture(names, m, "arg"@)) {
            (Some(o), Some(a)) => if o.3 == start && (match prev {
                None => true,
                Some(b) => a.3 < b.1,
            }) {
                Some((a.1, a.3))
            } else {
                prev
            },
            _ => prev,
        }
    }
}

/// The first string argument of the call whose object starts at `start`.
pub open spec fn first_string_arg(args: QueryView, start: usize) -> Option<Seq<char>> {
    match arg_best(args.0, args.1, start) {
        Some(b) => Some(b.0),
        None => None,
    }
}

/// The findings of a match of the Python call query `obj.method(...)`.
pub open spec fn py_call_match(names: Seq<Seq<char>>, m: Seq<CaptureView>, args: QueryView) -> Seq<Detection> {
    let obj = capture_text(names, m, "obj"@);
    let method = capture_text(names, m, "method"@);
    let line = capture_line(names, m, "obj"@);
    if obj == "hashlib"@ {
        if hashlib_algorithms().contains(method) {
            seq![plain(upper(method), line, "hashlib"@)]
        } else if method == "new"@ {
            match named_capture(names, m, "obj"@) {
                Some(o) => match first_string_arg(args, o.3) {
                    Some(a) => seq![plain(upper(strip(a, quote_chars(), false)), line, "hashlib"@)],
                    None => Seq::empty(),
                },
                None => Seq::empty(),
            }
        } else {
            Seq::empty()
        }
    } else if obj == "hmac"@ && method == "new"@ {
        seq![plain("HMAC"@, line, "hmac"@)]
    } else {
        Seq::empty()
    }
}

/// The first string argument of the call whose object starts at `start`.
fn first_string_arg_exec(args: &QueryResult, start: usize) -> (r: Option<Vec<char>>)
    ensures
        r matches Some(a) ==> first_string_arg(query_view(*args), start) == Some(a@),
        r is None ==> first_string_arg(query_view(*args), start) is None,
{
    let ghost av = query_view(*args);
    let mut best: Option<(Vec<char>, usize)> = None;
    let mut i: usize = 0;
    while i < args.1.len()
        invariant
            i <= args.1@.len(),
            av == query_view(*args),
            (match best {
                Some(b) => Some((b.0@, b.1)),
                None => None,
            }) == arg_best(av.0, av.1.subrange(0, i as int), start),
        decreases args.1.len() - i,
    {
        let m = &args.1[i];
        assert(av.1.subrange(0, i + 1).drop_last() =~= av.1.subrange(0, i as int));
        assert(av.1.subrange(0, i + 1).last() == match_view(m@));
        let o = find_named_capture(&args.0, m, "obj");
        let a = find_named_capture(&args.0, m, "arg");
        match (o, a) {
            (Some(oj), Some(aj)) => {
                let better = match &best {
                    Some(b) => m[aj].3 < b.1,
                    None => true,
                };
                if m[oj].3 == start && better {
                    best = Some((chars_of(m[aj].1.as_str()), m[aj].3));
                }
            },
            _ => {},
        }
        i = i + 1;
    }
    assert(av.1.subrange(0, args.1@.len() as int) =~= av.1);
    match best {
        Some(b) => Some(b.0),
        None => None,
    }
}

// ---------------------------------------------------------------------------
// JavaScript
// ---------------------------------------------------------------------------

/// A module name that designates Node's crypto module.
pub open spec fn node_crypto(m: Seq<char>) -> bool {
    m == "crypto"@ || m == "node:crypto"@
}

/// The `crypto` methods whose first string argument names an algorithm.
pub open spec fn js_algorithm_method(m: Seq<char>) -> bool {
    m == "createHash"@ || m == "createHmac"@ || m == "createCipheriv"@ || m == "createDecipheriv"@
        || m == "createSign"@ || m == "createVerify"@
}

/// The label of a `crypto` utility method, if it is one.
pub open spec fn js_utility_algorithm(m: Seq<char>) -> Option<Seq<char>> {
    if m == "randomBytes"@ || m == "randomFillSync"@ || m == "randomFill"@ {
        Some("CSPRNG"@)
    } else if m == "generateKeyPairSync"@ || m == "generateKeyPair"@ {
        Some("KEY_GENERATION"@)
    } else {
        None
    }
}

/// The findings of a match of `require('...')`.
pub open spec fn js_require_match(names: Seq<Seq<char>>, m: Seq<CaptureView>) -> Seq<Detection> {
    let module = strip(capture_text(names, m, "arg"@), quote_chars(), false);
    if capture_text(names, m, "func"@) == "require"@ && node_crypto(module) {
        seq![plain("CRYPTO_MODULE_IMPORT"@, capture_line(names, m, "func"@), "node:crypto"@)]
    } else {
        Seq::empty()
    }
}

/// The findings of a match of `crypto.method('algorithm', ...)`.
pub open spec fn js_crypto_call_match(names: Seq<Seq<char>>, m: Seq<CaptureView>) -> Seq<Detection> {
    let p = parsed_algorithm(strip(capture_text(names, m, "arg"@), quote_chars(), false));
    if capture_text(names, m, "obj"@) == "crypto"@ && js_algorithm_method(capture_text(names, m, "method"@)) {
        seq![
            Detection {
                key_size: p.1,
                mode: p.2,
                ..plain(p.0, capture_line(names, m, "obj"@), "node:crypto"@)
            },
        ]
    } else {
        Seq::empty()
    }
}

/// The findings of a match of `crypto.method(...)` for the utility methods.
pub open spec fn js_utility_match(names: Seq<Seq<char>>, m: Seq<CaptureView>) -> Seq<Detection> {
    match js_utility_algorithm(capture_text(names, m, "method"@)) {
        Some(a) => if capture_text(names, m, "obj"@) == "crypto"@ {
            seq![plain(a, capture_line(names, m, "obj"@), "node:crypto"@)]
        } else {
            Seq::empty()
        },
        None => Seq::empty(),
    }
}

/// The findings of a match of `import ... from '...'`.
pub open spec fn js_import_match(names: Seq<Seq<char>>, m: Seq<CaptureView>) -> Seq<Detection> {
    if node_crypto(strip(capture_text(names, m, "source"@), quote_chars(), false)) {
        seq![plain("CRYPTO_MODULE_IMPORT"@, capture_line(names, m, "source"@), "node:crypto"@)]
    } else {
        Seq::empty()
    }
}

/// The findings of a match of `Math.random()`.
pub open spec fn js_math_random_match(names: Seq<Seq<char>>, m: Seq<CaptureView>) -> Seq<Detection> {
    if capture_text(names, m, "obj"@) == "Math"@ && capture_text(names, m, "method"@) == "random"@ {
        seq![
            alarm(
                "INSECURE_PRNG"@,
                capture_line(names, m, "obj"@),
                "Math.random"@,
                "Math.random() is NOT cryptographically secure. Use crypto.randomBytes() instead."@,
            ),
        ]
    } else {
        Seq::empty()
    }
}

// ---------------------------------------------------------------------------
// Java, C, C# and Go
// ---------------------------------------------------------------------------

/// The library of a Java factory class with `getInstance`.
pub open spec fn java_factory_library(obj: Seq<char>) -> Option<Seq<char>> {
    if obj == "Cipher"@ {
        Some("javax.crypto.Cipher"@)
    } else if obj == "MessageDigest"@ {
        Some("java.security.MessageDigest"@)
    } else if obj == "KeyGenerator"@ {
        Some("javax.crypto.KeyGenerator"@)
    } else if obj == "KeyPairGenerator"@ {
        Some("java.security.KeyPairGenerator"@)
    } else if obj == "Signature"@ {
        Some("java.security.Signature"@)
    } else if obj == "Mac"@ {
        Some("javax.crypto.Mac"@)
    } else if obj == "SecretKeyFactory"@ {
        Some("javax.crypto.SecretKeyFactory"@)
    } else if obj == "KeyAgreement"@ {
        Some("javax.crypto.KeyAgreement"@)
    } else {
        None
    }
}

/// The finding of a Java transformation string such as `"AES/CBC/PKCS5Padding"`.
pub open spec fn java_transformation(raw: Seq<char>, line: int, lib: Seq<char>) -> Detection {
    let parts = split_by(raw, seq!['/']);
    Detection {
        mode: if parts.len() > 1 {
            Some(upper(parts[1]))
        } else {
            None
        },
        padding: if parts.len() > 2 {
            Some(parts[2])
        } else {
            None
        },
        ..plain(upper(parts[0]), line, lib)
    }
}

/// The findings of a match of `Obj.getInstance("...")`.
pub open spec fn java_get_instance_match(names: Seq<Seq<char>>, m: Seq<CaptureView>) -> Seq<Detection> {
    match java_factory_library(capture_text(names, m, "obj"@)) {
        Some(lib) => if capture_text(names, m, "method"@) == "getInstance"@ {
            seq![
                java_transformation(
                    strip(capture_text(names, m, "arg"@), quote_chars(), false),
                    capture_line(names, m, "obj"@),
                    lib,
                ),
            ]
        } else {
            Seq::empty()
        },
        None => Seq::empty(),
    }
}

/// Known C/C++ crypto function prefixes (OpenSSL, libsodium).
pub open spec fn c_crypto_functions() -> Seq<Seq<char>> {
    seq![
        "EVP_"@, "EVP_MD_"@, "EVP_CIPHER_"@, "EVP_PKEY_"@, "SSL_"@, "SSL_CTX_"@,
        "crypto_secretbox"@, "crypto_box"@, "crypto_sign"@, "crypto_aead"@, "crypto_hash"@,
        "crypto_auth"@, "crypto_pwhash"@, "crypto_kx"@, "crypto_kdf"@, "randombytes"@,
    ]
}

/// The C crypto function prefixes.
pub fn c_crypto_function_list() -> (r: Vec<&'static str>)
    ensures
        strs(r@) == c_crypto_functions(),
{
    let r: Vec<&'static str> = vec![
        "EVP_", "EVP_MD_", "EVP_CIPHER_", "EVP_PKEY_", "SSL_", "SSL_CTX_", "crypto_secretbox",
        "crypto_box", "crypto_sign", "crypto_aead", "crypto_hash", "crypto_auth", "crypto_pwhash",
        "crypto_kx", "crypto_kdf", "randombytes",
    ];
    assert(strs(r@) =~= c_crypto_functions());
    r
}

/// The first prefix of `ps` that `f` starts with.
pub open spec fn first_prefix(ps: Seq<Seq<char>>, f: Seq<char>) -> Option<Seq<char>>
    decreases ps.len(),
{
    if ps.len() == 0 {
        None
    } else if has_prefix(f, ps[0]) {
        Some(ps[0])
    } else {
        first_prefix(ps.subrange(1, ps.len() as int), f)
    }
}

/// (algorithm, library) of a C crypto function call with the given prefix.
pub open spec fn c_function_class(f: Seq<char>, prefix: Seq<char>) -> (Seq<char>, Seq<char>) {
    if prefix == "EVP_"@ || prefix == "EVP_MD_"@ || prefix == "EVP_CIPHER_"@ || prefix == "EVP_PKEY_"@ {
        (
            if has_sub(f, "sha"@) || has_sub(f, "SHA"@) || has_sub(f, "md"@) || has_sub(f, "Digest"@) {
                "HASHING (see usage)"@
            } else if has_sub(f, "Encrypt"@) || has_sub(f, "Cipher"@) {
                "ENCRYPTION (see usage)"@
            } else if has_sub(f, "Sign"@) {
                "DIGITAL_SIGNATURE"@
            } else {
                "EVP (see usage)"@
            },
            "openssl"@,
        )
    } else if prefix == "SSL_"@ || prefix == "SSL_CTX_"@ {
        ("TLS"@, "openssl"@)
    } else if prefix == "crypto_secretbox"@ {
        ("XSALSA20-POLY1305"@, "libsodium"@)
    } else if prefix == "crypto_box"@ {
        ("X25519-XSALSA20-POLY1305"@, "libsodium"@)
    } else if prefix == "crypto_sign"@ {
        ("ED25519"@, "libsodium"@)
    } else if prefix == "crypto_aead"@ {
        ("AEAD (see usage)"@, "libsodium"@)
    } else if prefix == "crypto_hash"@ {
        ("SHA512"@, "libsodium"@)
    } else if prefix == "crypto_auth"@ {
        ("HMAC-SHA512-256"@, "libsodium"@)
    } else if prefix == "crypto_pwhash"@ {
        ("ARGON2"@, "libsodium"@)
    } else if prefix == "crypto_kx"@ {
        ("KEY_EXCHANGE"@, "libsodium"@)
    } else if prefix == "crypto_kdf"@ {
        ("KEY_DERIVATION"@, "libsodium"@)
    } else if prefix == "randombytes"@ {
        ("CSPRNG"@, "libsodium"@)
    } else {
        ("UNKNOWN"@, "unknown"@)
    }
}

/// Classify a C crypto function call into (algorithm, library).
pub fn classify_c_function(func_name: &str, prefix: &str) -> (r: (String, String))
    ensures
        (r.0@, r.1@) == c_function_class(func_name@, prefix@),
{
    let f = chars_of(func_name);
    let p = chars_of(prefix);
    let (a, l): (&str, &str) = if is(&p, "EVP_") || is(&p, "EVP_MD_") || is(&p, "EVP_CIPHER_") || is(&p, "EVP_PKEY_") {
        let a = if crate::text::contains(&f, "sha") || crate::text::contains(&f, "SHA") || crate::text::contains(&f, "md")
            || crate::text::contains(&f, "Digest") {
            "HASHING (see usage)"
        } else if crate::text::contains(&f, "Encrypt") || crate::text::contains(&f, "Cipher") {
            "ENCRYPTION (see usage)"
        } else if crate::text::contains(&f, "Sign") {
            "DIGITAL_SIGNATURE"
        } else {
            "EVP (see usage)"
        };
        (a, "openssl")
    } else if is(&p, "SSL_") || is(&p, "SSL_CTX_") {
        ("TLS", "openssl")
    } else if is(&p, "crypto_secretbox") {
        ("XSALSA20-POLY1305", "libsodium")
    } else if is(&p, "crypto_box") {
        ("X25519-XSALSA20-POLY1305", "libsodium")
    } else if is(&p, "crypto_sign") {
        ("ED25519", "libsodium")
    } else if is(&p, "crypto_aead") {
        ("AEAD (see usage)", "libsodium")
    } else if is(&p, "crypto_hash") {
        ("SHA512", "libsodium")
    } else if is(&p, "crypto_auth") {
        ("HMAC-SHA512-256", "libsodium")
    } else if is(&p, "crypto_pwhash") {
        ("ARGON2", "libsodium")
    } else if is(&p, "crypto_kx") {
        ("KEY_EXCHANGE", "libsodium")
    } else if is(&p, "crypto_kdf") {
        ("KEY_DERIVATION", "libsodium")
    } else if is(&p, "randombytes") {
        ("CSPRNG", "libsodium")
    } else {
        ("UNKNOWN", "unknown")
    };
    (owned(a), owned(l))
}

/// The findings of a match of a C function call.
pub open spec fn c_call_match(names: Seq<Seq<char>>, m: Seq<CaptureView>) -> Seq<Detection> {
    let f = capture_text(names, m, "func"@);
    match first_prefix(c_crypto_functions(), f) {
        Some(p) => seq![plain(c_function_class(f, p).0, capture_line(names, m, "func"@), c_function_class(f, p).1)],
        None => Seq::empty(),
    }
}

/// The algorithm of a C# factory class with `Create`.
pub open spec fn csharp_factory_algorithm(obj: Seq<char>) -> Option<Seq<char>> {
    if obj == "Aes"@ {
        Some("AES"@)
    } else if obj == "DES"@ || obj == "TripleDES"@ {
        Some("DES"@)
    } else if obj == "SHA1"@ {
        Some("SHA1"@)
    } else if obj == "SHA256"@ {
        Some("SHA256"@)
    } else if obj == "SHA384"@ {
        Some("SHA384"@)
    } else if obj == "SHA512"@ {
        Some("SHA512"@)
    } else if obj == "MD5"@ {
        Some("MD5"@)
    } else if obj == "RSA"@ {
        Some("RSA"@)
    } else if obj == "ECDsa"@ {
        Some("ECDSA"@)
    } else if obj == "ECDiffieHellman"@ {
        Some("ECDH"@)
    } else if obj == "HMACSHA256"@ || obj == "HMACSHA512"@ || obj == "HMACSHA1"@ {
        Some("HMAC"@)
    } else if obj == "RandomNumberGenerator"@ {
        Some("CSPRNG"@)
    } else {
        None
    }
}

/// The findings of a match of `Obj.Create()`.
pub open spec fn csharp_create_match(names: Seq<Seq<char>>, m: Seq<CaptureView>) -> Seq<Detection> {
    match csharp_factory_algorithm(capture_text(names, m, "obj"@)) {
        Some(a) => if capture_text(names, m, "method"@) == "Create"@ {
            seq![plain(a, capture_line(names, m, "obj"@), "System.Security.Cryptography"@)]
        } else {
            Seq::empty()
        },
        None => Seq::empty(),
    }
}

/// Known Go crypto import paths.
pub open spec fn go_crypto_packages() -> Seq<Seq<char>> {
    seq![
        "crypto/aes"@, "crypto/des"@, "crypto/hmac"@, "crypto/md5"@, "crypto/sha1"@,
        "crypto/sha256"@, "crypto/sha512"@, "crypto/rsa"@, "crypto/ecdsa"@, "crypto/ed25519"@,
        "crypto/elliptic"@, "crypto/rand"@, "crypto/tls"@, "crypto/x509"@, "crypto/cipher"@,
        "golang.org/x/crypto"@,
    ]
}

/// The Go crypto packages.
pub fn go_crypto_package_list() -> (r: Vec<&'static str>)
    ensures
        strs(r@) == go_crypto_packages(),
{
    let r: Vec<&'static str> = vec![
        "crypto/aes", "crypto/des", "crypto/hmac", "crypto/md5", "crypto/sha1", "crypto/sha256",
        "crypto/sha512", "crypto/rsa", "crypto/ecdsa", "crypto/ed25519", "crypto/elliptic",
        "crypto/rand", "crypto/tls", "crypto/x509", "crypto/cipher", "golang.org/x/crypto",
    ];
    assert(strs(r@) =~= go_crypto_packages());
    r
}

/// Some package of `ps` is the import path or a prefix of it.
pub open spec fn go_package_match(ps: Seq<Seq<char>>, p: Seq<char>) -> bool {
    exists|i: int| 0 <= i < ps.len() && (p == ps[i] || has_prefix(p, #[trigger] ps[i]))
}

/// The algorithm label of a `golang.org/x/crypto` sub-package.
pub open spec fn x_crypto_algorithm(sub: Seq<char>) -> Seq<char> {
    if sub == "chacha20poly1305"@ {
        "CHACHA20-POLY1305"@
    } else if sub == "curve25519"@ {
        "X25519"@
    } else if sub == "nacl"@ || sub == "nacl/box"@ || sub == "nacl/secretbox"@ {
        "NACL"@
    } else if sub == "argon2"@ {
        "ARGON2"@
    } else if sub == "bcrypt"@ {
        "BCRYPT"@
    } else if sub == "scrypt"@ {
        "SCRYPT"@
    } else if sub == "ssh"@ {
        "SSH"@
    } else if sub == "blake2b"@ {
        "BLAKE2B"@
    } else if sub == "blake2s"@ {
        "BLAKE2S"@
    } else {
        "X_CRYPTO/"@ + upper(sub)
    }
}

/// The algorithm label of a Go import path.
pub open spec fn go_import_algorithm(p: Seq<char>) -> Seq<char> {
    if p == "crypto/aes"@ {
        "AES"@
    } else if p == "crypto/des"@ {
        "DES"@
    } else if p == "crypto/hmac"@ {
        "HMAC"@
    } else if p == "crypto/md5"@ {
        "MD5"@
    } else if p == "crypto/sha1"@ {
        "SHA1"@
    } else if p == "crypto/sha256"@ {
        "SHA256"@
    } else if p == "crypto/sha512"@ {
        "SHA512"@
    } else if p == "crypto/rsa"@ {
        "RSA"@
    } else if p == "crypto/ecdsa"@ {
        "ECDSA"@
    } else if p == "crypto/ed25519"@ {
        "ED25519"@
    } else if p == "crypto/elliptic"@ {
        "ECC"@
    } else if p == "crypto/rand"@ {
        "CSPRNG"@
    } else if p == "crypto/tls"@ {
        "TLS"@
    } else if p == "crypto/x509"@ {
        "X509"@
    } else if p == "crypto/cipher"@ {
        "CIPHER (see usage)"@
    } else if has_prefix(p, "golang.org/x/crypto"@) {
        x_crypto_algorithm(strip_prefix_all(p, "golang.org/x/crypto/"@))
    } else {
        "CRYPTO (see usage)"@
    }
}

/// Map a Go import path to an algorithm label.
pub fn algorithm_from_go_import(import_path: &str) -> (r: String)
    ensures
        r@ == go_import_algorithm(import_path@),
{
    let p = chars_of(import_path);
    let lit: Option<&str> = if is(&p, "crypto/aes") {
        Some("AES")
    } else if is(&p, "crypto/des") {
        Some("DES")
    } else if is(&p, "crypto/hmac") {
        Some("HMAC")
    } else if is(&p, "crypto/md5") {
        Some("MD5")
    } else if is(&p, "crypto/sha1") {
        Some("SHA1")
    } else if is(&p, "crypto/sha256") {
        Some("SHA256")
    } else if is(&p, "crypto/sha512") {
        Some("SHA512")
    } else if is(&p, "crypto/rsa") {
        Some("RSA")
    } else if is(&p, "crypto/ecdsa") {
        Some("ECDSA")
    } else if is(&p, "crypto/ed25519") {
        Some("ED25519")
    } else if is(&p, "crypto/elliptic") {
        Some("ECC")
    } else if is(&p, "crypto/rand") {
        Some("CSPRNG")
    } else if is(&p, "crypto/tls") {
        Some("TLS")
    } else if is(&p, "crypto/x509") {
        Some("X509")
    } else if is(&p, "crypto/cipher") {
        Some("CIPHER (see usage)")
    } else {
        None
    };
    match lit {
        Some(l) => owned(l),
        None => {
            if crate::text::starts_with(&p, "golang.org/x/crypto") {
                let sub = crate::text::strip_prefix_all_lit(&p, "golang.org/x/crypto/");
                let out: Vec<char> = if is(&sub, "chacha20poly1305") {
                    chars_of("CHACHA20-POLY1305")
                } else if is(&sub, "curve25519") {
                    chars_of("X25519")
                } else if is(&sub, "nacl") || is(&sub, "nacl/box") || is(&sub, "nacl/secretbox") {
                    chars_of("NACL")
                } else if is(&sub, "argon2") {
                    chars_of("ARGON2")
                } else if is(&sub, "bcrypt") {
                    chars_of("BCRYPT")
                } else if is(&sub, "scrypt") {
                    chars_of("SCRYPT")
                } else if is(&sub, "ssh") {
                    chars_of("SSH")
                } else if is(&sub, "blake2b") {
                    chars_of("BLAKE2B")
                } else if is(&sub, "blake2s") {
                    chars_of("BLAKE2S")
                } else {
                    let mut v = chars_of("X_CRYPTO/");
                    let u = upper_chars(&sub);
                    crate::text::push_all(&mut v, &u);
                    v
                };
                string_of(&out)
            } else {
                owned("CRYPTO (see usage)")
            }
        },
    }
}

/// The findings of a match of a Go import spec.
pub open spec fn go_import_match(names: Seq<Seq<char>>, m: Seq<CaptureView>) -> Seq<Detection> {
    let p = strip(capture_text(names, m, "path"@), quote_chars(), false);
    let line = capture_line(names, m, "path"@);
    (if go_package_match(go_crypto_packages(), p) {
        seq![plain(go_import_algorithm(p), line, p)]
    } else {
        Seq::empty()
    }) + (if p == "math/rand"@ {
        seq![
            alarm(
                "INSECURE_PRNG"@,
                line,
                "math/rand"@,
                "math/rand is NOT cryptographically secure. Use crypto/rand instead."@,
            ),
        ]
    } else {
        Seq::empty()
    })
}

// ---------------------------------------------------------------------------
// The rules of the queries
// ---------------------------------------------------------------------------

/// The rules that read query matches.
#[derive(Clone, Copy, PartialEq, Eq, Structural)]
pub enum MatchRule {
    /// A statement-level rule, applied to every capture of the match.
    Statements(CaptureRule),
    PyCalls,
    JsRequire,
    JsCryptoCalls,
    JsUtility,
    JsImports,
    JsMathRandom,
    JavaGetInstance,
    CCalls,
    CSharpCreate,
    GoImports,
}

/// What a rule finds in one match, given the query's capture names and the
/// result of the argument query (used by the Python call rule).
pub open spec fn match_rule(r: MatchRule, names: Seq<Seq<char>>, args: QueryView) -> spec_fn(Seq<CaptureView>) -> Seq<
    Detection,
> {
    match r {
        MatchRule::Statements(c) => |m: Seq<CaptureView>| each_capture(m, capture_rule(c)),
        MatchRule::PyCalls => |m: Seq<CaptureView>| py_call_match(names, m, args),
        MatchRule::JsRequire => |m: Seq<CaptureView>| js_require_match(names, m),
        MatchRule::JsCryptoCalls => |m: Seq<CaptureView>| js_crypto_call_match(names, m),
        MatchRule::JsUtility => |m: Seq<CaptureView>| js_utility_match(names, m),
        MatchRule::JsImports => |m: Seq<CaptureView>| js_import_match(names, m),
        MatchRule::JsMathRandom => |m: Seq<CaptureView>| js_math_random_match(names, m),
        MatchRule::JavaGetInstance => |m: Seq<CaptureView>| java_get_instance_match(names, m),
        MatchRule::CCalls => |m: Seq<CaptureView>| c_call_match(names, m),
        MatchRule::CSharpCreate => |m: Seq<CaptureView>| csharp_create_match(names, m),
        MatchRule::GoImports => |m: Seq<CaptureView>| go_import_match(names, m),
    }
}

/// The findings of every match of a query result under a rule.
pub open spec fn query_detections(r: MatchRule, q: QueryView, args: QueryView) -> Seq<Detection> {
    each_match(q.1, match_rule(r, q.0, args))
}

/// Appends the finding of a JavaScript algorithm string.
fn push_js_algorithm(findings: &mut Vec<CryptoAsset>, raw: &[char], line: usize, file_path: &str)
    ensures
        appended(
            old(findings)@,
            final(findings)@,
            file_path@,
            seq![
                Detection {
                    key_size: parsed_algorithm(raw@).1,
                    mode: parsed_algorithm(raw@).2,
                    ..plain(parsed_algorithm(raw@).0, line as int, "node:crypto"@)
                },
            ],
        ),
{
    let rs = string_of(raw);
    let (base, key_size, mode) = parse_algorithm_string(rs.as_str());
    let mut a = CryptoAsset::new(base, owned(file_path), line, owned("node:crypto"));
    a.key_size = key_size;
    a.mode = mode;
    assert(views(a.findings@) =~= Seq::empty());
    assert(views(a.cipher_suites@) =~= Seq::empty());
    findings.push(a);
    assert(findings@.subrange(0, old(findings)@.len() as int) =~= old(findings)@);
}

/// Appends the finding of a Java transformation string.
fn push_java_transformation(findings: &mut Vec<CryptoAsset>, raw: &[char], line: usize, lib: &str, file_path: &str)
    ensures
        appended(old(findings)@, final(findings)@, file_path@, seq![java_transformation(raw@, line as int, lib@)]),
{
    let parts = split_lit(raw, "/");
    proof {
        reveal_strlit("/");
        assert("/"@ =~= seq!['/']);
        crate::text::lemma_split_nonempty(raw@, seq!['/']);
    }
    let base = upper_chars(&parts[0]);
    let mut a = CryptoAsset::new(string_of(&base), owned(file_path), line, owned(lib));
    if parts.len() > 1 {
        let m = upper_chars(&parts[1]);
        a.mode = Some(string_of(&m));
    }
    if parts.len() > 2 {
        a.padding = Some(string_of(&parts[2]));
    }
    assert(views(a.findings@) =~= Seq::empty());
    assert(views(a.cipher_suites@) =~= Seq::empty());
    findings.push(a);
    assert(findings@.subrange(0, old(findings)@.len() as int) =~= old(findings)@);
}

/// The first C crypto prefix that `f` starts with.
fn c_prefix_exec(f: &[char]) -> (r: Option<&'static str>)
    ensures
        r matches Some(p) ==> first_prefix(c_crypto_functions(), f@) == Some(p@),
        r is None ==> first_prefix(c_crypto_functions(), f@) is None,
{
    let ps = c_crypto_function_list();
    let ghost pv = c_crypto_functions();
    let mut i: usize = 0;
    assert(pv.subrange(0, pv.len() as int) =~= pv);
    while i < ps.len()
        invariant
            i <= ps@.len(),
            strs(ps@) == pv,
            pv == c_crypto_functions(),
            first_prefix(pv, f@) == first_prefix(pv.subrange(i as int, pv.len() as int), f@),
        decreases ps.len() - i,
    {
        let ghost rest = pv.subrange(i as int, pv.len() as int);
        assert(rest[0] == ps@[i as int]@);
        assert(rest.subrange(1, rest.len() as int) =~= pv.subrange(i + 1, pv.len() as int));
        let p = chars_of(ps[i]);
        if starts_with_chars(f, &p) {
            return Some(ps[i]);
        }
        i = i + 1;
    }
    None
}

/// The algorithm of a C# factory class.
fn csharp_factory_exec(obj: &[char]) -> (r: Option<&'static str>)
    ensures
        r matches Some(a) ==> csharp_factory_algorithm(obj@) == Some(a@),
        r is None ==> csharp_factory_algorithm(obj@) is None,
{
    if is(obj, "Aes") {
        Some("AES")
    } else if is(obj, "DES") || is(obj, "TripleDES") {
        Some("DES")
    } else if is(obj, "SHA1") {
        Some("SHA1")
    } else if is(obj, "SHA256") {
        Some("SHA256")
    } else if is(obj, "SHA384") {
        Some("SHA384")
    } else if is(obj, "SHA512") {
        Some("SHA512")
    } else if is(obj, "MD5") {
        Some("MD5")
    } else if is(obj, "RSA") {
        Some("RSA")
    } else if is(obj, "ECDsa") {
        Some("ECDSA")
    } else if is(obj, "ECDiffieHellman") {
        Some("ECDH")
    } else if is(obj, "HMACSHA256") || is(obj, "HMACSHA512") || is(obj, "HMACSHA1") {
        Some("HMAC")
    } else if is(obj, "RandomNumberGenerator") {
        Some("CSPRNG")
    } else {
        None
    }
}

/// The library of a Java factory class.
fn java_factory_exec(obj: &[char]) -> (r: Option<&'static str>)
    ensures
        r matches Some(l) ==> java_factory_library(obj@) == Some(l@),
        r is None ==> java_factory_library(obj@) is None,
{
    if is(obj, "Cipher") {
        Some("javax.crypto.Cipher")
    } else if is(obj, "MessageDigest") {
        Some("java.security.MessageDigest")
    } else if is(obj, "KeyGenerator") {
        Some("javax.crypto.KeyGenerator")
    } else if is(obj, "KeyPairGenerator") {
        Some("java.security.KeyPairGenerator")
    } else if is(obj, "Signature") {
        Some("java.security.Signature")
    } else if is(obj, "Mac") {
        Some("javax.crypto.Mac")
    } else if is(obj, "SecretKeyFactory") {
        Some("javax.crypto.SecretKeyFactory")
    } else if is(obj, "KeyAgreement") {
        Some("javax.crypto.KeyAgreement")
    } else {
        None
    }
}

/// Whether some Go crypto package is the path or a prefix of it.
fn go_package_match_exec(p: &[char]) -> (r: bool)
    ensures
        r == go_package_match(go_crypto_packages(), p@),
{
    let ps = go_crypto_package_list();
    let ghost pv = go_crypto_packages();
    let mut i: usize = 0;
    while i < ps.len()
        invariant
            i <= ps@.len(),
            strs(ps@) == pv,
            pv == go_crypto_packages(),
            forall|k: int| 0 <= k < i ==> !(p@ == pv[k] || has_prefix(p@, #[trigger] pv[k])),
        decreases ps.len() - i,
    {
        let q = chars_of(ps[i]);
        assert(pv[i as int] == ps@[i as int]@);
        if crate::text::same(p, &q) || starts_with_chars(p, &q) {
            return true;
        }
        i = i + 1;
    }
    false
}

/// The findings of one match under a rule.
fn match_exec(
    findings: &mut Vec<CryptoAsset>,
    names: &Vec<String>,
    m: &Vec<Capture>,
    args: &QueryResult,
    file_path: &str,
    rule: MatchRule,
)
    ensures
        appended(
            old(findings)@,
            final(findings)@,
            file_path@,
            (match_rule(rule, views(names@), query_view(*args)))(match_view(m@)),
        ),
{
    let ghost start = findings@;
    proof {
        lemma_appended_nothing(start, file_path@);
    }
    match rule {
        MatchRule::Statements(c) => {
            captures_exec(findings, m, file_path, c);
        },
        MatchRule::PyCalls => {
            let obj = capture_text_exec(names, m, "obj");
            let method = capture_text_exec(names, m, "method");
            let line = capture_line_exec(names, m, "obj");
            if is(&obj, "hashlib") {
                let algos = hashlib_algorithm_list();
                if member(&algos, &method) {
                    let u = upper_chars(&method);
                    push_plain(findings, string_of(&u), file_path, line, owned("hashlib"));
                } else if is(&method, "new") {
                    match find_named_capture(names, m, "obj") {
                        Some(oj) => {
                            match first_string_arg_exec(args, m[oj].3) {
                                Some(a) => {
                                    let q = unquote(&a);
                                    let u = upper_chars(&q);
                                    push_plain(findings, string_of(&u), file_path, line, owned("hashlib"));
                                },
                                None => {},
                            }
                        },
                        None => {},
                    }
                }
            } else if is(&obj, "hmac") && is(&method, "new") {
                push_plain(findings, owned("HMAC"), file_path, line, owned("hmac"));
            }
        },
        MatchRule::JsRequire => {
            let func = capture_text_exec(names, m, "func");
            let arg = capture_text_exec(names, m, "arg");
            let module = unquote(&arg);
            if is(&func, "require") && (is(&module, "crypto") || is(&module, "node:crypto")) {
                let line = capture_line_exec(names, m, "func");
                push_plain(findings, owned("CRYPTO_MODULE_IMPORT"), file_path, line, owned("node:crypto"));
            }
        },
        MatchRule::JsCryptoCalls => {
            let obj = capture_text_exec(names, m, "obj");
            let method = capture_text_exec(names, m, "method");
            if is(&obj, "crypto") && (is(&method, "createHash") || is(&method, "createHmac") || is(
                &method,
                "createCipheriv",
            ) || is(&method, "createDecipheriv") || is(&method, "createSign") || is(&method, "createVerify")) {
                let arg = capture_text_exec(names, m, "arg");
                let raw = unquote(&arg);
                let line = capture_line_exec(names, m, "obj");
                push_js_algorithm(findings, &raw, line, file_path);
            }
        },
        MatchRule::JsUtility => {
            let obj = capture_text_exec(names, m, "obj");
            let method = capture_text_exec(names, m, "method");
            let algo: Option<&str> = if is(&method, "randomBytes") || is(&method, "randomFillSync") || is(
                &method,
                "randomFill",
            ) {
                Some("CSPRNG")
            } else if is(&method, "generateKeyPairSync") || is(&method, "generateKeyPair") {
                Some("KEY_GENERATION")
            } else {
                None
            };
            match algo {
                Some(a) => {
                    if is(&obj, "crypto") {
                        let line = capture_line_exec(names, m, "obj");
                        push_plain(findings, owned(a), file_path, line, owned("node:crypto"));
                    }
                },
                None => {},
            }
        },
        MatchRule::JsImports => {
            let src = capture_text_exec(names, m, "source");
            let module = unquote(&src);
            if is(&module, "crypto") || is(&module, "node:crypto") {
                let line = capture_line_exec(names, m, "source");
                push_plain(findings, owned("CRYPTO_MODULE_IMPORT"), file_path, line, owned("node:crypto"));
            }
        },
        MatchRule::JsMathRandom => {
            let obj = capture_text_exec(names, m, "obj");
            let method = capture_text_exec(names, m, "method");
            if is(&obj, "Math") && is(&method, "random") {
                let line = capture_line_exec(names, m, "obj");
                push_alarm(
                    findings,
                    owned("INSECURE_PRNG"),
                    file_path,
                    line,
                    owned("Math.random"),
                    owned("Math.random() is NOT cryptographically secure. Use crypto.randomBytes() instead."),
                );
            }
        },
        MatchRule::JavaGetInstance => {
            let obj = capture_text_exec(names, m, "obj");
            let method = capture_text_exec(names, m, "method");
            match java_factory_exec(&obj) {
                Some(lib) => {
                    if is(&method, "getInstance") {
                        let arg = capture_text_exec(names, m, "arg");
                        let raw = unquote(&arg);
                        let line = capture_line_exec(names, m, "obj");
                        push_java_transformation(findings, &raw, line, lib, file_path);
                    }
                },
                None => {},
            }
        },
        MatchRule::CCalls => {
            let f = capture_text_exec(names, m, "func");
            match c_prefix_exec(&f) {
                Some(p) => {
                    let fs = string_of(&f);
                    let (a, l) = classify_c_function(fs.as_str(), p);
                    let line = capture_line_exec(names, m, "func");
                    push_plain(findings, a, file_path, line, l);
                },
                None => {},
            }
        },
        MatchRule::CSharpCreate => {
            let obj = capture_text_exec(names, m, "obj");
            let method = capture_text_exec(names, m, "method");
            match csharp_factory_exec(&obj) {
                Some(a) => {
                    if is(&method, "Create") {
                        let line = capture_line_exec(names, m, "obj");
                        push_plain(findings, owned(a), file_path, line, owned("System.Security.Cryptography"));
                    }
                },
                None => {},
            }
        },
        MatchRule::GoImports => {
            let text = capture_text_exec(names, m, "path");
            let p = unquote(&text);
            let line = capture_line_exec(names, m, "path");
            let ps = string_of(&p);
            let ghost d1 = if go_package_match(go_crypto_packages(), p@) {
                seq![plain(go_import_algorithm(p@), line as int, p@)]
            } else {
                Seq::<Detection>::empty()
            };
            if go_package_match_exec(&p) {
                let algo = algorithm_from_go_import(ps.as_str());
                push_plain(findings, algo, file_path, line, string_of(&p));
            }
            let ghost mid = findings@;
            if is(&p, "math/rand") {
                push_alarm(
                    findings,
                    owned("INSECURE_PRNG"),
                    file_path,
                    line,
                    owned("math/rand"),
                    owned("math/rand is NOT cryptographically secure. Use crypto/rand instead."),
                );
                proof {
                    lemma_appended_trans(
                        start,
                        mid,
                        findings@,
                        file_path@,
                        d1,
                        seq![
                            alarm(
                                "INSECURE_PRNG"@,
                                line as int,
                                "math/rand"@,
                                "math/rand is NOT cryptographically secure. Use crypto/rand instead."@,
                            ),
                        ],
                    );
                }
            } else {
                assert(d1 + Seq::<Detection>::empty() =~= d1);
            }
        },
    }
}

/// The findings of every match of a query result under a rule, appended in
/// the order of the matches.
pub fn scan_query(findings: &mut Vec<CryptoAsset>, q: &QueryResult, args: &QueryResult, file_path: &str, rule: MatchRule)
    ensures
        appended(old(findings)@, final(findings)@, file_path@, query_detections(rule, query_view(*q), query_view(*args))),
{
    let ghost qv = query_view(*q);
    let ghost f = match_rule(rule, qv.0, query_view(*args));
    let ghost start = findings@;
    proof {
        lemma_appended_nothing(start, file_path@);
    }
    let mut i: usize = 0;
    while i < q.1.len()
        invariant
            i <= q.1@.len(),
            qv == query_view(*q),
            f == match_rule(rule, qv.0, query_view(*args)),
            appended(start, findings@, file_path@, each_match(qv.1.subrange(0, i as int), f)),
        decreases q.1.len() - i,
    {
        assert(qv.1.subrange(0, i + 1).drop_last() =~= qv.1.subrange(0, i as int));
        assert(qv.1.subrange(0, i + 1).last() == match_view(q.1@[i as int]@));
        let ghost before = findings@;
        match_exec(findings, &q.0, &q.1[i], args, file_path, rule);
        proof {
            lemma_appended_trans(
                start,
                before,
                findings@,
                file_path@,
                each_match(qv.1.subrange(0, i as int), f),
                f(match_view(q.1@[i as int]@)),
            );
        }
        i = i + 1;
    }
    assert(qv.1.subrange(0, q.1@.len() as int) =~= qv.1);
}

// ---------------------------------------------------------------------------
// Laws
// ---------------------------------------------------------------------------

/// The labels of the standard-library packages named after their algorithm.
proof fn lemma_go_std_labels()
    ensures
        go_import_algorithm("crypto/aes"@) == "AES"@,
        go_import_algorithm("crypto/des"@) == "DES"@,
        go_import_algorithm("crypto/hmac"@) == "HMAC"@,
        go_import_algorithm("crypto/md5"@) == "MD5"@,
        go_import_algorithm("crypto/sha1"@) == "SHA1"@,
        go_import_algorithm("crypto/sha256"@) == "SHA256"@,
        go_import_algorithm("crypto/sha512"@) == "SHA512"@,
        go_import_algorithm("crypto/rsa"@) == "RSA"@,
        go_import_algorithm("crypto/ecdsa"@) == "ECDSA"@,
        go_import_algorithm("crypto/ed25519"@) == "ED25519"@,
{
    reveal_strlit("crypto/aes");
    reveal_strlit("crypto/des");
    reveal_strlit("crypto/hmac");
    reveal_strlit("crypto/md5");
    reveal_strlit("crypto/sha1");
    reveal_strlit("crypto/sha256");
    reveal_strlit("crypto/sha512");
    reveal_strlit("crypto/rsa");
    reveal_strlit("crypto/ecdsa");
    reveal_strlit("crypto/ed25519");
    reveal_strlit("AES");
    reveal_strlit("DES");
    reveal_strlit("HMAC");
    reveal_strlit("MD5");
    reveal_strlit("SHA1");
    reveal_strlit("SHA256");
    reveal_strlit("SHA512");
    reveal_strlit("RSA");
    reveal_strlit("ECDSA");
    reveal_strlit("ED25519");
    assert("crypto/des"@[7] != "crypto/aes"@[7]);
    assert("crypto/hmac"@.len() != "crypto/aes"@.len());
    assert("crypto/hmac"@.len() != "crypto/des"@.len());
    assert("crypto/md5"@[7] != "crypto/aes"@[7]);
    assert("crypto/md5"@[7] != "crypto/des"@[7]);
    assert("crypto/md5"@.len() != "crypto/hmac"@.len());
    assert("crypto/sha1"@.len() != "crypto/aes"@.len());
    assert("crypto/sha1"@.len() != "crypto/des"@.len());
    assert("crypto/sha1"@[7] != "crypto/hmac"@[7]);
    assert("crypto/sha1"@.len() != "crypto/md5"@.len());
    assert("crypto/sha256"@.len() != "crypto/aes"@.len());
    assert("crypto/sha256"@.len() != "crypto/des"@.len());
    assert("crypto/sha256"@.len() != "crypto/hmac"@.len());
    assert("crypto/sha256"@.len() != "crypto/md5"@.len());
    assert("crypto/sha256"@.len() != "crypto/sha1"@.len());
    assert("crypto/sha512"@.len() != "crypto/aes"@.len());
    assert("crypto/sha512"@.len() != "crypto/des"@.len());
    assert("crypto/sha512"@.len() != "crypto/hmac"@.len());
    assert("crypto/sha512"@.len() != "crypto/md5"@.len());
    assert("crypto/sha512"@.len() != "crypto/sha1"@.len());
    assert("crypto/sha512"@[10] != "crypto/sha256"@[10]);
    assert("crypto/rsa"@[7] != "crypto/aes"@[7]);
    assert("crypto/rsa"@[7] != "crypto/des"@[7]);
    assert("crypto/rsa"@.len() != "crypto/hmac"@.len());
    assert("crypto/rsa"@[7] != "crypto/md5"@[7]);
    assert("crypto/rsa"@.len() != "crypto/sha1"@.len());
    assert("crypto/rsa"@.len() != "crypto/sha256"@.len());
    assert("crypto/rsa"@.len() != "crypto/sha512"@.len());
    assert("crypto/ecdsa"@.len() != "crypto/aes"@.len());
    assert("crypto/ecdsa"@.len() != "crypto/des"@.len());
    assert("crypto/ecdsa"@.len() != "crypto/hmac"@.len());
    assert("crypto/ecdsa"@.len() != "crypto/md5"@.len());
    assert("crypto/ecdsa"@.len() != "crypto/sha1"@.len());
    assert("crypto/ecdsa"@.len() != "crypto/sha256"@.len());
    assert("crypto/ecdsa"@.len() != "crypto/sha512"@.len());
    assert("crypto/ecdsa"@.len() != "crypto/rsa"@.len());
    assert("crypto/ed25519"@.len() != "crypto/aes"@.len());
    assert("crypto/ed25519"@.len() != "crypto/des"@.len());
    assert("crypto/ed25519"@.len() != "crypto/hmac"@.len());
    assert("crypto/ed25519"@.len() != "crypto/md5"@.len());
    assert("crypto/ed25519"@.len() != "crypto/sha1"@.len());
    assert("crypto/ed25519"@.len() != "crypto/sha256"@.len());
    assert("crypto/ed25519"@.len() != "crypto/sha512"@.len());
    assert("crypto/ed25519"@.len() != "crypto/rsa"@.len());
    assert("crypto/ed25519"@.len() != "crypto/ecdsa"@.len());
}

/// The Go standard-library crypto packages that are named after their
/// algorithm.
pub open spec fn go_algorithm_packages() -> Seq<Seq<char>> {
    seq!["aes"@, "des"@, "hmac"@, "md5"@, "sha1"@, "sha256"@, "sha512"@, "rsa"@, "ecdsa"@, "ed25519"@]
}

/// The label of a Go standard-library crypto package named after its
/// algorithm is that name upper-cased (`crypto/des` is `DES`, `crypto/md5`
/// is `MD5`, ...), so the broken `des`, `md5` and `sha1` packages get a
/// deprecated label.
pub proof fn law_go_package_label_is_its_algorithm(x: Seq<char>)
    requires
        go_algorithm_packages().contains(x),
    ensures
        go_import_algorithm("crypto/"@ + x) == crate::text::ascii_upper(x),
        (x == "des"@ || x == "md5"@ || x == "sha1"@) ==> crate::policy::deprecated(go_import_algorithm("crypto/"@ + x)),
{
    reveal_strlit("crypto/");
    reveal_strlit("aes");
    reveal_strlit("des");
    reveal_strlit("hmac");
    reveal_strlit("md5");
    reveal_strlit("sha1");
    reveal_strlit("sha256");
    reveal_strlit("sha512");
    reveal_strlit("rsa");
    reveal_strlit("ecdsa");
    reveal_strlit("ed25519");
    reveal_strlit("crypto/aes");
    reveal_strlit("crypto/des");
    reveal_strlit("crypto/hmac");
    reveal_strlit("crypto/md5");
    reveal_strlit("crypto/sha1");
    reveal_strlit("crypto/sha256");
    reveal_strlit("crypto/sha512");
    reveal_strlit("crypto/rsa");
    reveal_strlit("crypto/ecdsa");
    reveal_strlit("crypto/ed25519");
    reveal_strlit("AES");
    reveal_strlit("DES");
    reveal_strlit("HMAC");
    reveal_strlit("MD5");
    reveal_strlit("SHA1");
    reveal_strlit("SHA256");
    reveal_strlit("SHA512");
    reveal_strlit("RSA");
    reveal_strlit("ECDSA");
    reveal_strlit("ED25519");
    lemma_go_std_labels();
    let k = choose|k: int| 0 <= k < go_algorithm_packages().len() && go_algorithm_packages()[k] == x;
    if k == 0 {
        assert("crypto/"@ + x =~= "crypto/aes"@);
        assert(crate::text::ascii_upper(x) =~= "AES"@);
    } else if k == 1 {
        assert("crypto/"@ + x =~= "crypto/des"@);
        assert(crate::text::ascii_upper(x) =~= "DES"@);
    } else if k == 2 {
        assert("crypto/"@ + x =~= "crypto/hmac"@);
        assert(crate::text::ascii_upper(x) =~= "HMAC"@);
    } else if k == 3 {
        assert("crypto/"@ + x =~= "crypto/md5"@);
        assert(crate::text::ascii_upper(x) =~= "MD5"@);
    } else if k == 4 {
        assert("crypto/"@ + x =~= "crypto/sha1"@);
        assert(crate::text::ascii_upper(x) =~= "SHA1"@);
    } else if k == 5 {
        assert("crypto/"@ + x =~= "crypto/sha256"@);
        assert(crate::text::ascii_upper(x) =~= "SHA256"@);
    } else if k == 6 {
        assert("crypto/"@ + x =~= "crypto/sha512"@);
        assert(crate::text::ascii_upper(x) =~= "SHA512"@);
    } else if k == 7 {
        assert("crypto/"@ + x =~= "crypto/rsa"@);
        assert(crate::text::ascii_upper(x) =~= "RSA"@);
    } else if k == 8 {
        assert("crypto/"@ + x =~= "crypto/ecdsa"@);
        assert(crate::text::ascii_upper(x) =~= "ECDSA"@);
    } else {
        assert("crypto/"@ + x =~= "crypto/ed25519"@);
        assert(crate::text::ascii_upper(x) =~= "ED25519"@);
    }
    if x == "md5"@ {
        assert("crypto/"@ + x =~= "crypto/md5"@);
        assert("MD5"@.subrange(0, 3) =~= "MD5"@);
        assert(crate::text::occurs_at("MD5"@, "MD5"@, 0));
    } else if x == "sha1"@ {
        assert("crypto/"@ + x =~= "crypto/sha1"@);
        assert("SHA1"@.subrange(0, 4) =~= "SHA1"@);
        assert(crate::text::occurs_at("SHA1"@, "SHA1"@, 0));
    } else if x == "des"@ {
        assert("crypto/"@ + x =~= "crypto/des"@);
    }
}

} // verus!
