//! Source scanner: the rules that turn what is found in source files
//! (imports, calls, literal algorithm strings, configuration lines) into
//! cryptographic assets, for Python, JavaScript, Java, C, C++, C# and Go.

use vstd::prelude::*;

use crate::json::strs;
use crate::models::{opt_view, views, CryptoAsset};
use crate::text::{
    chars_of, contains, find, find_chars, first_word, first_word_of, has_prefix, has_sub, is, is_whitespace,
    is_ws, matches_at, occurs_at,
    lemma_find, lower, lower_chars, push_all, push_str, same, split_by, split_chars, split_lit,
    starts_with, strip, strip_lit, string_of, trim, trim_chars, upper, upper_chars,
};

verus! {

// ---------------------------------------------------------------------------
// Decimal numbers (`str::parse::<u32>`)
// ---------------------------------------------------------------------------

/// An ASCII decimal digit.
pub open spec fn is_digit(c: char) -> bool {
    '0' <= c && c <= '9'
}

/// Every character of `s` is a decimal digit.
pub open spec fn all_digits(s: Seq<char>) -> bool {
    forall|i: int| 0 <= i < s.len() ==> is_digit(#[trigger] s[i])
}

/// The value of a string of decimal digits.
pub open spec fn digits_value(s: Seq<char>) -> nat
    decreases s.len(),
{
    if s.len() == 0 {
        0
    } else {
        digits_value(s.drop_last()) * 10 + ((s.last() as int) - 48) as nat
    }
}

/// What `str::parse::<u32>` accepts: an optional `+` followed by at least
/// one decimal digit, with a value that fits in 32 bits.
pub open spec fn parse_u32(s: Seq<char>) -> Option<u32> {
    let d = if s.len() > 0 && s[0] == '+' {
        s.subrange(1, s.len() as int)
    } else {
        s
    };
    if d.len() > 0 && all_digits(d) && digits_value(d) <= u32::MAX {
        Some(digits_value(d) as u32)
    } else {
        None
    }
}

/// A longer digit string is worth at least as much as its prefixes.
proof fn lemma_digits_prefix_le(d: Seq<char>, i: int)
    requires
        0 <= i <= d.len(),
        all_digits(d),
    ensures
        digits_value(d.subrange(0, i)) <= digits_value(d),
    decreases d.len(),
{
    if i < d.len() {
        let p = d.drop_last();
        assert(all_digits(p)) by {
            assert forall|k: int| 0 <= k < p.len() implies is_digit(#[trigger] p[k]) by {
                assert(p[k] == d[k]);
            }
        }
        lemma_digits_prefix_le(p, i);
        assert(p.subrange(0, i) =~= d.subrange(0, i));
        assert(is_digit(d[d.len() - 1]));
    } else {
        assert(d.subrange(0, i) =~= d);
    }
}

/// Parses a decimal `u32` as `str::parse` does.
pub fn parse_u32_chars(s: &[char]) -> (r: Option<u32>)
    ensures
        r == parse_u32(s@),
{
    let start: usize = if s.len() > 0 && s[0] == '+' {
        1
    } else {
        0
    };
    let ghost d = if s@.len() > 0 && s@[0] == '+' {
        s@.subrange(1, s@.len() as int)
    } else {
        s@
    };
    assert(d =~= s@.subrange(start as int, s@.len() as int));
    if start == s.len() {
        return None;
    }
    let mut v: u64 = 0;
    let mut i: usize = start;
    while i < s.len()
        invariant
            start <= i <= s@.len(),
            start == (if s@.len() > 0 && s@[0] == '+' {
                1usize
            } else {
                0usize
            }),
            d =~= s@.subrange(start as int, s@.len() as int),
            d.len() > 0,
            v == digits_value(d.subrange(0, i - start)),
            v <= u32::MAX,
            forall|k: int| 0 <= k < i - start ==> is_digit(#[trigger] d[k]),
        decreases s.len() - i,
    {
        let c = s[i];
        if !('0' <= c && c <= '9') {
            assert(!is_digit(d[i - start]));
            assert(!all_digits(d));
            assert(parse_u32(s@) is None);
            return None;
        }
        let x: u64 = (c as u32 - 48) as u64;
        assert(d.subrange(0, i - start + 1).drop_last() =~= d.subrange(0, i - start));
        v = v * 10 + x;
        if v > 4294967295u64 {
            proof {
                assert(digits_value(d.subrange(0, i - start + 1)) == v);
                if all_digits(d) {
                    lemma_digits_prefix_le(d, i - start + 1);
                    assert(digits_value(d) > u32::MAX);
                }
                let ghost dd = if s@.len() > 0 && s@[0] == '+' {
                    s@.subrange(1, s@.len() as int)
                } else {
                    s@
                };
                assert(dd == d);
                assert(parse_u32(s@) is None);
            }
            return None;
        }
        i = i + 1;
    }
    assert(d.subrange(0, i - start) =~= d);
    Some(v as u32)
}

// ---------------------------------------------------------------------------
// Algorithm strings such as "aes-256-cbc"
// ---------------------------------------------------------------------------

/// A key size written in an algorithm string: a number from 64 to 4096.
pub open spec fn key_size_part(p: Seq<char>) -> Option<u32> {
    match parse_u32(p) {
        Some(n) => if 64 <= n && n <= 4096 {
            Some(n)
        } else {
            None
        },
        None => None,
    }
}

/// An upper-cased block cipher mode of operation.
pub open spec fn is_cipher_mode(u: Seq<char>) -> bool {
    u == "CBC"@ || u == "GCM"@ || u == "ECB"@ || u == "CTR"@ || u == "CFB"@ || u == "OFB"@ || u
        == "CCM"@ || u == "XTS"@ || u == "WRAP"@
}

/// The reading of the dash-separated parts of an algorithm string, left to
/// right: key sizes and modes are taken out, the other parts are upper-cased
/// and joined with dashes into the base algorithm.
pub open spec fn algo_parts(parts: Seq<Seq<char>>) -> (Seq<char>, Option<u32>, Option<Seq<char>>)
    decreases parts.len(),
{
    if parts.len() == 0 {
        (Seq::empty(), None, None)
    } else {
        let prev = algo_parts(parts.drop_last());
        let p = parts.last();
        if key_size_part(p) is Some {
            (prev.0, key_size_part(p), prev.2)
        } else if is_cipher_mode(upper(p)) {
            (prev.0, prev.1, Some(upper(p)))
        } else if prev.0.len() == 0 {
            (upper(p), prev.1, prev.2)
        } else {
            (prev.0.push('-') + upper(p), prev.1, prev.2)
        }
    }
}

/// The (base algorithm, key size, mode) read from an algorithm string such as
/// `"aes-256-cbc"`; when no part names the algorithm, the whole string upper-cased.
pub open spec fn parsed_algorithm(s: Seq<char>) -> (Seq<char>, Option<u32>, Option<Seq<char>>) {
    let r = algo_parts(split_by(lower(s), seq!['-']));
    (
        if r.0.len() == 0 {
            upper(s)
        } else {
            r.0
        },
        r.1,
        r.2,
    )
}

/// Whether the upper-cased part is a mode of operation.
fn is_cipher_mode_exec(u: &[char]) -> (r: bool)
    ensures
        r == is_cipher_mode(u@),
{
    is(u, "CBC") || is(u, "GCM") || is(u, "ECB") || is(u, "CTR") || is(u, "CFB") || is(u, "OFB")
        || is(u, "CCM") || is(u, "XTS") || is(u, "WRAP")
}

/// Parse a compound algorithm string like `"aes-256-cbc"` or `"des-ede3-cbc"`
/// into (base algorithm, key size, mode).
pub fn parse_algorithm_string(algo_str: &str) -> (r: (String, Option<u32>, Option<String>))
    ensures
        r.0@ == parsed_algorithm(algo_str@).0,
        r.1 == parsed_algorithm(algo_str@).1,
        opt_view(r.2) == parsed_algorithm(algo_str@).2,
{
    let s = chars_of(algo_str);
    let low = lower_chars(&s);
    let parts = split_lit(&low, "-");
    proof {
        reveal_strlit("-");
        assert("-"@ =~= seq!['-']);
    }
    let ghost all = split_by(lower(algo_str@), seq!['-']);
    let mut base: Vec<char> = Vec::new();
    let mut key_size: Option<u32> = None;
    let mut mode: Option<Vec<char>> = None;
    let mut i: usize = 0;
    while i < parts.len()
        invariant
            i <= parts@.len(),
            parts@.len() == all.len(),
            forall|k: int| 0 <= k < parts@.len() ==> #[trigger] parts@[k]@ == all[k],
            base@ == algo_parts(all.subrange(0, i as int)).0,
            key_size == algo_parts(all.subrange(0, i as int)).1,
            (match mode {
                Some(m) => Some(m@),
                None => None,
            }) == algo_parts(all.subrange(0, i as int)).2,
        decreases parts.len() - i,
    {
        let part = &parts[i];
        assert(all.subrange(0, i + 1).drop_last() =~= all.subrange(0, i as int));
        assert(all.subrange(0, i + 1).last() == part@);
        let n = parse_u32_chars(part);
        let mut done = false;
        if let Some(size) = n {
            if 64 <= size && size <= 4096 {
                key_size = Some(size);
                done = true;
            }
        }
        if !done {
            let u = upper_chars(part);
            if is_cipher_mode_exec(&u) {
                mode = Some(u);
            } else {
                if base.len() > 0 {
                    base.push('-');
                }
                push_all(&mut base, &u);
            }
        }
        i = i + 1;
    }
    assert(all.subrange(0, parts@.len() as int) =~= all);
    let b = if base.len() == 0 {
        upper_chars(&s)
    } else {
        base
    };
    let m = match mode {
        Some(m) => Some(string_of(&m)),
        None => None,
    };
    (string_of(&b), key_size, m)
}

// ---------------------------------------------------------------------------
// Lists of literals
// ---------------------------------------------------------------------------

/// Whether `w` is one of the strings of `list`.
pub fn member(list: &Vec<&'static str>, w: &[char]) -> (r: bool)
    ensures
        r == strs(list@).contains(w@),
{
    let mut i: usize = 0;
    while i < list.len()
        invariant
            i <= list@.len(),
            forall|k: int| 0 <= k < i ==> list@[k]@ != w@,
        decreases list.len() - i,
    {
        let l = chars_of(list[i]);
        if same(&l, w) {
            assert(strs(list@)[i as int] == w@);
            return true;
        }
        i = i + 1;
    }
    assert forall|k: int| 0 <= k < strs(list@).len() implies strs(list@)[k] != w@ by {
        assert(strs(list@)[k] == list@[k]@);
    }
    false
}

/// Known algorithm names that appear as method calls on `hashlib`.
pub open spec fn hashlib_algorithms() -> Seq<Seq<char>> {
    seq![
        "md5"@, "sha1"@, "sha224"@, "sha256"@, "sha384"@, "sha512"@, "blake2b"@, "blake2s"@,
        "sha3_224"@, "sha3_256"@, "sha3_384"@, "sha3_512"@,
    ]
}

/// The `hashlib` algorithm names.
pub fn hashlib_algorithm_list() -> (r: Vec<&'static str>)
    ensures
        strs(r@) == hashlib_algorithms(),
{
    let r: Vec<&'static str> = vec![
        "md5", "sha1", "sha224", "sha256", "sha384", "sha512", "blake2b", "blake2s", "sha3_224",
        "sha3_256", "sha3_384", "sha3_512",
    ];
    assert(strs(r@) =~= hashlib_algorithms());
    r
}

/// Known Python modules that provide cryptographic functionality.
pub open spec fn python_crypto_modules() -> Seq<Seq<char>> {
    seq!["hashlib"@, "hmac"@, "ssl"@, "cryptography"@, "Crypto"@, "Cryptodome"@]
}

/// The Python crypto modules.
pub fn python_crypto_module_list() -> (r: Vec<&'static str>)
    ensures
        strs(r@) == python_crypto_modules(),
{
    let r: Vec<&'static str> = vec!["hashlib", "hmac", "ssl", "cryptography", "Crypto", "Cryptodome"];
    assert(strs(r@) =~= python_crypto_modules());
    r
}

// ---------------------------------------------------------------------------
// Python import statements
// ---------------------------------------------------------------------------

/// The quote characters that `strip_quotes` removes.
pub open spec fn quote_chars() -> Seq<char> {
    seq!['\'', '"', '`']
}

/// Strip surrounding quotes from a string literal (`'sha256'` becomes `sha256`).
pub fn strip_quotes(s: &str) -> (r: String)
    ensures
        r@ == strip(s@, quote_chars(), false),
{
    let c = chars_of(s);
    proof {
        reveal_strlit("'\"`");
        assert("'\"`"@ =~= quote_chars());
    }
    let t = strip_lit(&c, "'\"`");
    string_of(&t)
}

/// The first word of a piece, or the piece itself when it has none.
pub open spec fn word_or_self(s: Seq<char>) -> Seq<char> {
    match first_word(s) {
        Some(w) => w,
        None => s,
    }
}

/// The names of comma-separated pieces: each piece trimmed, cut at its
/// first white space (dropping an `as` alias), empty names left out.
pub open spec fn import_names(pieces: Seq<Seq<char>>) -> Seq<Seq<char>>
    decreases pieces.len(),
{
    if pieces.len() == 0 {
        Seq::empty()
    } else {
        let prev = import_names(pieces.drop_last());
        let w = word_or_self(trim(pieces.last()));
        if w.len() == 0 {
            prev
        } else {
            prev.push(w)
        }
    }
}

/// The modules of an `import a, b as c` statement.
pub open spec fn import_modules(text: Seq<char>) -> Seq<Seq<char>> {
    let t = trim(text);
    if has_prefix(t, "import"@) {
        import_names(split_by(t.subrange("import"@.len() as int, t.len() as int), seq![',']))
    } else {
        Seq::empty()
    }
}

/// The names of the given comma-separated pieces.
fn names_of_pieces(pieces: &Vec<Vec<char>>) -> (r: Vec<String>)
    ensures
        views(r@) == import_names(seqs_of(pieces@)),
{
    let mut r: Vec<String> = Vec::new();
    let mut i: usize = 0;
    while i < pieces.len()
        invariant
            i <= pieces@.len(),
            views(r@) == import_names(seqs_of(pieces@).subrange(0, i as int)),
        decreases pieces.len() - i,
    {
        assert(seqs_of(pieces@).subrange(0, i + 1).drop_last() =~= seqs_of(pieces@).subrange(0, i as int));
        assert(seqs_of(pieces@).subrange(0, i + 1).last() == pieces@[i as int]@);
        let t = trim_chars(&pieces[i]);
        let w = match first_word_of(&t) {
            Some(w) => w,
            None => t,
        };
        if w.len() > 0 {
            let s = string_of(&w);
            proof {
                crate::models::lemma_views_push(r@, s);
            }
            r.push(s);
        }
        i = i + 1;
    }
    assert(seqs_of(pieces@).subrange(0, pieces@.len() as int) =~= seqs_of(pieces@));
    r
}

/// The character views of character vectors.
pub open spec fn seqs_of(v: Seq<Vec<char>>) -> Seq<Seq<char>> {
    v.map_values(|w: Vec<char>| w@)
}

/// Extract module names from `import hashlib, hmac` (`["hashlib", "hmac"]`).
pub fn extract_import_modules(text: &str) -> (r: Vec<String>)
    ensures
        views(r@) == import_modules(text@),
{
    let c = chars_of(text);
    let t = trim_chars(&c);
    if !starts_with(&t, "import") {
        return Vec::new();
    }
    let kw = chars_of("import");
    let rest = crate::text::copy_range(&t, kw.len(), t.len());
    let pieces = split_lit(&rest, ",");
    proof {
        reveal_strlit(",");
        assert(","@ =~= seq![',']);
        assert(seqs_of(pieces@) =~= split_by(rest@, seq![',']));
    }
    names_of_pieces(&pieces)
}

/// The keyword `import` stands at position `k` of `s`: the word, preceded
/// by white space and followed by white space, `(`, or the end.
pub open spec fn import_keyword_at(s: Seq<char>, k: int) -> bool {
    &&& 1 <= k
    &&& occurs_at(s, "import"@, k)
    &&& is_ws(s[k - 1])
    &&& (k + 6 == s.len() || is_ws(s[k + 6]) || s[k + 6] == '(')
}

/// The first position at or after `i` where the keyword `import` stands.
pub open spec fn import_keyword_from(s: Seq<char>, i: int) -> Option<int>
    decreases s.len() - i,
{
    if i < 0 || i >= s.len() {
        None
    } else if import_keyword_at(s, i) {
        Some(i)
    } else {
        import_keyword_from(s, i + 1)
    }
}

/// The module and the names of a `from X import Y, Z` statement;
/// `None` when the text is not one.
pub open spec fn from_import(text: Seq<char>) -> Option<(Seq<char>, Seq<Seq<char>>)> {
    let t = trim(text);
    if !has_prefix(t, "from"@) {
        None
    } else {
        let rest = t.subrange("from"@.len() as int, t.len() as int);
        match import_keyword_from(rest, 0) {
            None => None,
            Some(k) => {
                let tail = rest.subrange(k + "import"@.len(), rest.len() as int);
                Some(
                    (
                        trim(rest.subrange(0, k)),
                        import_names(split_by(strip(trim(tail), seq!['(', ')'], false), seq![','])),
                    ),
                )
            },
        }
    }
}

/// The first position of the keyword `import` in `s`.
fn find_import_keyword(s: &[char]) -> (r: Option<usize>)
    ensures
        r matches Some(k) ==> k + 6 <= s@.len() && import_keyword_from(s@, 0) == Some(k as int),
        r is None ==> import_keyword_from(s@, 0) is None,
{
    let kw = chars_of("import");
    proof {
        reveal_strlit("import");
    }
    let n = s.len();
    let mut i: usize = 0;
    while i < n
        invariant
            n == s@.len(),
            i <= n,
            kw@ == "import"@,
            kw@.len() == 6,
            import_keyword_from(s@, 0) == import_keyword_from(s@, i as int),
        decreases n - i,
    {
        if i >= 1 && matches_at(s, &kw, i) && is_whitespace(s[i - 1]) {
            assert(i + 6 <= n);
            let after_ok = if i + 6 == n {
                true
            } else {
                is_whitespace(s[i + 6]) || s[i + 6] == '('
            };
            if after_ok {
                assert(import_keyword_at(s@, i as int));
                return Some(i);
            }
        }
        assert(!import_keyword_at(s@, i as int));
        i = i + 1;
    }
    None
}

/// Parse `from X import Y, Z` into `("X", ["Y", "Z"])`; handles multi-line
/// and parenthesized imports.
pub fn parse_from_import(text: &str) -> (r: Option<(String, Vec<String>)>)
    ensures
        r matches Some(p) ==> from_import(text@) == Some((p.0@, views(p.1@))),
        r is None ==> from_import(text@) is None,
{
    let c = chars_of(text);
    let t = trim_chars(&c);
    if !starts_with(&t, "from") {
        return None;
    }
    let kw = chars_of("from");
    let rest = crate::text::copy_range(&t, kw.len(), t.len());
    let k = match find_import_keyword(&rest) {
        Some(k) => k,
        None => return None,
    };
    proof {
        reveal_strlit("import");
    }
    let head = crate::text::copy_range(&rest, 0, k);
    let tail = crate::text::copy_range(&rest, k + 6, rest.len());
    let module = trim_chars(&head);
    let tt = trim_chars(&tail);
    let inner = strip_lit(&tt, "()");
    let pieces = split_lit(&inner, ",");
    proof {
        reveal_strlit("()");
        assert("()"@ =~= seq!['(', ')']);
        reveal_strlit(",");
        assert(","@ =~= seq![',']);
        assert(seqs_of(pieces@) =~= split_by(inner@, seq![',']));
    }
    let names = names_of_pieces(&pieces);
    Some((string_of(&module), names))
}

// ---------------------------------------------------------------------------
// Python module and import labels
// ---------------------------------------------------------------------------

/// The label of a bare Python crypto module import.
pub open spec fn python_module_algorithm(m: Seq<char>) -> Seq<char> {
    if m == "hashlib"@ {
        "HASHING (see usage)"@
    } else if m == "hmac"@ {
        "HMAC"@
    } else if m == "ssl"@ {
        "TLS"@
    } else if m == "cryptography"@ {
        "CRYPTOGRAPHY (see usage)"@
    } else if m == "Crypto"@ || m == "Cryptodome"@ {
        "PYCRYPTODOME (see usage)"@
    } else {
        "UNKNOWN"@
    }
}

/// Map a bare Python crypto module import to a human-readable algorithm label.
pub fn algorithm_from_python_module(module: &str) -> (r: String)
    ensures
        r@ == python_module_algorithm(module@),
{
    let m = chars_of(module);
    let lit = if is(&m, "hashlib") {
        "HASHING (see usage)"
    } else if is(&m, "hmac") {
        "HMAC"
    } else if is(&m, "ssl") {
        "TLS"
    } else if is(&m, "cryptography") {
        "CRYPTOGRAPHY (see usage)"
    } else if is(&m, "Crypto") || is(&m, "Cryptodome") {
        "PYCRYPTODOME (see usage)"
    } else {
        "UNKNOWN"
    };
    crate::models::owned(lit)
}

/// The algorithm named by `from <full_module> import <name>`, where
/// `base_module` is the first component of `full_module`.
pub open spec fn python_import_algorithm(base: Seq<char>, name: Seq<char>, full: Seq<char>) -> Seq<char> {
    if base == "hashlib"@ {
        if hashlib_algorithms().contains(lower(name)) {
            upper(name)
        } else {
            "hashlib."@ + name
        }
    } else if base == "cryptography"@ {
        upper(name)
    } else if base == "Crypto"@ || base == "Cryptodome"@ {
        if has_sub(full, "Cipher"@) || has_sub(full, "Hash"@) || has_sub(full, "PublicKey"@)
            || has_sub(full, "Signature"@) {
            upper(name)
        } else {
            base.push('.') + name
        }
    } else if base == "hmac"@ {
        "HMAC"@
    } else if base == "ssl"@ {
        "TLS"@
    } else {
        name
    }
}

/// Determine the specific algorithm from a `from X import Y` statement.
pub fn algorithm_from_python_import(base_module: &str, name: &str, full_module: &str) -> (r: String)
    ensures
        r@ == python_import_algorithm(base_module@, name@, full_module@),
{
    let b = chars_of(base_module);
    let n = chars_of(name);
    let f = chars_of(full_module);
    let out: Vec<char> = if is(&b, "hashlib") {
        let ln = lower_chars(&n);
        let algos = hashlib_algorithm_list();
        if member(&algos, &ln) {
            upper_chars(&n)
        } else {
            let mut v = chars_of("hashlib.");
            push_all(&mut v, &n);
            v
        }
    } else if is(&b, "cryptography") {
        upper_chars(&n)
    } else if is(&b, "Crypto") || is(&b, "Cryptodome") {
        if contains(&f, "Cipher") || contains(&f, "Hash") || contains(&f, "PublicKey") || contains(
            &f,
            "Signature",
        ) {
            upper_chars(&n)
        } else {
            let mut v = crate::text::copy_range(&b, 0, b.len());
            v.push('.');
            push_all(&mut v, &n);
            v
        }
    } else if is(&b, "hmac") {
        chars_of("HMAC")
    } else if is(&b, "ssl") {
        chars_of("TLS")
    } else {
        n
    };
    string_of(&out)
}

/// Known elliptic curves.
pub open spec fn known_curves() -> Seq<Seq<char>> {
    seq![
        "P-256"@, "P-384"@, "P-521"@, "prime256v1"@, "secp256r1"@, "secp384r1"@, "secp521r1"@,
        "secp256k1"@, "Curve25519"@, "Ed25519"@, "X25519"@, "curve25519"@, "ed25519"@, "x25519"@,
    ]
}

/// The known curves.
pub fn known_curve_list() -> (r: Vec<&'static str>)
    ensures
        strs(r@) == known_curves(),
{
    let r: Vec<&'static str> = vec![
        "P-256", "P-384", "P-521", "prime256v1", "secp256r1", "secp384r1", "secp521r1", "secp256k1",
        "Curve25519", "Ed25519", "X25519", "curve25519", "ed25519", "x25519",
    ];
    assert(strs(r@) =~= known_curves());
    r
}

/// The padding names an import can spell, the lower-case spellings first so
/// that the canonical spelling is the one kept when both match.
pub open spec fn known_paddings() -> Seq<Seq<char>> {
    seq![
        "pkcs7"@, "pkcs1"@, "oaep"@, "pss"@, "PKCS7"@, "PKCS1v15"@, "OAEP"@, "PSS"@, "ANSIX923"@,
        "ISO10126"@,
    ]
}

/// The known paddings.
pub fn known_padding_list() -> (r: Vec<&'static str>)
    ensures
        strs(r@) == known_paddings(),
{
    let r: Vec<&'static str> = vec![
        "pkcs7", "pkcs1", "oaep", "pss", "PKCS7", "PKCS1v15", "OAEP", "PSS", "ANSIX923", "ISO10126",
    ];
    assert(strs(r@) =~= known_paddings());
    r
}

/// The modes that an import name may spell.
pub open spec fn import_modes() -> Seq<Seq<char>> {
    seq!["GCM"@, "CBC"@, "ECB"@, "CTR"@, "CFB"@, "OFB"@, "CCM"@, "XTS"@]
}

/// The import modes.
pub fn import_mode_list() -> (r: Vec<&'static str>)
    ensures
        strs(r@) == import_modes(),
{
    let r: Vec<&'static str> = vec!["GCM", "CBC", "ECB", "CTR", "CFB", "OFB", "CCM", "XTS"];
    assert(strs(r@) =~= import_modes());
    r
}

/// The curve an imported name selects from the known curves, scanning them
/// in order: the last one whose upper-cased form occurs in the upper-cased
/// name, or that equals the name; `cur` when none does.
pub open spec fn last_curve(curves: Seq<Seq<char>>, name: Seq<char>, cur: Option<Seq<char>>) -> Option<Seq<char>>
    decreases curves.len(),
{
    if curves.len() == 0 {
        cur
    } else {
        let c = curves.last();
        if has_sub(upper(name), upper(c)) || name == c {
            Some(c)
        } else {
            last_curve(curves.drop_last(), name, cur)
        }
    }
}

/// The padding an imported name selects: the last known padding whose
/// upper-cased form occurs in the upper-cased name; `cur` when none does.
pub open spec fn last_padding(pads: Seq<Seq<char>>, name: Seq<char>, cur: Option<Seq<char>>) -> Option<Seq<char>>
    decreases pads.len(),
{
    if pads.len() == 0 {
        cur
    } else {
        let p = pads.last();
        if has_sub(upper(name), upper(p)) {
            Some(p)
        } else {
            last_padding(pads.drop_last(), name, cur)
        }
    }
}

/// The curve of an asset imported as `name` from `module`, given its curve `cur`.
pub open spec fn import_curve(module: Seq<char>, name: Seq<char>, cur: Option<Seq<char>>) -> Option<Seq<char>> {
    if has_sub(lower(module), "ec"@) || has_sub(lower(module), "curve"@) {
        let c = last_curve(known_curves(), name, cur);
        if name == "SECP256R1"@ || name == "secp256r1"@ {
            Some("P-256"@)
        } else if name == "SECP384R1"@ || name == "secp384r1"@ {
            Some("P-384"@)
        } else if name == "SECP521R1"@ || name == "secp521r1"@ {
            Some("P-521"@)
        } else {
            c
        }
    } else {
        cur
    }
}

/// The padding of an asset imported as `name` from `module`, given its padding `cur`.
pub open spec fn import_padding(module: Seq<char>, name: Seq<char>, cur: Option<Seq<char>>) -> Option<Seq<char>> {
    if has_sub(lower(module), "padding"@) || has_sub(lower(module), "asymmetric"@) {
        last_padding(known_paddings(), name, cur)
    } else {
        cur
    }
}

/// The mode of an asset imported as `name` from `module`, given its mode `cur`.
pub open spec fn import_mode(module: Seq<char>, name: Seq<char>, cur: Option<Seq<char>>) -> Option<Seq<char>> {
    if (has_sub(lower(module), "modes"@) || has_sub(lower(module), "cipher"@)) && import_modes().contains(
        upper(name),
    ) {
        Some(upper(name))
    } else {
        cur
    }
}

/// `asset` with the context of a `from module import name` import: curve,
/// padding and mode read from the import path; nothing else changes.
pub open spec fn enriched(old: CryptoAsset, new: CryptoAsset, module: Seq<char>, name: Seq<char>) -> bool {
    &&& opt_view(new.curve) == import_curve(module, name, opt_view(old.curve))
    &&& opt_view(new.padding) == import_padding(module, name, opt_view(old.padding))
    &&& opt_view(new.mode) == import_mode(module, name, opt_view(old.mode))
    &&& new.algorithm == old.algorithm
    &&& new.file_path == old.file_path
    &&& new.line_number == old.line_number
    &&& new.library_source == old.library_source
    &&& new.key_size == old.key_size
    &&& new.quantum_safe == old.quantum_safe
    &&& new.severity == old.severity
    &&& new.detection_source == old.detection_source
    &&& new.findings == old.findings
    &&& new.cert_subject == old.cert_subject
    &&& new.cert_issuer == old.cert_issuer
    &&& new.cert_expiry == old.cert_expiry
    &&& new.cert_serial == old.cert_serial
    &&& new.protocol_version == old.protocol_version
    &&& new.cipher_suites == old.cipher_suites
    &&& new.dependency_path == old.dependency_path
    &&& new.remediation == old.remediation
}

/// Enrich an asset found by `from module import name` with the curve,
/// padding and mode that the import path reveals.
pub fn enrich_python_import_context(asset: &mut CryptoAsset, module: &str, name: &str)
    ensures
        enriched(*old(asset), *final(asset), module@, name@),
{
    let m = chars_of(module);
    let n = chars_of(name);
    let ml = lower_chars(&m);
    let nu = upper_chars(&n);
    if contains(&ml, "ec") || contains(&ml, "curve") {
        let curves = known_curve_list();
        let mut i: usize = 0;
        while i < curves.len()
            invariant
                i <= curves@.len(),
                strs(curves@) == known_curves(),
                nu@ == upper(name@),
                n@ == name@,
                opt_view(asset.curve) == last_curve(known_curves().subrange(0, i as int), name@, opt_view(old(asset).curve)),
                asset.algorithm == old(asset).algorithm,
                asset.file_path == old(asset).file_path,
                asset.line_number == old(asset).line_number,
                asset.library_source == old(asset).library_source,
                asset.key_size == old(asset).key_size,
                asset.mode == old(asset).mode,
                asset.padding == old(asset).padding,
                asset.quantum_safe == old(asset).quantum_safe,
                asset.severity == old(asset).severity,
                asset.detection_source == old(asset).detection_source,
                asset.findings == old(asset).findings,
                asset.cert_subject == old(asset).cert_subject,
                asset.cert_issuer == old(asset).cert_issuer,
                asset.cert_expiry == old(asset).cert_expiry,
                asset.cert_serial == old(asset).cert_serial,
                asset.protocol_version == old(asset).protocol_version,
                asset.cipher_suites == old(asset).cipher_suites,
                asset.dependency_path == old(asset).dependency_path,
                asset.remediation == old(asset).remediation,
            decreases curves.len() - i,
        {
            let c = chars_of(curves[i]);
            let cu = upper_chars(&c);
            assert(known_curves().subrange(0, i + 1).drop_last() =~= known_curves().subrange(0, i as int));
            assert(known_curves()[i as int] == curves@[i as int]@);
            if crate::text::contains_chars(&nu, &cu) || same(&n, &c) {
                asset.curve = Some(crate::models::owned(curves[i]));
            }
            i = i + 1;
        }
        assert(known_curves().subrange(0, curves@.len() as int) =~= known_curves());
        if is(&n, "SECP256R1") || is(&n, "secp256r1") {
            asset.curve = Some(crate::models::owned("P-256"));
        } else if is(&n, "SECP384R1") || is(&n, "secp384r1") {
            asset.curve = Some(crate::models::owned("P-384"));
        } else if is(&n, "SECP521R1") || is(&n, "secp521r1") {
            asset.curve = Some(crate::models::owned("P-521"));
        }
    }
    if contains(&ml, "padding") || contains(&ml, "asymmetric") {
        let pads = known_padding_list();
        let ghost cur = opt_view(asset.curve);
        let mut i: usize = 0;
        while i < pads.len()
            invariant
                i <= pads@.len(),
                strs(pads@) == known_paddings(),
                nu@ == upper(name@),
                opt_view(asset.padding) == last_padding(known_paddings().subrange(0, i as int), name@, opt_view(old(asset).padding)),
                opt_view(asset.curve) == cur,
                asset.algorithm == old(asset).algorithm,
                asset.file_path == old(asset).file_path,
                asset.line_number == old(asset).line_number,
                asset.library_source == old(asset).library_source,
                asset.key_size == old(asset).key_size,
                asset.mode == old(asset).mode,
                asset.quantum_safe == old(asset).quantum_safe,
                asset.severity == old(asset).severity,
                asset.detection_source == old(asset).detection_source,
                asset.findings == old(asset).findings,
                asset.cert_subject == old(asset).cert_subject,
                asset.cert_issuer == old(asset).cert_issuer,
                asset.cert_expiry == old(asset).cert_expiry,
                asset.cert_serial == old(asset).cert_serial,
                asset.protocol_version == old(asset).protocol_version,
                asset.cipher_suites == old(asset).cipher_suites,
                asset.dependency_path == old(asset).dependency_path,
                asset.remediation == old(asset).remediation,
            decreases pads.len() - i,
        {
            let p = chars_of(pads[i]);
            let pu = upper_chars(&p);
            assert(known_paddings().subrange(0, i + 1).drop_last() =~= known_paddings().subrange(0, i as int));
            assert(known_paddings()[i as int] == pads@[i as int]@);
            if crate::text::contains_chars(&nu, &pu) {
                asset.padding = Some(crate::models::owned(pads[i]));
            }
            i = i + 1;
        }
        assert(known_paddings().subrange(0, pads@.len() as int) =~= known_paddings());
    }
    if contains(&ml, "modes") || contains(&ml, "cipher") {
        let modes = import_mode_list();
        if member(&modes, &nu) {
            asset.mode = Some(string_of(&nu));
        }
    }
}

// ---------------------------------------------------------------------------
// Laws
// ---------------------------------------------------------------------------

/// A key size read from an algorithm string lies between 64 and 4096 bits,
/// and a mode read from it is one of the block cipher modes.
pub proof fn law_parsed_parameters_are_plausible(s: Seq<char>)
    ensures
        parsed_algorithm(s).1 matches Some(n) ==> 64 <= n <= 4096,
        parsed_algorithm(s).2 matches Some(m) ==> is_cipher_mode(m),
{
    lemma_algo_parts_plausible(split_by(lower(s), seq!['-']));
}

/// Every key size taken out of the parts is in range; every mode is a mode.
proof fn lemma_algo_parts_plausible(parts: Seq<Seq<char>>)
    ensures
        algo_parts(parts).1 matches Some(n) ==> 64 <= n <= 4096,
        algo_parts(parts).2 matches Some(m) ==> is_cipher_mode(m),
    decreases parts.len(),
{
    if parts.len() > 0 {
        lemma_algo_parts_plausible(parts.drop_last());
    }
}

/// The part is a mode of operation and no key size.
pub open spec fn is_mode_part(p: Seq<char>) -> bool {
    key_size_part(p) is None && is_cipher_mode(upper(p))
}

/// Of the dash-separated parts of an algorithm string, the key size read is
/// that of the last part that is a number from 64 to 4096 (none when no part
/// is), and the mode read is the last part that names a mode, upper-cased
/// (none when no part does).
pub proof fn law_last_key_size_and_mode_win(s: Seq<char>)
    ensures
        ({
            let ps = split_by(lower(s), seq!['-']);
            &&& (parsed_algorithm(s).1 is None <==> forall|j: int| 0 <= j < ps.len() ==> (#[trigger] key_size_part(ps[j])) is None)
            &&& (parsed_algorithm(s).1 matches Some(n) ==> exists|k: int|
                0 <= k < ps.len() && key_size_part(ps[k]) == Some(n) && forall|j: int|
                    k < j < ps.len() ==> (#[trigger] key_size_part(ps[j])) is None)
            &&& (parsed_algorithm(s).2 is None <==> forall|j: int| 0 <= j < ps.len() ==> !is_mode_part(#[trigger] ps[j]))
            &&& (parsed_algorithm(s).2 matches Some(m) ==> exists|k: int|
                0 <= k < ps.len() && is_mode_part(ps[k]) && m == upper(ps[k]) && forall|j: int|
                    k < j < ps.len() ==> !is_mode_part(#[trigger] ps[j]))
        }),
{
    lemma_algo_parts_last(split_by(lower(s), seq!['-']));
}

/// The key size and the mode of the parts come from their last key-size
/// part and their last mode part.
proof fn lemma_algo_parts_last(ps: Seq<Seq<char>>)
    ensures
        algo_parts(ps).1 is None <==> forall|j: int| 0 <= j < ps.len() ==> (#[trigger] key_size_part(ps[j])) is None,
        algo_parts(ps).1 matches Some(n) ==> exists|k: int|
            0 <= k < ps.len() && key_size_part(ps[k]) == Some(n) && forall|j: int|
                k < j < ps.len() ==> (#[trigger] key_size_part(ps[j])) is None,
        algo_parts(ps).2 is None <==> forall|j: int| 0 <= j < ps.len() ==> !is_mode_part(#[trigger] ps[j]),
        algo_parts(ps).2 matches Some(m) ==> exists|k: int|
            0 <= k < ps.len() && is_mode_part(ps[k]) && m == upper(ps[k]) && forall|j: int|
                k < j < ps.len() ==> !is_mode_part(#[trigger] ps[j]),
    decreases ps.len(),
{
    if ps.len() > 0 {
        let t = ps.drop_last();
        let l = ps.len() - 1;
        lemma_algo_parts_last(t);
        assert forall|j: int| 0 <= j < t.len() implies t[j] == ps[j] by {}
        if key_size_part(ps[l]) is Some {
            assert(algo_parts(ps).1 == key_size_part(ps[l]));
            assert(algo_parts(ps).2 == algo_parts(t).2);
            assert(!is_mode_part(ps[l]));
            if algo_parts(ps).2 is None {
                assert forall|j: int| 0 <= j < ps.len() implies !is_mode_part(#[trigger] ps[j]) by {
                    if j < l {
                        assert(t[j] == ps[j]);
                    }
                }
            }
            if let Some(m) = algo_parts(ps).2 {
                let k = choose|k: int|
                    0 <= k < t.len() && is_mode_part(t[k]) && m == upper(t[k]) && forall|j: int|
                        k < j < t.len() ==> !is_mode_part(#[trigger] t[j]);
                assert(ps[k] == t[k]);
                assert forall|j: int| k < j < ps.len() implies !is_mode_part(#[trigger] ps[j]) by {
                    if j < l {
                        assert(t[j] == ps[j]);
                    }
                }
            }
            assert(!(forall|j: int| 0 <= j < ps.len() ==> (#[trigger] key_size_part(ps[j])) is None));
        } else {
            assert(algo_parts(ps).1 == algo_parts(t).1);
            if algo_parts(ps).1 is None {
                assert forall|j: int| 0 <= j < ps.len() implies (#[trigger] key_size_part(ps[j])) is None by {
                    if j < l {
                        assert(t[j] == ps[j]);
                    }
                }
            } else {
                if forall|j: int| 0 <= j < ps.len() ==> (#[trigger] key_size_part(ps[j])) is None {
                    assert forall|j: int| 0 <= j < t.len() implies (#[trigger] key_size_part(t[j])) is None by {
                        assert(key_size_part(ps[j]) is None);
                    }
                }
            }
            if let Some(n) = algo_parts(ps).1 {
                let k = choose|k: int|
                    0 <= k < t.len() && key_size_part(t[k]) == Some(n) && forall|j: int|
                        k < j < t.len() ==> (#[trigger] key_size_part(t[j])) is None;
                assert(ps[k] == t[k]);
                assert forall|j: int| k < j < ps.len() implies (#[trigger] key_size_part(ps[j])) is None by {
                    if j < l {
                        assert(t[j] == ps[j]);
                    }
                }
            }
            if is_mode_part(ps[l]) {
                assert(algo_parts(ps).2 == Some(upper(ps[l])));
                assert(!(forall|j: int| 0 <= j < ps.len() ==> !is_mode_part(#[trigger] ps[j])));
            } else {
                assert(algo_parts(ps).2 == algo_parts(t).2);
                if algo_parts(ps).2 is None {
                    assert forall|j: int| 0 <= j < ps.len() implies !is_mode_part(#[trigger] ps[j]) by {
                        if j < l {
                            assert(t[j] == ps[j]);
                        }
                    }
                } else {
                    if forall|j: int| 0 <= j < ps.len() ==> !is_mode_part(#[trigger] ps[j]) {
                        assert forall|j: int| 0 <= j < t.len() implies !is_mode_part(#[trigger] t[j]) by {
                            assert(!is_mode_part(ps[j]));
                        }
                    }
                }
                if let Some(m) = algo_parts(ps).2 {
                    let k = choose|k: int|
                        0 <= k < t.len() && is_mode_part(t[k]) && m == upper(t[k]) && forall|j: int|
                            k < j < t.len() ==> !is_mode_part(#[trigger] t[j]);
                    assert(ps[k] == t[k]);
                    assert forall|j: int| k < j < ps.len() implies !is_mode_part(#[trigger] ps[j]) by {
                        if j < l {
                            assert(t[j] == ps[j]);
                        }
                    }
                }
            }
        }
    }
}

} // verus!
