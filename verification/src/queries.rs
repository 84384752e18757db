//! The syntax queries of the scanner and the findings each of their matches
//! yields.

use vstd::prelude::*;

use crate::detection::{
    alarm, appended, lemma_appended_nothing, lemma_appended_trans, plain, push_alarm, push_plain,
    Detection, is_detection,
};
use crate::json::strs;
use crate::models::{opt_view, owned, views, CryptoAsset, DetectionSource, QuantumSafe, Severity};
use crate::scanner::{
    algorithm_from_python_import, algorithm_from_python_module, enrich_python_import_context,
    extract_import_modules, from_import, hashlib_algorithm_list, hashlib_algorithms, import_curve,
    import_modules, import_mode, import_padding, member, parse_from_import, python_crypto_module_list,
    python_crypto_modules, python_import_algorithm, python_module_algorithm, quote_chars,
};
use crate::syntax::{
    capture_line, capture_line_exec, capture_text, capture_text_exec, capture_view, find_named_capture,
    match_view, named_capture, query_view, row_line, row_line_exec, Capture, CaptureView, QueryResult,
    QueryView,
};
use crate::text::{chars_of, is, split_by, split_lit, string_of, strip, strip_lit, upper, upper_chars};

verus! {

// ---------------------------------------------------------------------------
// Folds over matches and captures
// ---------------------------------------------------------------------------

/// The findings of every capture of a match, in order.
pub open spec fn each_capture(m: Seq<CaptureView>, f: spec_fn(CaptureView) -> Seq<Detection>) -> Seq<Detection>
    decreases m.len(),
{
    if m.len() == 0 {
        Seq::empty()
    } else {
        each_capture(m.drop_last(), f) + f(m.last())
    }
}

/// The findings of every match, in order.
pub open spec fn each_match(ms: Seq<Seq<CaptureView>>, f: spec_fn(Seq<CaptureView>) -> Seq<Detection>) -> Seq<
    Detection,
>
    decreases ms.len(),
{
    if ms.len() == 0 {
        Seq::empty()
    } else {
        each_match(ms.drop_last(), f) + f(ms.last())
    }
}

/// The first dot-separated segment of a module path.
pub open spec fn first_segment(s: Seq<char>) -> Seq<char> {
    split_by(s, seq!['.'])[0]
}

/// The first dot-separated segment of a module path.
fn first_segment_exec(s: &[char]) -> (r: Vec<char>)
    ensures
        r@ == first_segment(s@),
{
    let parts = split_lit(s, ".");
    proof {
        reveal_strlit(".");
        assert("."@ =~= seq!['.']);
        crate::text::lemma_split_nonempty(s@, seq!['.']);
    }
    crate::text::copy_range(&parts[0], 0, parts[0].len())
}

// ---------------------------------------------------------------------------
// Python imports
// ---------------------------------------------------------------------------

/// The findings for the modules of one `import` statement on line `line`.
pub open spec fn py_module_hits(mods: Seq<Seq<char>>, line: int) -> Seq<Detection>
    decreases mods.len(),
{
    if mods.len() == 0 {
        Seq::empty()
    } else {
        let prev = py_module_hits(mods.drop_last(), line);
        let base = first_segment(mods.last());
        if python_crypto_modules().contains(base) {
            prev.push(plain(python_module_algorithm(base), line, base))
        } else {
            prev
        }
    }
}

/// The insecure-random findings for the modules of one `import` statement.
pub open spec fn py_random_hits(mods: Seq<Seq<char>>, line: int) -> Seq<Detection>
    decreases mods.len(),
{
    if mods.len() == 0 {
        Seq::empty()
    } else {
        let prev = py_random_hits(mods.drop_last(), line);
        if mods.last() == "random"@ {
            prev.push(py_random_alarm(line))
        } else {
            prev
        }
    }
}

/// The finding for Python's `random` module.
pub open spec fn py_random_alarm(line: int) -> Detection {
    alarm(
        "INSECURE_PRNG"@,
        line,
        "random"@,
        "Python's `random` module is NOT cryptographically secure. Use `secrets` or `os.urandom()` instead."@,
    )
}

/// The findings of one name imported by `from module import name`.
pub open spec fn py_from_detection(base: Seq<char>, module: Seq<char>, name: Seq<char>, line: int) -> Detection {
    Detection {
        curve: import_curve(module, name, None),
        padding: import_padding(module, name, None),
        mode: import_mode(module, name, None),
        ..plain(python_import_algorithm(base, name, module), line, base)
    }
}

/// The findings of the names of one `from module import ...` statement.
pub open spec fn py_from_hits(base: Seq<char>, module: Seq<char>, names: Seq<Seq<char>>, line: int) -> Seq<Detection>
    decreases names.len(),
{
    if names.len() == 0 {
        Seq::empty()
    } else {
        py_from_hits(base, module, names.drop_last(), line).push(
            py_from_detection(base, module, names.last(), line),
        )
    }
}

/// The findings of one captured `import` statement.
pub open spec fn py_import_capture(c: CaptureView) -> Seq<Detection> {
    py_module_hits(import_modules(c.1), row_line(c.2))
}

/// The findings of one captured `from ... import ...` statement.
pub open spec fn py_from_capture(c: CaptureView) -> Seq<Detection> {
    match from_import(c.1) {
        Some(p) => if python_crypto_modules().contains(first_segment(p.0)) {
            py_from_hits(first_segment(p.0), p.0, p.1, row_line(c.2))
        } else {
            Seq::empty()
        },
        None => Seq::empty(),
    }
}

/// The insecure-random findings of one captured `import` statement.
pub open spec fn py_random_import_capture(c: CaptureView) -> Seq<Detection> {
    py_random_hits(import_modules(c.1), row_line(c.2))
}

/// The insecure-random findings of one captured `from ... import ...` statement.
pub open spec fn py_random_from_capture(c: CaptureView) -> Seq<Detection> {
    match from_import(c.1) {
        Some(p) => if p.0 == "random"@ {
            seq![py_random_alarm(row_line(c.2))]
        } else {
            Seq::empty()
        },
        None => Seq::empty(),
    }
}

/// The statement-level rules, applied to each capture.
#[derive(Clone, Copy, PartialEq, Eq, Structural)]
pub enum CaptureRule {
    PyImports,
    PyFromImports,
    PyRandomImports,
    PyRandomFrom,
    JavaImports,
}

/// What a statement-level rule finds in one capture.
pub open spec fn capture_rule(r: CaptureRule) -> spec_fn(CaptureView) -> Seq<Detection> {
    match r {
        CaptureRule::PyImports => |c: CaptureView| py_import_capture(c),
        CaptureRule::PyFromImports => |c: CaptureView| py_from_capture(c),
        CaptureRule::PyRandomImports => |c: CaptureView| py_random_import_capture(c),
        CaptureRule::PyRandomFrom => |c: CaptureView| py_random_from_capture(c),
        CaptureRule::JavaImports => |c: CaptureView| java_import_capture(c),
    }
}

// ---------------------------------------------------------------------------
// Java imports
// ---------------------------------------------------------------------------

/// Known Java packages that provide cryptographic functionality.
pub open spec fn java_crypto_packages() -> Seq<Seq<char>> {
    seq!["javax.crypto"@, "java.security"@, "org.bouncycastle"@]
}

/// The Java crypto packages.
pub fn java_crypto_package_list() -> (r: Vec<&'static str>)
    ensures
        strs(r@) == java_crypto_packages(),
{
    let r: Vec<&'static str> = vec!["javax.crypto", "java.security", "org.bouncycastle"];
    assert(strs(r@) =~= java_crypto_packages());
    r
}

/// The last dot-separated segment of an import path (`rsplit('.').next()`).
pub open spec fn last_segment(p: Seq<char>) -> Seq<char> {
    split_by(p, seq!['.']).last()
}

/// The algorithm label of a Java import path.
pub open spec fn java_import_algorithm(p: Seq<char>) -> Seq<char> {
    let last = last_segment(p);
    if last == "*"@ {
        if has_sub_lit(p, "javax.crypto"@) {
            "JAVAX_CRYPTO (see usage)"@
        } else if has_sub_lit(p, "java.security"@) {
            "JAVA_SECURITY (see usage)"@
        } else {
            "BOUNCYCASTLE (see usage)"@
        }
    } else if last == "Cipher"@ {
        "AES (see usage)"@
    } else if last == "MessageDigest"@ {
        "HASHING (see usage)"@
    } else if last == "SecureRandom"@ {
        "CSPRNG"@
    } else if last == "KeyGenerator"@ || last == "KeyPairGenerator"@ {
        "KEY_GENERATION"@
    } else if last == "Signature"@ {
        "DIGITAL_SIGNATURE"@
    } else if last == "Mac"@ {
        "HMAC"@
    } else if last == "KeyAgreement"@ {
        "KEY_AGREEMENT"@
    } else {
        upper(last)
    }
}

/// `str::contains`.
pub open spec fn has_sub_lit(h: Seq<char>, n: Seq<char>) -> bool {
    crate::text::has_sub(h, n)
}

/// Map a Java import path to an algorithm label.
pub fn algorithm_from_java_import(import_path: &str) -> (r: String)
    ensures
        r@ == java_import_algorithm(import_path@),
{
    let p = chars_of(import_path);
    let parts = split_lit(&p, ".");
    proof {
        reveal_strlit(".");
        assert("."@ =~= seq!['.']);
        crate::text::lemma_split_nonempty(p@, seq!['.']);
    }
    let last = &parts[parts.len() - 1];
    let out: Vec<char> = if is(last, "*") {
        if crate::text::contains(&p, "javax.crypto") {
            chars_of("JAVAX_CRYPTO (see usage)")
        } else if crate::text::contains(&p, "java.security") {
            chars_of("JAVA_SECURITY (see usage)")
        } else {
            chars_of("BOUNCYCASTLE (see usage)")
        }
    } else if is(last, "Cipher") {
        chars_of("AES (see usage)")
    } else if is(last, "MessageDigest") {
        chars_of("HASHING (see usage)")
    } else if is(last, "SecureRandom") {
        chars_of("CSPRNG")
    } else if is(last, "KeyGenerator") || is(last, "KeyPairGenerator") {
        chars_of("KEY_GENERATION")
    } else if is(last, "Signature") {
        chars_of("DIGITAL_SIGNATURE")
    } else if is(last, "Mac") {
        chars_of("HMAC")
    } else if is(last, "KeyAgreement") {
        chars_of("KEY_AGREEMENT")
    } else {
        upper_chars(last)
    };
    string_of(&out)
}

/// The import path of a captured Java import declaration.
pub open spec fn java_import_path(text: Seq<char>) -> Seq<char> {
    crate::text::trim(
        crate::text::strip_end(
            crate::text::strip_prefix_all(crate::text::trim(text), "import"@),
            seq![';'],
            false,
        ),
    )
}

/// The findings of an import path for the given packages.
pub open spec fn java_package_hits(pkgs: Seq<Seq<char>>, path: Seq<char>, line: int) -> Seq<Detection>
    decreases pkgs.len(),
{
    if pkgs.len() == 0 {
        Seq::empty()
    } else {
        let prev = java_package_hits(pkgs.drop_last(), path, line);
        if crate::text::has_prefix(path, pkgs.last()) {
            prev.push(plain(java_import_algorithm(path), line, pkgs.last()))
        } else {
            prev
        }
    }
}

/// The findings of one captured Java import declaration.
pub open spec fn java_import_capture(c: CaptureView) -> Seq<Detection> {
    java_package_hits(java_crypto_packages(), java_import_path(c.1), row_line(c.2))
}

// ---------------------------------------------------------------------------
// Executing the statement-level rules
// ---------------------------------------------------------------------------

/// The findings of the modules of one `import` statement.
fn py_import_modules_exec(findings: &mut Vec<CryptoAsset>, text: &str, line: usize, file_path: &str, random: bool)
    ensures
        appended(
            old(findings)@,
            final(findings)@,
            file_path@,
            if random {
                py_random_hits(import_modules(text@), line as int)
            } else {
                py_module_hits(import_modules(text@), line as int)
            },
        ),
{
    let mods = extract_import_modules(text);
    let ghost mv = import_modules(text@);
    let crypto = python_crypto_module_list();
    let ghost start = findings@;
    proof {
        lemma_appended_nothing(start, file_path@);
    }
    let mut i: usize = 0;
    while i < mods.len()
        invariant
            i <= mods@.len(),
            views(mods@) == mv,
            strs(crypto@) == python_crypto_modules(),
            appended(
                start,
                findings@,
                file_path@,
                if random {
                    py_random_hits(mv.subrange(0, i as int), line as int)
                } else {
                    py_module_hits(mv.subrange(0, i as int), line as int)
                },
            ),
        decreases mods.len() - i,
    {
        assert(mv.subrange(0, i + 1).drop_last() =~= mv.subrange(0, i as int));
        assert(mv.subrange(0, i + 1).last() == mods@[i as int]@);
        let ghost before = findings@;
        let m = chars_of(mods[i].as_str());
        if random {
            if is(&m, "random") {
                push_alarm(
                    findings,
                    owned("INSECURE_PRNG"),
                    file_path,
                    line,
                    owned("random"),
                    owned("Python's `random` module is NOT cryptographically secure. Use `secrets` or `os.urandom()` instead."),
                );
                proof {
                    lemma_appended_trans(
                        start,
                        before,
                        findings@,
                        file_path@,
                        py_random_hits(mv.subrange(0, i as int), line as int),
                        seq![py_random_alarm(line as int)],
                    );
                }
            }
        } else {
            let base = first_segment_exec(&m);
            if member(&crypto, &base) {
                let b = string_of(&base);
                let algo = algorithm_from_python_module(b.as_str());
                push_plain(findings, algo, file_path, line, b);
                proof {
                    lemma_appended_trans(
                        start,
                        before,
                        findings@,
                        file_path@,
                        py_module_hits(mv.subrange(0, i as int), line as int),
                        seq![plain(python_module_algorithm(base@), line as int, base@)],
                    );
                }
            }
        }
        i = i + 1;
    }
    assert(mv.subrange(0, mods@.len() as int) =~= mv);
}

/// Appends the finding of one name imported by `from module import name`.
fn push_from_import(findings: &mut Vec<CryptoAsset>, base: &str, module: &str, name: &str, line: usize, file_path: &str)
    ensures
        appended(old(findings)@, final(findings)@, file_path@, seq![py_from_detection(base@, module@, name@, line as int)]),
{
    let algo = algorithm_from_python_import(base, name, module);
    let mut asset = CryptoAsset::new(algo, owned(file_path), line, owned(base));
    let ghost before = asset;
    enrich_python_import_context(&mut asset, module, name);
    assert(views(asset.findings@) =~= Seq::empty());
    assert(views(asset.cipher_suites@) =~= Seq::empty());
    assert(is_detection(asset, file_path@, py_from_detection(base@, module@, name@, line as int)));
    findings.push(asset);
    assert(findings@.subrange(0, old(findings)@.len() as int) =~= old(findings)@);
}

/// The findings of one capture under a statement-level rule.
fn capture_exec(findings: &mut Vec<CryptoAsset>, c: &Capture, file_path: &str, rule: CaptureRule)
    ensures
        appended(old(findings)@, final(findings)@, file_path@, (capture_rule(rule))(capture_view(*c))),
{
    let line = row_line_exec(c.2);
    let text = c.1.as_str();
    let ghost start = findings@;
    match rule {
        CaptureRule::PyImports => py_import_modules_exec(findings, text, line, file_path, false),
        CaptureRule::PyRandomImports => py_import_modules_exec(findings, text, line, file_path, true),
        CaptureRule::PyFromImports => {
            match parse_from_import(text) {
                Some(p) => {
                    let module = p.0;
                    let names = p.1;
                    let mc = chars_of(module.as_str());
                    let base = first_segment_exec(&mc);
                    let crypto = python_crypto_module_list();
                    if member(&crypto, &base) {
                        let b = string_of(&base);
                        let ghost nv = views(names@);
                        proof {
                            lemma_appended_nothing(start, file_path@);
                        }
                        let mut i: usize = 0;
                        while i < names.len()
                            invariant
                                i <= names@.len(),
                                nv == views(names@),
                                b@ == first_segment(module@),
                                appended(start, findings@, file_path@, py_from_hits(b@, module@, nv.subrange(0, i as int), line as int)),
                            decreases names.len() - i,
                        {
                            assert(nv.subrange(0, i + 1).drop_last() =~= nv.subrange(0, i as int));
                            assert(nv.subrange(0, i + 1).last() == names@[i as int]@);
                            let ghost before = findings@;
                            push_from_import(findings, b.as_str(), module.as_str(), names[i].as_str(), line, file_path);
                            proof {
                                lemma_appended_trans(
                                    start,
                                    before,
                                    findings@,
                                    file_path@,
                                    py_from_hits(b@, module@, nv.subrange(0, i as int), line as int),
                                    seq![py_from_detection(b@, module@, names@[i as int]@, line as int)],
                                );
                            }
                            i = i + 1;
                        }
                        assert(nv.subrange(0, names@.len() as int) =~= nv);
                    } else {
                        proof {
                            lemma_appended_nothing(start, file_path@);
                        }
                    }
                },
                None => {
                    proof {
                        lemma_appended_nothing(start, file_path@);
                    }
                },
            }
        },
        CaptureRule::PyRandomFrom => {
            match parse_from_import(text) {
                Some(p) => {
                    let mc = chars_of(p.0.as_str());
                    if is(&mc, "random") {
                        push_alarm(
                            findings,
                            owned("INSECURE_PRNG"),
                            file_path,
                            line,
                            owned("random"),
                            owned("Python's `random` module is NOT cryptographically secure. Use `secrets` or `os.urandom()` instead."),
                        );
                    } else {
                        proof {
                            lemma_appended_nothing(start, file_path@);
                        }
                    }
                },
                None => {
                    proof {
                        lemma_appended_nothing(start, file_path@);
                    }
                },
            }
        },
        CaptureRule::JavaImports => {
            let tc = chars_of(text);
            let t1 = crate::text::trim_chars(&tc);
            let t2 = crate::text::strip_prefix_all_lit(&t1, "import");
            let t3 = crate::text::strip_end_lit(&t2, ";");
            let path = crate::text::trim_chars(&t3);
            proof {
                reveal_strlit(";");
                assert(";"@ =~= seq![';']);
            }
            let ps = string_of(&path);
            let pkgs = java_crypto_package_list();
            let ghost pv = java_crypto_packages();
            proof {
                lemma_appended_nothing(start, file_path@);
            }
            let mut i: usize = 0;
            while i < pkgs.len()
                invariant
                    i <= pkgs@.len(),
                    strs(pkgs@) == pv,
                    pv == java_crypto_packages(),
                    path@ == java_import_path(text@),
                    ps@ == path@,
                    appended(start, findings@, file_path@, java_package_hits(pv.subrange(0, i as int), path@, line as int)),
                decreases pkgs.len() - i,
            {
                assert(pv.subrange(0, i + 1).drop_last() =~= pv.subrange(0, i as int));
                assert(pv.subrange(0, i + 1).last() == pkgs@[i as int]@);
                let pk = chars_of(pkgs[i]);
                if crate::text::starts_with_chars(&path, &pk) {
                    let ghost before = findings@;
                    let algo = algorithm_from_java_import(ps.as_str());
                    push_plain(findings, algo, file_path, line, owned(pkgs[i]));
                    proof {
                        lemma_appended_trans(
                            start,
                            before,
                            findings@,
                            file_path@,
                            java_package_hits(pv.subrange(0, i as int), path@, line as int),
                            seq![plain(java_import_algorithm(path@), line as int, pkgs@[i as int]@)],
                        );
                    }
                }
                i = i + 1;
            }
            assert(pv.subrange(0, pkgs@.len() as int) =~= pv);
        },
    }
}

/// The findings of every capture of a match under a statement-level rule.
pub fn captures_exec(findings: &mut Vec<CryptoAsset>, m: &Vec<Capture>, file_path: &str, rule: CaptureRule)
    ensures
        appended(old(findings)@, final(findings)@, file_path@, each_capture(match_view(m@), capture_rule(rule))),
{
    let ghost mv = match_view(m@);
    let ghost start = findings@;
    proof {
        lemma_appended_nothing(start, file_path@);
    }
    let mut i: usize = 0;
    while i < m.len()
        invariant
            i <= m@.len(),
            mv == match_view(m@),
            appended(start, findings@, file_path@, each_capture(mv.subrange(0, i as int), capture_rule(rule))),
        decreases m.len() - i,
    {
        assert(mv.subrange(0, i + 1).drop_last() =~= mv.subrange(0, i as int));
        assert(mv.subrange(0, i + 1).last() == capture_view(m@[i as int]));
        let ghost before = findings@;
        capture_exec(findings, &m[i], file_path, rule);
        proof {
            lemma_appended_trans(
                start,
                before,
                findings@,
                file_path@,
                each_capture(mv.subrange(0, i as int), capture_rule(rule)),
                (capture_rule(rule))(capture_view(m@[i as int])),
            );
        }
        i = i + 1;
    }
    assert(mv.subrange(0, m@.len() as int) =~= mv);
}

} // verus!
