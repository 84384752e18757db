//! The per-language source scanners: each parses the source once per
//! syntax query, reads the matches, then runs its line detectors.

use vstd::prelude::*;

use crate::detection::{appended, detections, lemma_appended_trans, line_detections, Detection};
use crate::line_rules::{
    c_include_rule, csharp_random_rule, csharp_using_rule, go_tls_rule, java_random_rule, js_secret_rule,
    python_secret_rule, scan_c_includes, scan_csharp_insecure_random, scan_csharp_usings,
    scan_go_tls_config, scan_java_insecure_random, scan_js_hardcoded_secrets,
    scan_python_hardcoded_secrets,
};
use crate::match_rules::{query_detections, scan_query, MatchRule};
use crate::models::CryptoAsset;
use crate::queries::CaptureRule;
use crate::syntax::{query_view, result_or_empty, syntax_query, syntax_query_result, Grammar, QueryResult, QueryView};
use crate::text::lines;

verus! {

// ---------------------------------------------------------------------------
// The queries
// ---------------------------------------------------------------------------

/// Python `import` statements.
pub open spec fn py_import_query() -> Seq<char> {
    "(import_statement) @stmt"@
}

/// Python `from ... import ...` statements.
pub open spec fn py_from_query() -> Seq<char> {
    "(import_from_statement) @stmt"@
}

/// Python method calls `obj.method(...)`.
pub open spec fn py_call_query() -> Seq<char> {
    "(call function: (attribute object: (identifier) @obj attribute: (identifier) @method))"@
}

/// The string arguments of Python method calls.
pub open spec fn py_arg_query() -> Seq<char> {
    "(call function: (attribute object: (identifier) @obj) arguments: (_ (string) @arg))"@
}

/// JavaScript calls `func('...')`.
pub open spec fn js_require_query() -> Seq<char> {
    "(call_expression function: (identifier) @func arguments: (arguments (string) @arg))"@
}

/// JavaScript calls `obj.method('...')`.
pub open spec fn js_member_arg_query() -> Seq<char> {
    "(call_expression function: (member_expression object: (identifier) @obj property: (property_identifier) @method) arguments: (arguments (string) @arg))"@
}

/// JavaScript calls `obj.method(...)`.
pub open spec fn js_member_query() -> Seq<char> {
    "(call_expression function: (member_expression object: (identifier) @obj property: (property_identifier) @method))"@
}

/// JavaScript `import ... from '...'`.
pub open spec fn js_import_query() -> Seq<char> {
    "(import_statement source: (string) @source)"@
}

/// Java import declarations.
pub open spec fn java_import_query() -> Seq<char> {
    "(import_declaration) @import"@
}

/// Java calls `Obj.method("...")`.
pub open spec fn java_call_query() -> Seq<char> {
    "(method_invocation object: (identifier) @obj name: (identifier) @method arguments: (argument_list (string_literal) @arg))"@
}

/// C calls `func(...)`.
pub open spec fn c_call_query() -> Seq<char> {
    "(call_expression function: (identifier) @func)"@
}

/// C# calls `Obj.Method(...)`.
pub open spec fn csharp_call_query() -> Seq<char> {
    "(invocation_expression function: (member_access_expression expression: (identifier) @obj name: (identifier) @method))"@
}

/// Go import specs.
pub open spec fn go_import_query() -> Seq<char> {
    "(import_spec path: (interpreted_string_literal) @path)"@
}

/// The text of `py_import_query`.
fn py_import_query_text() -> (r: &'static str)
    ensures
        r@ == py_import_query(),
{
    "(import_statement) @stmt"
}

/// The text of `py_from_query`.
fn py_from_query_text() -> (r: &'static str)
    ensures
        r@ == py_from_query(),
{
    "(import_from_statement) @stmt"
}

/// The text of `py_call_query`.
fn py_call_query_text() -> (r: &'static str)
    ensures
        r@ == py_call_query(),
{
    "(call function: (attribute object: (identifier) @obj attribute: (identifier) @method))"
}

/// The text of `py_arg_query`.
fn py_arg_query_text() -> (r: &'static str)
    ensures
        r@ == py_arg_query(),
{
    "(call function: (attribute object: (identifier) @obj) arguments: (_ (string) @arg))"
}

/// The text of `js_require_query`.
fn js_require_query_text() -> (r: &'static str)
    ensures
        r@ == js_require_query(),
{
    "(call_expression function: (identifier) @func arguments: (arguments (string) @arg))"
}

/// The text of `js_member_arg_query`.
fn js_member_arg_query_text() -> (r: &'static str)
    ensures
        r@ == js_member_arg_query(),
{
    "(call_expression function: (member_expression object: (identifier) @obj property: (property_identifier) @method) arguments: (arguments (string) @arg))"
}

/// The text of `js_member_query`.
fn js_member_query_text() -> (r: &'static str)
    ensures
        r@ == js_member_query(),
{
    "(call_expression function: (member_expression object: (identifier) @obj property: (property_identifier) @method))"
}

/// The text of `js_import_query`.
fn js_import_query_text() -> (r: &'static str)
    ensures
        r@ == js_import_query(),
{
    "(import_statement source: (string) @source)"
}

/// The text of `java_import_query`.
fn java_import_query_text() -> (r: &'static str)
    ensures
        r@ == java_import_query(),
{
    "(import_declaration) @import"
}

/// The text of `java_call_query`.
fn java_call_query_text() -> (r: &'static str)
    ensures
        r@ == java_call_query(),
{
    "(method_invocation object: (identifier) @obj name: (identifier) @method arguments: (argument_list (string_literal) @arg))"
}

/// The text of `c_call_query`.
fn c_call_query_text() -> (r: &'static str)
    ensures
        r@ == c_call_query(),
{
    "(call_expression function: (identifier) @func)"
}

/// The text of `csharp_call_query`.
fn csharp_call_query_text() -> (r: &'static str)
    ensures
        r@ == csharp_call_query(),
{
    "(invocation_expression function: (member_access_expression expression: (identifier) @obj name: (identifier) @method))"
}

/// The text of `go_import_query`.
fn go_import_query_text() -> (r: &'static str)
    ensures
        r@ == go_import_query(),
{
    "(import_spec path: (interpreted_string_literal) @path)"
}

/// No result.
pub open spec fn no_result() -> QueryView {
    (Seq::empty(), Seq::empty())
}

/// A query's result on a source, nothing when there is none.
pub open spec fn result_of(g: Grammar, query: Seq<char>, source: Seq<char>) -> QueryView {
    result_or_empty(syntax_query_result(g, query, source))
}

/// Runs a query; nothing when there is no result.
fn run_query(g: Grammar, query: &str, source: &str) -> (r: QueryResult)
    ensures
        query_view(r) == result_of(g, query@, source@),
{
    match syntax_query(g, query, source) {
        Some(r) => r,
        None => {
            let r: QueryResult = (Vec::new(), Vec::new());
            assert(query_view(r).0 =~= Seq::empty());
            assert(query_view(r).1 =~= Seq::empty());
            r
        },
    }
}

/// An empty result.
fn empty_result() -> (r: QueryResult)
    ensures
        query_view(r) == no_result(),
{
    let r: QueryResult = (Vec::new(), Vec::new());
    assert(query_view(r).0 =~= Seq::empty());
    assert(query_view(r).1 =~= Seq::empty());
    r
}

/// Appends the findings of one query.
fn scan_with(
    findings: &mut Vec<CryptoAsset>,
    g: Grammar,
    query: &str,
    source: &str,
    file_path: &str,
    rule: MatchRule,
)
    ensures
        appended(
            old(findings)@,
            final(findings)@,
            file_path@,
            query_detections(rule, result_of(g, query@, source@), no_result()),
        ),
{
    let q = run_query(g, query, source);
    let none = empty_result();
    scan_query(findings, &q, &none, file_path, rule);
}

// ---------------------------------------------------------------------------
// Python
// ---------------------------------------------------------------------------

/// What the Python scanner finds in `source`.
pub open spec fn python_detections(source: Seq<char>) -> Seq<Detection> {
    if syntax_query_result(Grammar::Python, py_import_query(), source) is None {
        Seq::empty()
    } else {
        let g = Grammar::Python;
        query_detections(MatchRule::Statements(CaptureRule::PyImports), result_of(g, py_import_query(), source), no_result())
            + query_detections(MatchRule::Statements(CaptureRule::PyFromImports), result_of(g, py_from_query(), source), no_result())
            + query_detections(MatchRule::PyCalls, result_of(g, py_call_query(), source), result_of(g, py_arg_query(), source))
            + query_detections(MatchRule::Statements(CaptureRule::PyRandomImports), result_of(g, py_import_query(), source), no_result())
            + query_detections(MatchRule::Statements(CaptureRule::PyRandomFrom), result_of(g, py_from_query(), source), no_result())
            + line_detections(lines(source), python_secret_rule())
    }
}

/// Scan a Python source file for cryptographic imports and calls, the
/// `random` module and hardcoded IVs, salts and keys.
pub fn scan_python(source: &str, file_path: &str) -> (r: Vec<CryptoAsset>)
    ensures
        detections(r@, file_path@, python_detections(source@)),
{
    let mut findings: Vec<CryptoAsset> = Vec::new();
    let g = Grammar::Python;
    let ghost s0 = findings@;
    let q1 = match syntax_query(g, py_import_query_text(), source) {
        Some(q) => q,
        None => {
            assert(findings@.subrange(0, 0) =~= findings@);
            return findings;
        },
    };
    let none = empty_result();
    let ghost src = source@;
    let ghost d1 = query_detections(MatchRule::Statements(CaptureRule::PyImports), result_of(g, py_import_query(), src), no_result());
    let ghost d2 = query_detections(MatchRule::Statements(CaptureRule::PyFromImports), result_of(g, py_from_query(), src), no_result());
    let ghost d3 = query_detections(MatchRule::PyCalls, result_of(g, py_call_query(), src), result_of(g, py_arg_query(), src));
    let ghost d4 = query_detections(MatchRule::Statements(CaptureRule::PyRandomImports), result_of(g, py_import_query(), src), no_result());
    let ghost d5 = query_detections(MatchRule::Statements(CaptureRule::PyRandomFrom), result_of(g, py_from_query(), src), no_result());
    let ghost d6 = line_detections(lines(src), python_secret_rule());
    scan_query(&mut findings, &q1, &none, file_path, MatchRule::Statements(CaptureRule::PyImports));
    let ghost s1 = findings@;
    let q2 = run_query(g, py_from_query_text(), source);
    scan_query(&mut findings, &q2, &none, file_path, MatchRule::Statements(CaptureRule::PyFromImports));
    let ghost s2 = findings@;
    proof {
        lemma_appended_trans(s0, s1, s2, file_path@, d1, d2);
    }
    let q3 = run_query(g, py_call_query_text(), source);
    let q4 = run_query(g, py_arg_query_text(), source);
    scan_query(&mut findings, &q3, &q4, file_path, MatchRule::PyCalls);
    let ghost s3 = findings@;
    proof {
        lemma_appended_trans(s0, s2, s3, file_path@, d1 + d2, d3);
    }
    scan_query(&mut findings, &q1, &none, file_path, MatchRule::Statements(CaptureRule::PyRandomImports));
    let ghost s4 = findings@;
    proof {
        lemma_appended_trans(s0, s3, s4, file_path@, d1 + d2 + d3, d4);
    }
    scan_query(&mut findings, &q2, &none, file_path, MatchRule::Statements(CaptureRule::PyRandomFrom));
    let ghost s5 = findings@;
    proof {
        lemma_appended_trans(s0, s4, s5, file_path@, d1 + d2 + d3 + d4, d5);
    }
    scan_python_hardcoded_secrets(&mut findings, source, file_path);
    proof {
        lemma_appended_trans(s0, s5, findings@, file_path@, d1 + d2 + d3 + d4 + d5, d6);
    }
    findings
}

// ---------------------------------------------------------------------------
// JavaScript
// ---------------------------------------------------------------------------

/// What the JavaScript scanner finds in `source`.
pub open spec fn javascript_detections(source: Seq<char>) -> Seq<Detection> {
    let g = Grammar::JavaScript;
    if syntax_query_result(g, js_require_query(), source) is None {
        Seq::empty()
    } else {
        query_detections(MatchRule::JsRequire, result_of(g, js_require_query(), source), no_result())
            + query_detections(MatchRule::JsCryptoCalls, result_of(g, js_member_arg_query(), source), no_result())
            + query_detections(MatchRule::JsUtility, result_of(g, js_member_query(), source), no_result())
            + query_detections(MatchRule::JsImports, result_of(g, js_import_query(), source), no_result())
            + query_detections(MatchRule::JsMathRandom, result_of(g, js_member_query(), source), no_result())
            + line_detections(lines(source), js_secret_rule())
    }
}

/// Scan a JavaScript source file for `require('crypto')`, crypto imports,
/// `crypto.*` calls (with their algorithm strings), `Math.random()` and
/// hardcoded IVs, salts and keys.
pub fn scan_javascript(source: &str, file_path: &str) -> (r: Vec<CryptoAsset>)
    ensures
        detections(r@, file_path@, javascript_detections(source@)),
{
    let mut findings: Vec<CryptoAsset> = Vec::new();
    let g = Grammar::JavaScript;
    let ghost s0 = findings@;
    let q1 = match syntax_query(g, js_require_query_text(), source) {
        Some(q) => q,
        None => {
            assert(findings@.subrange(0, 0) =~= findings@);
            return findings;
        },
    };
    let none = empty_result();
    let ghost src = source@;
    let ghost d1 = query_detections(MatchRule::JsRequire, result_of(g, js_require_query(), src), no_result());
    let ghost d2 = query_detections(MatchRule::JsCryptoCalls, result_of(g, js_member_arg_query(), src), no_result());
    let ghost d3 = query_detections(MatchRule::JsUtility, result_of(g, js_member_query(), src), no_result());
    let ghost d4 = query_detections(MatchRule::JsImports, result_of(g, js_import_query(), src), no_result());
    let ghost d5 = query_detections(MatchRule::JsMathRandom, result_of(g, js_member_query(), src), no_result());
    let ghost d6 = line_detections(lines(src), js_secret_rule());
    scan_query(&mut findings, &q1, &none, file_path, MatchRule::JsRequire);
    let ghost s1 = findings@;
    scan_with(&mut findings, g, js_member_arg_query_text(), source, file_path, MatchRule::JsCryptoCalls);
    let ghost s2 = findings@;
    proof {
        lemma_appended_trans(s0, s1, s2, file_path@, d1, d2);
    }
    let q3 = run_query(g, js_member_query_text(), source);
    scan_query(&mut findings, &q3, &none, file_path, MatchRule::JsUtility);
    let ghost s3 = findings@;
    proof {
        lemma_appended_trans(s0, s2, s3, file_path@, d1 + d2, d3);
    }
    scan_with(&mut findings, g, js_import_query_text(), source, file_path, MatchRule::JsImports);
    let ghost s4 = findings@;
    proof {
        lemma_appended_trans(s0, s3, s4, file_path@, d1 + d2 + d3, d4);
    }
    scan_query(&mut findings, &q3, &none, file_path, MatchRule::JsMathRandom);
    let ghost s5 = findings@;
    proof {
        lemma_appended_trans(s0, s4, s5, file_path@, d1 + d2 + d3 + d4, d5);
    }
    scan_js_hardcoded_secrets(&mut findings, source, file_path);
    proof {
        lemma_appended_trans(s0, s5, findings@, file_path@, d1 + d2 + d3 + d4 + d5, d6);
    }
    findings
}

// ---------------------------------------------------------------------------
// Java
// ---------------------------------------------------------------------------

/// What the Java scanner finds in `source`.
pub open spec fn java_detections(source: Seq<char>) -> Seq<Detection> {
    let g = Grammar::Java;
    if syntax_query_result(g, java_import_query(), source) is None {
        Seq::empty()
    } else {
        query_detections(MatchRule::Statements(CaptureRule::JavaImports), result_of(g, java_import_query(), source), no_result())
            + query_detections(MatchRule::JavaGetInstance, result_of(g, java_call_query(), source), no_result())
            + line_detections(lines(source), java_random_rule())
    }
}

/// Scan a Java source file for crypto imports, `getInstance` factory calls
/// and `java.util.Random`.
pub fn scan_java(source: &str, file_path: &str) -> (r: Vec<CryptoAsset>)
    ensures
        detections(r@, file_path@, java_detections(source@)),
{
    let mut findings: Vec<CryptoAsset> = Vec::new();
    let g = Grammar::Java;
    let ghost s0 = findings@;
    let q1 = match syntax_query(g, java_import_query_text(), source) {
        Some(q) => q,
        None => {
            assert(findings@.subrange(0, 0) =~= findings@);
            return findings;
        },
    };
    let none = empty_result();
    let ghost src = source@;
    let ghost d1 = query_detections(MatchRule::Statements(CaptureRule::JavaImports), result_of(g, java_import_query(), src), no_result());
    let ghost d2 = query_detections(MatchRule::JavaGetInstance, result_of(g, java_call_query(), src), no_result());
    let ghost d3 = line_detections(lines(src), java_random_rule());
    scan_query(&mut findings, &q1, &none, file_path, MatchRule::Statements(CaptureRule::JavaImports));
    let ghost s1 = findings@;
    scan_with(&mut findings, g, java_call_query_text(), source, file_path, MatchRule::JavaGetInstance);
    let ghost s2 = findings@;
    proof {
        lemma_appended_trans(s0, s1, s2, file_path@, d1, d2);
    }
    scan_java_insecure_random(&mut findings, source, file_path);
    proof {
        lemma_appended_trans(s0, s2, findings@, file_path@, d1 + d2, d3);
    }
    findings
}

// ---------------------------------------------------------------------------
// C and C++
// ---------------------------------------------------------------------------

/// What the C scanner finds in `source`.
pub open spec fn c_detections(source: Seq<char>) -> Seq<Detection> {
    let g = Grammar::C;
    if syntax_query_result(g, c_call_query(), source) is None {
        Seq::empty()
    } else {
        line_detections(lines(source), c_include_rule())
            + query_detections(MatchRule::CCalls, result_of(g, c_call_query(), source), no_result())
    }
}

/// Scan a C source file for OpenSSL and libsodium includes and calls.
pub fn scan_c(source: &str, file_path: &str) -> (r: Vec<CryptoAsset>)
    ensures
        detections(r@, file_path@, c_detections(source@)),
{
    let mut findings: Vec<CryptoAsset> = Vec::new();
    let g = Grammar::C;
    let ghost s0 = findings@;
    let q = match syntax_query(g, c_call_query_text(), source) {
        Some(q) => q,
        None => {
            assert(findings@.subrange(0, 0) =~= findings@);
            return findings;
        },
    };
    let none = empty_result();
    let ghost src = source@;
    let ghost d1 = line_detections(lines(src), c_include_rule());
    let ghost d2 = query_detections(MatchRule::CCalls, result_of(g, c_call_query(), src), no_result());
    scan_c_includes(&mut findings, source, file_path);
    let ghost s1 = findings@;
    scan_query(&mut findings, &q, &none, file_path, MatchRule::CCalls);
    proof {
        lemma_appended_trans(s0, s1, findings@, file_path@, d1, d2);
    }
    findings
}

/// Scan a C++ source file: OpenSSL and libsodium are used from C++ as from C.
pub fn scan_cpp(source: &str, file_path: &str) -> (r: Vec<CryptoAsset>)
    ensures
        detections(r@, file_path@, c_detections(source@)),
{
    scan_c(source, file_path)
}

// ---------------------------------------------------------------------------
// C#
// ---------------------------------------------------------------------------

/// What the C# scanner finds in `source`.
pub open spec fn csharp_detections(source: Seq<char>) -> Seq<Detection> {
    let g = Grammar::CSharp;
    if syntax_query_result(g, csharp_call_query(), source) is None {
        Seq::empty()
    } else {
        line_detections(lines(source), csharp_using_rule())
            + query_detections(MatchRule::CSharpCreate, result_of(g, csharp_call_query(), source), no_result())
            + line_detections(lines(source), csharp_random_rule())
    }
}

/// Scan a C# source file for `System.Security.Cryptography`, `Create()`
/// factory calls and `new Random()`.
pub fn scan_csharp(source: &str, file_path: &str) -> (r: Vec<CryptoAsset>)
    ensures
        detections(r@, file_path@, csharp_detections(source@)),
{
    let mut findings: Vec<CryptoAsset> = Vec::new();
    let g = Grammar::CSharp;
    let ghost s0 = findings@;
    let q = match syntax_query(g, csharp_call_query_text(), source) {
        Some(q) => q,
        None => {
            assert(findings@.subrange(0, 0) =~= findings@);
            return findings;
        },
    };
    let none = empty_result();
    let ghost src = source@;
    let ghost d1 = line_detections(lines(src), csharp_using_rule());
    let ghost d2 = query_detections(MatchRule::CSharpCreate, result_of(g, csharp_call_query(), src), no_result());
    let ghost d3 = line_detections(lines(src), csharp_random_rule());
    scan_csharp_usings(&mut findings, source, file_path);
    let ghost s1 = findings@;
    scan_query(&mut findings, &q, &none, file_path, MatchRule::CSharpCreate);
    let ghost s2 = findings@;
    proof {
        lemma_appended_trans(s0, s1, s2, file_path@, d1, d2);
    }
    scan_csharp_insecure_random(&mut findings, source, file_path);
    proof {
        lemma_appended_trans(s0, s2, findings@, file_path@, d1 + d2, d3);
    }
    findings
}

// ---------------------------------------------------------------------------
// Go
// ---------------------------------------------------------------------------

/// What the Go scanner finds in `source`.
pub open spec fn go_detections(source: Seq<char>) -> Seq<Detection> {
    let g = Grammar::Go;
    if syntax_query_result(g, go_import_query(), source) is None {
        Seq::empty()
    } else {
        query_detections(MatchRule::GoImports, result_of(g, go_import_query(), source), no_result())
            + line_detections(lines(source), go_tls_rule())
    }
}

/// Scan a Go source file for crypto imports, `math/rand` and TLS settings.
pub fn scan_go(source: &str, file_path: &str) -> (r: Vec<CryptoAsset>)
    ensures
        detections(r@, file_path@, go_detections(source@)),
{
    let mut findings: Vec<CryptoAsset> = Vec::new();
    let g = Grammar::Go;
    let ghost s0 = findings@;
    let q = match syntax_query(g, go_import_query_text(), source) {
        Some(q) => q,
        None => {
            assert(findings@.subrange(0, 0) =~= findings@);
            return findings;
        },
    };
    let none = empty_result();
    let ghost src = source@;
    let ghost d1 = query_detections(MatchRule::GoImports, result_of(g, go_import_query(), src), no_result());
    let ghost d2 = line_detections(lines(src), go_tls_rule());
    scan_query(&mut findings, &q, &none, file_path, MatchRule::GoImports);
    let ghost s1 = findings@;
    scan_go_tls_config(&mut findings, source, file_path);
    proof {
        lemma_appended_trans(s0, s1, findings@, file_path@, d1, d2);
    }
    findings
}

} // verus!
