//! Which files of a tree are scanned, and how: directories that are always
//! skipped, certificate files, and the source language of each extension.

use vstd::prelude::*;

use crate::detection::{detections, Detection};
use crate::json::strs;
use crate::models::{opt_view, views, CryptoAsset};
use crate::scanner::member;
use crate::source_scan::{
    c_detections, csharp_detections, go_detections, java_detections, javascript_detections,
    python_detections, scan_c, scan_cpp, scan_csharp, scan_go, scan_java, scan_javascript, scan_python,
};
use crate::text::{chars_of, is};

verus! {

/// What `Path::components` gives for a path, each component as a string.
pub uninterp spec fn path_components(path: Seq<char>) -> Seq<Seq<char>>;

/// What `Path::extension` gives for a path.
pub uninterp spec fn path_extension(path: Seq<char>) -> Option<Seq<char>>;

/// `std::path::Path::components`, each component taken as a string. The
/// result is named `path_components`.
#[verifier::external_body]
fn std_path_components(path: &str) -> (r: Vec<String>)
    ensures
        views(r@) == path_components(path@),
{
    std::path::Path::new(path).components().map(|c| c.as_os_str().to_str().unwrap_or("").to_string()).collect()
}

/// `std::path::Path::extension`, taken as a string. The result is named
/// `path_extension`.
#[verifier::external_body]
fn std_path_extension(path: &str) -> (r: Option<String>)
    ensures
        opt_view(r) == path_extension(path@),
{
    std::path::Path::new(path).extension().and_then(|e| e.to_str()).map(|e| e.to_string())
}

/// Directories that are always skipped (besides what `.gitignore` says).
pub open spec fn skip_dirs() -> Seq<Seq<char>> {
    seq![
        "node_modules"@, "venv"@, ".venv"@, "__pycache__"@, "tests"@, ".git"@, "bin"@, "obj"@,
        "vendor"@, "build"@, "out"@, "target"@,
    ]
}

/// The skipped directories.
pub fn skip_dir_list() -> (r: Vec<&'static str>)
    ensures
        strs(r@) == skip_dirs(),
{
    let r: Vec<&'static str> = vec![
        "node_modules", "venv", ".venv", "__pycache__", "tests", ".git", "bin", "obj", "vendor",
        "build", "out", "target",
    ];
    assert(strs(r@) =~= skip_dirs());
    r
}

/// Some component of the path is a skipped directory.
pub open spec fn skipped(path: Seq<char>) -> bool {
    exists|i: int| 0 <= i < path_components(path).len() && skip_dirs().contains(#[trigger] path_components(path)[i])
}

/// Returns `true` if the path contains a directory component to skip.
pub fn should_skip_path(path: &str) -> (r: bool)
    ensures
        r == skipped(path@),
{
    let comps = std_path_components(path);
    let ghost cv = views(comps@);
    let skip = skip_dir_list();
    let mut i: usize = 0;
    while i < comps.len()
        invariant
            i <= comps@.len(),
            cv == views(comps@),
            cv == path_components(path@),
            strs(skip@) == skip_dirs(),
            forall|k: int| 0 <= k < i ==> !skip_dirs().contains(#[trigger] cv[k]),
        decreases comps.len() - i,
    {
        let c = chars_of(comps[i].as_str());
        assert(cv[i as int] == comps@[i as int]@);
        if member(&skip, &c) {
            return true;
        }
        i = i + 1;
    }
    false
}

/// Certificate file extensions.
pub open spec fn cert_extensions() -> Seq<Seq<char>> {
    seq!["pem"@, "crt"@, "cer"@, "der"@]
}

/// The source languages the scanner reads.
#[derive(Clone, Copy, PartialEq, Eq, Structural)]
pub enum SourceKind {
    Python,
    JavaScript,
    Java,
    C,
    Cpp,
    CSharp,
    Go,
}

/// The source language of a file extension.
pub open spec fn source_kind(ext: Seq<char>) -> Option<SourceKind> {
    if ext == "py"@ {
        Some(SourceKind::Python)
    } else if ext == "js"@ || ext == "mjs"@ || ext == "cjs"@ {
        Some(SourceKind::JavaScript)
    } else if ext == "java"@ {
        Some(SourceKind::Java)
    } else if ext == "c"@ || ext == "h"@ {
        Some(SourceKind::C)
    } else if ext == "cpp"@ || ext == "cc"@ || ext == "cxx"@ || ext == "hpp"@ || ext == "hxx"@ {
        Some(SourceKind::Cpp)
    } else if ext == "cs"@ {
        Some(SourceKind::CSharp)
    } else if ext == "go"@ {
        Some(SourceKind::Go)
    } else {
        None
    }
}

/// What the scanner does with a file of the tree.
#[derive(Clone, Copy, PartialEq, Eq, Structural)]
pub enum EntryAction {
    /// Nothing: a skipped directory, no extension, or an unknown one.
    Skip,
    /// Read its bytes as a certificate file.
    Certificate,
    /// Read it as source text in the given language.
    Source(SourceKind),
}

/// What the scanner does with the file at `path`.
pub open spec fn entry_action_of(path: Seq<char>) -> EntryAction {
    if skipped(path) {
        EntryAction::Skip
    } else {
        match path_extension(path) {
            None => EntryAction::Skip,
            Some(e) => if cert_extensions().contains(e) {
                EntryAction::Certificate
            } else {
                match source_kind(e) {
                    Some(k) => EntryAction::Source(k),
                    None => EntryAction::Skip,
                }
            },
        }
    }
}

/// Decide what to do with the file at `path`.
pub fn entry_action(path: &str) -> (r: EntryAction)
    ensures
        r == entry_action_of(path@),
{
    if should_skip_path(path) {
        return EntryAction::Skip;
    }
    let ext = match std_path_extension(path) {
        Some(e) => chars_of(e.as_str()),
        None => return EntryAction::Skip,
    };
    if is(&ext, "pem") || is(&ext, "crt") || is(&ext, "cer") || is(&ext, "der") {
        assert(cert_extensions().contains(ext@)) by {
            assert(cert_extensions()[0] == "pem"@);
            assert(cert_extensions()[1] == "crt"@);
            assert(cert_extensions()[2] == "cer"@);
            assert(cert_extensions()[3] == "der"@);
        }
        return EntryAction::Certificate;
    }
    assert(!cert_extensions().contains(ext@)) by {
        if cert_extensions().contains(ext@) {
            let k = choose|k: int| 0 <= k < cert_extensions().len() && cert_extensions()[k] == ext@;
            assert(k == 0 || k == 1 || k == 2 || k == 3);
        }
    }
    let kind = if is(&ext, "py") {
        Some(SourceKind::Python)
    } else if is(&ext, "js") || is(&ext, "mjs") || is(&ext, "cjs") {
        Some(SourceKind::JavaScript)
    } else if is(&ext, "java") {
        Some(SourceKind::Java)
    } else if is(&ext, "c") || is(&ext, "h") {
        Some(SourceKind::C)
    } else if is(&ext, "cpp") || is(&ext, "cc") || is(&ext, "cxx") || is(&ext, "hpp") || is(&ext, "hxx") {
        Some(SourceKind::Cpp)
    } else if is(&ext, "cs") {
        Some(SourceKind::CSharp)
    } else if is(&ext, "go") {
        Some(SourceKind::Go)
    } else {
        None
    };
    match kind {
        Some(k) => EntryAction::Source(k),
        None => EntryAction::Skip,
    }
}

/// What the scanner of a language finds in a source text.
pub open spec fn source_detections(kind: SourceKind, source: Seq<char>) -> Seq<Detection> {
    match kind {
        SourceKind::Python => python_detections(source),
        SourceKind::JavaScript => javascript_detections(source),
        SourceKind::Java => java_detections(source),
        SourceKind::C => c_detections(source),
        SourceKind::Cpp => c_detections(source),
        SourceKind::CSharp => csharp_detections(source),
        SourceKind::Go => go_detections(source),
    }
}

/// Scan a source text with the scanner of its language.
pub fn scan_source(kind: SourceKind, source: &str, file_path: &str) -> (r: Vec<CryptoAsset>)
    ensures
        detections(r@, file_path@, source_detections(kind, source@)),
{
    match kind {
        SourceKind::Python => scan_python(source, file_path),
        SourceKind::JavaScript => scan_javascript(source, file_path),
        SourceKind::Java => scan_java(source, file_path),
        SourceKind::C => scan_c(source, file_path),
        SourceKind::Cpp => scan_cpp(source, file_path),
        SourceKind::CSharp => scan_csharp(source, file_path),
        SourceKind::Go => scan_go(source, file_path),
    }
}

} // verus!
