use cbom::display::{
    detail_lines, position_label, quantum_label, severity_count, severity_label, short_path,
    short_path_text, source_label, table_row, truncate, Tone,
};
use cbom::models::{CryptoAsset, DetectionSource, QuantumSafe, Severity};
use cbom::viewer::{key_of_char, Key, Viewer};

fn asset(algorithm: &str, file: &str, line: usize, library: &str) -> CryptoAsset {
    CryptoAsset::new(algorithm.to_string(), file.to_string(), line, library.to_string())
}

fn three() -> Vec<CryptoAsset> {
    vec![
        asset("AES", "a.py", 1, "Crypto"),
        asset("MD5", "b.py", 2, "hashlib"),
        asset("RSA", "c.java", 3, "javax.crypto"),
    ]
}

fn pieces(line: &[(String, Tone)]) -> Vec<String> {
    line.iter().map(|p| p.0.clone()).collect()
}

#[test]
fn test_viewer_new_selects_first_row() {
    let v = Viewer::new(three());
    assert_eq!(v.selected, Some(0));
    assert!(!v.show_help);
    let e = Viewer::new(Vec::new());
    assert_eq!(e.selected, None);
}

#[test]
fn test_viewer_next_wraps_around() {
    let mut v = Viewer::new(three());
    v.next();
    assert_eq!(v.selected, Some(1));
    v.next();
    assert_eq!(v.selected, Some(2));
    v.next();
    assert_eq!(v.selected, Some(0));
}

#[test]
fn test_viewer_previous_wraps_around() {
    let mut v = Viewer::new(three());
    v.previous();
    assert_eq!(v.selected, Some(2));
    v.previous();
    assert_eq!(v.selected, Some(1));
}

#[test]
fn test_viewer_moves_on_empty_table_do_nothing() {
    let mut v = Viewer::new(Vec::new());
    v.next();
    assert_eq!(v.selected, None);
    v.previous();
    assert_eq!(v.selected, None);
}

#[test]
fn test_viewer_none_selection_moves_to_first() {
    let mut v = Viewer::new(three());
    v.selected = None;
    v.previous();
    assert_eq!(v.selected, Some(0));
    v.selected = None;
    v.next();
    assert_eq!(v.selected, Some(0));
}

#[test]
fn test_down_then_up_returns() {
    for start in 0..3 {
        let mut v = Viewer::new(three());
        v.selected = Some(start);
        v.next();
        v.previous();
        assert_eq!(v.selected, Some(start));
        v.previous();
        v.next();
        assert_eq!(v.selected, Some(start));
    }
}

#[test]
fn test_viewer_handle_key() {
    let mut v = Viewer::new(three());
    assert!(!v.handle_key(Key::Down));
    assert_eq!(v.selected, Some(1));
    assert!(!v.handle_key(Key::Up));
    assert_eq!(v.selected, Some(0));
    assert!(!v.handle_key(Key::Help));
    assert!(v.show_help);
    assert!(!v.handle_key(Key::Help));
    assert!(!v.show_help);
    assert!(!v.handle_key(Key::Other));
    assert_eq!(v.selected, Some(0));
    assert!(v.handle_key(Key::Quit));
}

#[test]
fn test_key_of_char() {
    assert!(key_of_char('q') == Key::Quit);
    assert!(key_of_char('j') == Key::Down);
    assert!(key_of_char('k') == Key::Up);
    assert!(key_of_char('?') == Key::Help);
    assert!(key_of_char('x') == Key::Other);
}

#[test]
fn test_selected_asset() {
    let mut v = Viewer::new(three());
    v.next();
    assert_eq!(v.selected_asset().unwrap().algorithm, "MD5");
    v.selected = None;
    assert!(v.selected_asset().is_none());
    let e = Viewer::new(Vec::new());
    assert!(e.selected_asset().is_none());
}

#[test]
fn test_truncate_cuts_with_ellipsis() {
    assert_eq!(truncate("hello world", 5), "hell…");
    assert_eq!(truncate("hello", 5), "hello");
    assert_eq!(truncate("", 3), "");
    assert_eq!(truncate("abcdefghijklmnopqrstuvwxyz", 16), "abcdefghijklmno…");
}

#[test]
fn test_truncated_cells_fit() {
    for s in ["short", "a much longer cell that will be cut", "exactly16chars!!"] {
        let t = truncate(s, 16);
        assert!(t.chars().count() <= 16);
        if s.len() <= 16 {
            assert_eq!(t, s);
        }
    }
}

#[test]
fn test_short_path() {
    assert_eq!(short_path_text("a/b/c/d.py"), "…/c/d.py");
    assert_eq!(short_path_text("win\\dir\\file.cs"), "…/dir/file.cs");
    assert_eq!(short_path_text("x/y.py"), "x/y.py");
    assert_eq!(short_path_text("y.py"), "y.py");
    assert_eq!(short_path("a/b/c/d.py", 40), "…/c/d.py");
    assert_eq!(short_path("x/y.py", 4), "x/y…");
}

#[test]
fn test_labels() {
    assert_eq!(severity_label(&Severity::Critical), "🚨 CRITICAL");
    assert_eq!(severity_label(&Severity::Warning), "⚠  WARNING");
    assert_eq!(severity_label(&Severity::Info), "ℹ  INFO");
    assert_eq!(severity_label(&Severity::Safe), "✅ SAFE");
    assert_eq!(severity_label(&Severity::Unknown), "?  UNKNOWN");
    assert_eq!(quantum_label(&QuantumSafe::Vulnerable), "⚠ Vuln");
    assert_eq!(quantum_label(&QuantumSafe::Unknown), "? N/A");
    assert_eq!(source_label(&DetectionSource::Dependency), "Dep");
}

#[test]
fn test_table_row() {
    let mut a = asset("AES", "src/deep/dir/app.py", 12, "Crypto");
    a.severity = Severity::Safe;
    a.quantum_safe = QuantumSafe::Safe;
    assert_eq!(
        table_row(&a),
        vec!["AES", "✅ SAFE", "✅ Safe", "Code", "Crypto", "…/dir/app.py:12"]
    );
    let mut d = asset("DEPENDENCY:RING", "Cargo.lock", 0, "ring");
    d.detection_source = DetectionSource::Dependency;
    assert_eq!(table_row(&d)[5], "Cargo.lock");
    assert_eq!(table_row(&d)[3], "Dep");
}

#[test]
fn test_detail_lines() {
    let mut a = asset("AES", "src/app.py", 7, "Crypto");
    a.severity = Severity::Critical;
    a.key_size = Some(128);
    a.mode = Some("ECB".to_string());
    a.findings = vec!["ECB mode is insecure".to_string()];
    a.remediation = Some("Use GCM\nwith a random nonce".to_string());
    let ls = detail_lines(&a);
    assert_eq!(ls.len(), 11);
    assert_eq!(pieces(&ls[0]), vec!["Algorithm: ", "AES", "  ", "🚨 CRITICAL"]);
    assert!(ls[0][3].1 == Tone::Graded(Severity::Critical));
    assert_eq!(pieces(&ls[1]), vec!["Location:  ", "src/app.py:7"]);
    assert_eq!(pieces(&ls[2]), vec!["Library:   ", "Crypto"]);
    assert_eq!(pieces(&ls[3]), vec!["Details:   ", "key=128bit, mode=ECB"]);
    assert_eq!(pieces(&ls[4]), vec![""]);
    assert_eq!(pieces(&ls[5]), vec!["Findings:"]);
    assert_eq!(pieces(&ls[6]), vec!["  • ", "ECB mode is insecure"]);
    assert_eq!(pieces(&ls[7]), vec![""]);
    assert_eq!(pieces(&ls[8]), vec!["🔧 Fix Suggestion:"]);
    assert_eq!(pieces(&ls[9]), vec!["  ", "Use GCM"]);
    assert_eq!(pieces(&ls[10]), vec!["  ", "with a random nonce"]);
}

#[test]
fn test_detail_lines_minimal() {
    let mut a = asset("SHA256", "h.py", 3, "hashlib");
    a.dependency_path = Some("app → lib".to_string());
    let ls = detail_lines(&a);
    assert_eq!(ls.len(), 4);
    assert_eq!(pieces(&ls[3]), vec!["Dep Path:  ", "app → lib"]);
    assert!(ls[3][1].1 == Tone::DepPath);
}

#[test]
fn test_severity_count_adds_up() {
    let mut v = three();
    v[0].severity = Severity::Safe;
    v[1].severity = Severity::Critical;
    let c = severity_count(&v, Severity::Critical);
    let w = severity_count(&v, Severity::Warning);
    let i = severity_count(&v, Severity::Info);
    let s = severity_count(&v, Severity::Safe);
    let u = severity_count(&v, Severity::Unknown);
    assert_eq!((c, w, i, s, u), (1, 0, 0, 1, 1));
    assert_eq!(c + w + i + s + u, v.len());
}

#[test]
fn test_position_label() {
    assert_eq!(position_label(Some(0), 3), "1/3");
    assert_eq!(position_label(Some(9), 10), "10/10");
    assert_eq!(position_label(None, 3), "—");
}
