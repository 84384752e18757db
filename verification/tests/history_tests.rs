use cbom::history::{build_timeline, diff_assets, is_scannable_path, parse_git_log, short_hash};
use cbom::models::CryptoAsset;

fn asset(algorithm: &str, file: &str, library: &str) -> CryptoAsset {
    CryptoAsset::new(algorithm.to_string(), file.to_string(), 1, library.to_string())
}

fn commit(h: &str, s: &str, d: &str) -> (String, String, String) {
    (h.to_string(), s.to_string(), d.to_string())
}

fn algorithms(v: &[CryptoAsset]) -> Vec<String> {
    v.iter().map(|a| a.algorithm.clone()).collect()
}

#[test]
fn test_parse_git_log_lines() {
    let log = "0123456789abcdef|Add AES|2024-01-02\n\nno separators here\nabc|only one field\ndef|Fix | pipes|2024-01-01\n";
    let commits = parse_git_log(log);
    assert_eq!(
        commits,
        vec![
            commit("0123456789abcdef", "Add AES", "2024-01-02"),
            commit("def", "Fix ", " pipes|2024-01-01"),
        ]
    );
}

#[test]
fn test_parse_git_log_empty() {
    assert!(parse_git_log("").is_empty());
    assert!(parse_git_log("\n\n").is_empty());
}

#[test]
fn test_short_hash() {
    assert_eq!(short_hash("0123456789abcdef"), "0123456");
    assert_eq!(short_hash("0123456"), "0123456");
    assert_eq!(short_hash("abc"), "abc");
}

#[test]
fn test_is_scannable_path() {
    assert!(is_scannable_path("src/app.py"));
    assert!(is_scannable_path("web/index.ts"));
    assert!(is_scannable_path("certs/server.pem"));
    assert!(is_scannable_path("requirements.txt"));
    assert!(is_scannable_path("sub/Cargo.lock"));
    assert!(is_scannable_path("native/lib.c"));
    assert!(!is_scannable_path("README.md"));
    assert!(!is_scannable_path("Cargo.toml"));
    assert!(!is_scannable_path("image.png"));
}

#[test]
fn test_diff_assets_by_algorithm_and_library() {
    let prev = vec![asset("SHA256", "a.py", "hashlib"), asset("MD5", "b.py", "hashlib")];
    let cur = vec![
        asset("SHA256", "moved.py", "hashlib"),
        asset("AES", "c.py", "Crypto"),
        asset("SHA256", "d.js", "node:crypto"),
    ];
    let (added, removed) = diff_assets(&prev, &cur);
    assert_eq!(algorithms(&added), vec!["AES", "SHA256"]);
    assert_eq!(added[1].library_source, "node:crypto");
    assert_eq!(algorithms(&removed), vec!["MD5"]);
}

#[test]
fn test_first_commit_adds_everything() {
    let cur = vec![asset("AES", "a.py", "Crypto"), asset("AES", "b.py", "Crypto")];
    let (added, removed) = diff_assets(&[], &cur);
    assert_eq!(added.len(), 2);
    assert!(removed.is_empty());
}

#[test]
fn test_unchanged_inventory_shows_no_change() {
    let s = vec![asset("RSA", "a.java", "javax.crypto"), asset("MD5", "b.py", "hashlib")];
    let (added, removed) = diff_assets(&s, &s);
    assert!(added.is_empty());
    assert!(removed.is_empty());
}

#[test]
fn test_build_timeline_newest_first() {
    let commits = vec![
        commit("ccccccccccccc", "Drop MD5", "2024-03-03"),
        commit("bbbbbbbbbbbbb", "Add AES", "2024-02-02"),
        commit("aaaaaaaaaaaaa", "Initial", "2024-01-01"),
    ];
    let scans = vec![
        vec![asset("AES", "a.py", "Crypto")],
        vec![asset("MD5", "m.py", "hashlib"), asset("AES", "a.py", "Crypto")],
        vec![asset("MD5", "m.py", "hashlib")],
    ];
    let t = build_timeline(&commits, &scans);
    assert_eq!(t.len(), 3);
    assert_eq!(t[0].hash, "ccccccc");
    assert_eq!(t[0].subject, "Drop MD5");
    assert_eq!(t[0].date, "2024-03-03");
    assert_eq!(t[0].total_assets, 1);
    assert!(t[0].added.is_empty());
    assert_eq!(algorithms(&t[0].removed), vec!["MD5"]);
    assert_eq!(algorithms(&t[1].added), vec!["AES"]);
    assert!(t[1].removed.is_empty());
    assert_eq!(t[2].hash, "aaaaaaa");
    assert_eq!(algorithms(&t[2].added), vec!["MD5"]);
    assert!(t[2].removed.is_empty());
}
