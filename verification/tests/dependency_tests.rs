use cbom::dependencies::{
    check_npm_package, check_npm_package_with_path, extract_python_package_name, parse_cargo_lock, parse_package_lock_json, parse_pipfile_lock,
    parse_requirements, parse_yarn_lock, scan_dependencies, trace_dependency_path,
    parse_cargo_packages, Lockfile,
};
use cbom::models::{CryptoAsset, DetectionSource, Severity};

#[test]
fn test_extract_python_package_name() {
    assert_eq!(
        extract_python_package_name("cryptography==41.0.0"),
        "cryptography"
    );
    assert_eq!(extract_python_package_name("requests>=2.28.1"), "requests");
    assert_eq!(extract_python_package_name("bcrypt"), "bcrypt");
    assert_eq!(extract_python_package_name("PyJWT>=2.0"), "pyjwt");
    assert_eq!(
        extract_python_package_name("argon2-cffi[dev]"),
        "argon2_cffi"
    );
    assert_eq!(extract_python_package_name("  passlib  "), "passlib");
    assert_eq!(extract_python_package_name("flask  # not crypto"), "flask");
}

#[test]
fn test_parse_requirements() {
    let contents = "\
# Python deps
cryptography==41.0.0
requests>=2.28
flask==2.3.0
PyJWT>=2.0
bcrypt
";
    let mut findings = Vec::new();
    parse_requirements(contents, "requirements.txt", &mut findings);

    let names: Vec<&str> = findings.iter().map(|f| f.library_source.as_str()).collect();
    assert!(names.contains(&"cryptography"));
    assert!(names.contains(&"pyjwt"));
    assert!(names.contains(&"bcrypt"));
    assert!(names.contains(&"requests"));
    assert!(!names.iter().any(|n| n.contains("flask")));
}

#[test]
fn test_parse_cargo_lock() {
    let contents = r#"
[[package]]
name = "ring"
version = "0.17.0"

[[package]]
name = "serde"
version = "1.0.0"

[[package]]
name = "rustls"
version = "0.21.0"
"#;
    let mut findings = Vec::new();
    parse_cargo_lock(contents, "Cargo.lock", &mut findings);

    let names: Vec<&str> = findings.iter().map(|f| f.library_source.as_str()).collect();
    assert!(names.contains(&"ring"));
    assert!(names.contains(&"rustls"));
    assert!(!names.contains(&"serde"));
}

#[test]
fn test_parse_package_lock_json() {
    let contents = r#"{
  "name": "my-app",
  "packages": {
    "": {},
    "node_modules/jsonwebtoken": {
      "version": "9.0.0"
    },
    "node_modules/express": {
      "version": "4.18.0"
    },
    "node_modules/bcrypt": {
      "version": "5.1.0"
    }
  }
}"#;
    let mut findings = Vec::new();
    parse_package_lock_json(contents, "package-lock.json", &mut findings);

    let names: Vec<&str> = findings.iter().map(|f| f.library_source.as_str()).collect();
    assert!(names.contains(&"jsonwebtoken"));
    assert!(names.contains(&"bcrypt"));
    assert!(!names.contains(&"express"));
}

#[test]
fn test_dependency_assets_have_correct_source() {
    let contents = "bcrypt==4.0.0\n";
    let mut findings = Vec::new();
    parse_requirements(contents, "requirements.txt", &mut findings);
    assert!(!findings.is_empty());
    assert_eq!(findings[0].detection_source, DetectionSource::Dependency);
}

// ---------------------------------------------------------------------------
// Further scenarios
// ---------------------------------------------------------------------------

#[test]
fn requirement_findings_carry_line_and_description() {
    let mut findings: Vec<CryptoAsset> = Vec::new();
    parse_requirements("# c\n\n-r base.txt\nbcrypt==4.0.0\n", "reqs/requirements.txt", &mut findings);
    assert_eq!(findings.len(), 1);
    let f = &findings[0];
    assert_eq!(f.line_number, 4);
    assert_eq!(f.file_path, "reqs/requirements.txt");
    assert_eq!(f.library_source, "bcrypt");
    assert_eq!(f.severity, Severity::Unknown);
    assert_eq!(f.algorithm, "DEPENDENCY:BCRYPT");
    assert_eq!(f.findings, vec!["bcrypt password hashing".to_string()]);
}

#[test]
fn requirements_report_each_line_that_names_a_package() {
    let mut findings: Vec<CryptoAsset> = Vec::new();
    parse_requirements("bcrypt\nbcrypt==4.0\n", "requirements.txt", &mut findings);
    assert_eq!(findings.len(), 2);
    assert_eq!(findings[1].line_number, 2);
}

#[test]
fn yarn_lock_packages_are_found() {
    let contents = "# yarn lockfile v1\n\n\"jsonwebtoken@^9.0.0\":\n  version \"9.0.0\"\n\nexpress@^4.18.0:\n  version \"4.18.0\"\n\n\"@noble/hashes@^1.3.0\":\n  version \"1.3.0\"\n";
    let mut findings: Vec<CryptoAsset> = Vec::new();
    parse_yarn_lock(contents, "yarn.lock", &mut findings);
    let names: Vec<&str> = findings.iter().map(|f| f.library_source.as_str()).collect();
    assert!(names.contains(&"jsonwebtoken"));
    assert!(!names.contains(&"@noble/hashes"));
    assert!(!names.contains(&"express"));
}

#[test]
fn pipfile_lock_packages_are_found() {
    let contents = r#"{"default": {"cryptography": {"version": "==41.0.0"}, "flask": {}}, "develop": {"PyNaCl": {}}}"#;
    let mut findings: Vec<CryptoAsset> = Vec::new();
    parse_pipfile_lock(contents, "Pipfile.lock", &mut findings);
    let names: Vec<&str> = findings.iter().map(|f| f.library_source.as_str()).collect();
    assert!(names.contains(&"cryptography"));
    assert!(names.contains(&"PyNaCl"));
    assert!(!names.contains(&"flask"));
}

#[test]
fn invalid_json_lockfiles_give_no_findings() {
    let mut findings: Vec<CryptoAsset> = Vec::new();
    parse_package_lock_json("not json", "package-lock.json", &mut findings);
    parse_pipfile_lock("{", "Pipfile.lock", &mut findings);
    assert!(findings.is_empty());
}

#[test]
fn cargo_dependency_chain_is_traced() {
    let contents = "[[package]]\nname = \"app\"\nversion = \"0.1.0\"\ndependencies = [\n \"rustls\",\n]\n\n[[package]]\nname = \"rustls\"\nversion = \"0.21.0\"\ndependencies = [\n \"ring\",\n]\n\n[[package]]\nname = \"ring\"\nversion = \"0.17.0\"\n";
    let packages = parse_cargo_packages(contents);
    assert_eq!(packages.len(), 3);
    assert_eq!(trace_dependency_path("ring", &packages), "app -> rustls -> ring");
    let mut findings: Vec<CryptoAsset> = Vec::new();
    parse_cargo_lock(contents, "Cargo.lock", &mut findings);
    let ring = findings.iter().find(|f| f.library_source == "ring").unwrap();
    assert_eq!(ring.dependency_path.as_deref(), Some("app -> rustls -> ring"));
}

#[test]
fn scan_dependencies_reads_every_lockfile_in_order() {
    let files = vec![
        Lockfile {
            file_name: "requirements.txt".to_string(),
            path: "p/requirements.txt".to_string(),
            contents: "bcrypt\n".to_string(),
        },
        Lockfile {
            file_name: "Cargo.lock".to_string(),
            path: "p/Cargo.lock".to_string(),
            contents: "[[package]]\nname = \"ring\"\nversion = \"0.17.0\"\n".to_string(),
        },
    ];
    let findings = scan_dependencies(&files);
    assert_eq!(findings.len(), 2);
    assert_eq!(findings[0].library_source, "bcrypt");
    assert_eq!(findings[1].library_source, "ring");
    assert!(findings
        .iter()
        .all(|f| f.detection_source == DetectionSource::Dependency));
}

#[test]
fn npm_packages_are_reported_once_per_lockfile() {
    let mut findings: Vec<CryptoAsset> = Vec::new();
    check_npm_package("bcrypt", "package-lock.json", &mut findings);
    check_npm_package("bcrypt", "package-lock.json", &mut findings);
    assert_eq!(findings.len(), 1);
    check_npm_package("bcrypt", "web/package-lock.json", &mut findings);
    assert_eq!(findings.len(), 2);
    check_npm_package("express", "package-lock.json", &mut findings);
    assert_eq!(findings.len(), 2);
    assert_eq!(findings[0].algorithm, "DEPENDENCY:BCRYPT");
}

#[test]
fn npm_dependency_path_names_a_plain_parent() {
    let deps = vec![
        ("jsonwebtoken".to_string(), vec!["jws".to_string(), "bcrypt".to_string()]),
        ("my-api".to_string(), vec!["bcrypt".to_string()]),
    ];
    let mut findings: Vec<CryptoAsset> = Vec::new();
    check_npm_package_with_path("bcrypt", "package-lock.json", &deps, &mut findings);
    assert_eq!(findings.len(), 1);
    assert_eq!(findings[0].dependency_path.as_deref(), Some("my-api -> bcrypt"));
    check_npm_package_with_path("bcrypt", "package-lock.json", &deps, &mut findings);
    assert_eq!(findings.len(), 1);
}

#[test]
fn hyphenated_python_packages_are_found_in_requirements() {
    let mut findings: Vec<CryptoAsset> = Vec::new();
    parse_requirements("argon2-cffi==23.1.0\npython-jose[cryptography]>=3.3\n", "requirements.txt", &mut findings);
    assert_eq!(findings.len(), 2);
    assert_eq!(findings[0].library_source, "argon2_cffi");
    assert_eq!(findings[0].algorithm, "DEPENDENCY:ARGON2_CFFI");
    assert_eq!(findings[0].findings, vec!["Argon2 password hashing".to_string()]);
    assert_eq!(findings[1].library_source, "python_jose");
    assert_eq!(findings[1].line_number, 2);
}

#[test]
fn cargo_dependency_chain_survives_cycles_and_prefers_plain_parents() {
    let contents = "[[package]]\nname = \"a\"\nversion = \"1\"\ndependencies = [\n \"b\",\n]\n\n[[package]]\nname = \"b\"\nversion = \"1\"\ndependencies = [\n \"a\",\n \"ring\",\n]\n\n[[package]]\nname = \"rustls\"\nversion = \"1\"\ndependencies = [\n \"ring\",\n]\n\n[[package]]\nname = \"ring\"\nversion = \"1\"\n";
    let packages = parse_cargo_packages(contents);
    assert_eq!(trace_dependency_path("ring", &packages), "a -> b -> ring");
    assert_eq!(trace_dependency_path("rustls", &packages), "");
}
