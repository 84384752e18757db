use cbom::setup::confirms;

#[test]
fn test_confirms_defaults_to_yes() {
    assert!(confirms(""));
    assert!(confirms("\n"));
    assert!(confirms("y\n"));
    assert!(confirms("  YES  "));
    assert!(confirms("Yes\r\n"));
    assert!(!confirms("n\n"));
    assert!(!confirms("no"));
    assert!(!confirms("yep"));
}
