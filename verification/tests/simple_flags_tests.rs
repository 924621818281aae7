use hermit::flags::Flags;

#[test]
fn test_flags() {
    let args = vec![
        "-a".to_string(),
        "-b".to_string(),
        "value1".to_string(),
        "-c".to_string(),
        "value2".to_string(),
    ];
    let flags = Flags::new(&args);

    assert!(flags.has_flag('a'));
    assert!(flags.has_flag('b'));

    assert_eq!(flags.values(), &["value1", "value2"]);
}

#[test]
fn test_flags_no_values() {
    let args = vec!["-a".to_string(), "-b".to_string(), "-c".to_string()];
    let flags = Flags::new(&args);

    assert!(flags.has_flag('a'));
    assert!(flags.has_flag('b'));
    assert!(flags.has_flag('c'));

    assert_eq!(flags.values(), &[] as &[String]);
}

#[test]
fn flags_test_compact_flags() {
    let args = vec!["-abc".to_string()];
    let flags = Flags::new(&args);

    assert!(flags.has_flag('a'));
    assert!(flags.has_flag('b'));
    assert!(flags.has_flag('c'));
}

#[test]
fn test_double_dash_stripped() {
    let args = vec!["--long".to_string()];
    let flags = Flags::new(&args);
    assert!(flags.has_flag('l'));
    assert!(flags.has_flag('o'));
    assert!(flags.has_flag('n'));
    assert!(flags.has_flag('g'));
    assert!(!flags.has_flag('-'));
}
