use hermit::engine::flags::{FlagError, Flags};

#[test]
fn test_compact_flags() {
    let args = vec!["-abc".to_string()];
    let flags = Flags::new(&args).unwrap();
    assert!(flags.has_flag('a'));
    assert!(flags.has_flag('b'));
    assert!(flags.has_flag('c'));
    assert!(!flags.has_flag('d'));
}

#[test]
fn test_spaced_flags() {
    let args = vec!["-a".to_string(), "-b".to_string(), "-c".to_string()];
    let flags = Flags::new(&args).unwrap();
    assert!(flags.has_flag('a'));
    assert!(flags.has_flag('b'));
    assert!(flags.has_flag('c'));
    assert!(!flags.has_flag('d'));
}

#[test]
fn test_value_flags() {
    let args = vec!["-a".to_string(), "value".to_string(), "-b".to_string()];
    let value_flags = vec!['a'];
    let flags = Flags::with_value_flags(&args, &value_flags).unwrap();
    assert!(flags.has_flag('a'));
    assert!(flags.has_flag('b'));
    assert_eq!(flags.get_value('a'), Some("value".to_string()));
    assert_eq!(flags.get_value('b'), None);
}

#[test]
fn test_missing_value() {
    let args = vec!["-a".to_string()];
    let value_flags = vec!['a'];
    let result = Flags::with_value_flags(&args, &value_flags);
    assert!(matches!(result, Err(FlagError::MissingValue('a'))));
}

#[test]
fn test_duplicate_flags() {
    let args = vec!["-a".to_string(), "-a".to_string()];
    let result = Flags::new(&args);
    assert!(matches!(result, Err(FlagError::DuplicateFlag('a'))));
}

#[test]
fn test_from_str() {
    let flags = Flags::from_str("-abc -d value").unwrap();
    assert!(flags.has_flag('a'));
    assert!(flags.has_flag('b'));
    assert!(flags.has_flag('c'));
    assert!(flags.has_flag('d'));
}

#[test]
fn test_add_and_remove() {
    let mut flags = Flags::default();
    flags.add_flag('a');
    assert!(flags.has_flag('a'));
    flags.remove_flag('a');
    assert!(!flags.has_flag('a'));
}

#[test]
fn test_add_value() {
    let mut flags = Flags::default();
    flags.add_value('a', "value".to_string());
    assert!(flags.has_flag('a'));
    assert_eq!(flags.get_value('a'), Some("value".to_string()));
}

#[test]
fn test_clear() {
    let mut flags = Flags::default();
    flags.add_flag('a');
    flags.add_value('b', "value".to_string());
    flags.clear();
    assert!(flags.is_empty());
    assert_eq!(flags.len(), 0);
}

#[test]
fn test_empty_flag_error_message() {
    let args = vec!["-".to_string()];
    let result = Flags::new(&args);
    match result {
        Err(e) => assert_eq!(e.message(), "Invalid flag format: Empty flag"),
        Ok(_) => panic!("a bare dash must be rejected"),
    }
}

#[test]
fn test_value_flag_consumes_argument() {
    // the argument consumed as a value is not scanned for flags
    let args = vec!["-a".to_string(), "-b".to_string()];
    let value_flags = vec!['a'];
    let flags = Flags::with_value_flags(&args, &value_flags).unwrap();
    assert!(flags.has_flag('a'));
    assert!(!flags.has_flag('b'));
    assert_eq!(flags.get_value('a'), Some("-b".to_string()));
}

#[test]
fn test_values_listing() {
    let args = vec!["-a".to_string(), "one".to_string(), "-b".to_string(), "two".to_string()];
    let value_flags = vec!['a', 'b'];
    let flags = Flags::with_value_flags(&args, &value_flags).unwrap();
    let values = flags.values();
    assert_eq!(values.len(), 2);
    assert!(values.contains(&('a', "one".to_string())));
    assert!(values.contains(&('b', "two".to_string())));
}
