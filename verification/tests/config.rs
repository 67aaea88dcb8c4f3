use cliscord::config::{
    bytes_eq, clone_bytes, find_id_by_name, parse_config, to_lower, NamedEntry,
};

#[test]
fn three_config_lines() {
    let (a, b, c) = parse_config(&b"MyServer\ngeneral\n%n: %m".to_vec());
    assert_eq!(a, Some(b"MyServer".to_vec()));
    assert_eq!(b, Some(b"general".to_vec()));
    assert_eq!(c, Some(b"%n: %m".to_vec()));
}

#[test]
fn missing_trailing_lines_are_absent() {
    let (a, b, c) = parse_config(&b"MyServer".to_vec());
    assert_eq!(a, Some(b"MyServer".to_vec()));
    assert_eq!(b, None);
    assert_eq!(c, None);
    let (a, b, c) = parse_config(&b"MyServer\ngeneral".to_vec());
    assert_eq!(a, Some(b"MyServer".to_vec()));
    assert_eq!(b, Some(b"general".to_vec()));
    assert_eq!(c, None);
}

#[test]
fn empty_lines_are_absent() {
    let (a, b, c) = parse_config(&b"".to_vec());
    assert_eq!(a, None);
    assert_eq!(b, None);
    assert_eq!(c, None);
    let (a, b, c) = parse_config(&b"\ngeneral\n".to_vec());
    assert_eq!(a, None);
    assert_eq!(b, Some(b"general".to_vec()));
    assert_eq!(c, None);
}

#[test]
fn fourth_line_is_ignored() {
    let (a, b, c) = parse_config(&b"a\nb\nc\nd".to_vec());
    assert_eq!(a, Some(b"a".to_vec()));
    assert_eq!(b, Some(b"b".to_vec()));
    assert_eq!(c, Some(b"c".to_vec()));
}

#[test]
fn ascii_lowercase() {
    assert_eq!(to_lower(&b"MyServer".to_vec()), b"myserver".to_vec());
    assert_eq!(to_lower(&b"ABC xyz_09!".to_vec()), b"abc xyz_09!".to_vec());
    assert_eq!(to_lower(&b"".to_vec()), b"".to_vec());
}

#[test]
fn byte_equality_and_copy() {
    assert!(bytes_eq(&b"abc".to_vec(), &b"abc".to_vec()));
    assert!(!bytes_eq(&b"abc".to_vec(), &b"abd".to_vec()));
    assert!(!bytes_eq(&b"abc".to_vec(), &b"ab".to_vec()));
    assert_eq!(clone_bytes(&b"abc".to_vec()), b"abc".to_vec());
}

#[test]
fn lookup_is_case_insensitive() {
    let entries = vec![
        NamedEntry { id: b"1".to_vec(), name: Some(b"General".to_vec()) },
        NamedEntry { id: b"2".to_vec(), name: Some(b"Random".to_vec()) },
    ];
    assert_eq!(find_id_by_name(&entries, &b"random".to_vec()), Some(b"2".to_vec()));
    assert_eq!(find_id_by_name(&entries, &b"general".to_vec()), Some(b"1".to_vec()));
    assert_eq!(find_id_by_name(&entries, &b"absent".to_vec()), None);
}

#[test]
fn lookup_keeps_the_last_match() {
    let entries = vec![
        NamedEntry { id: b"1".to_vec(), name: Some(b"dup".to_vec()) },
        NamedEntry { id: b"2".to_vec(), name: Some(b"dup".to_vec()) },
    ];
    assert_eq!(find_id_by_name(&entries, &b"dup".to_vec()), Some(b"2".to_vec()));
}

#[test]
fn lookup_skips_unnamed_entries() {
    let entries = vec![
        NamedEntry { id: b"1".to_vec(), name: None },
        NamedEntry { id: b"2".to_vec(), name: Some(b"voice".to_vec()) },
    ];
    assert_eq!(find_id_by_name(&entries, &b"voice".to_vec()), Some(b"2".to_vec()));
    assert_eq!(find_id_by_name(&entries, &b"other".to_vec()), None);
}
