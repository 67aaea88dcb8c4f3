use cliscord::scanner::{has_ldb_suffix, scan_bytes, tok, u8_alnum, UNDERSCORE};

fn span2() -> Vec<u8> {
    // "mfa." + 25 segment bytes + "_" + 58 segment bytes = 88 bytes
    let mut v = Vec::new();
    v.extend_from_slice(b"mfa.");
    v.extend_from_slice(&[b'x'; 25]);
    v.push(b'_');
    v.extend_from_slice(&[b'y'; 58]);
    assert_eq!(v.len(), 88);
    v
}

fn span1() -> Vec<u8> {
    // 24 segment bytes + "_" + 6 segment bytes + "." + 27 segment bytes = 59
    let mut v = Vec::new();
    v.extend_from_slice(&[b'a'; 24]);
    v.push(b'_');
    v.extend_from_slice(&[b'b'; 6]);
    v.push(b'.');
    v.extend_from_slice(&[b'c'; 27]);
    assert_eq!(v.len(), 59);
    v
}

#[test]
fn no_span_reports_not_found() {
    assert_eq!(scan_bytes(b"", UNDERSCORE), None);
    assert_eq!(scan_bytes(b"nothing to see here!", UNDERSCORE), None);
    assert_eq!(scan_bytes(&[0u8; 300], UNDERSCORE), None);
    // an almost-span: the shape-2 prefix without the rest
    assert_eq!(scan_bytes(b"mfa.too-short", UNDERSCORE), None);
}

#[test]
fn lone_shape2_span_is_returned_verbatim() {
    let s = span2();
    assert_eq!(scan_bytes(&s, UNDERSCORE), Some(s.clone()));
    let mut buf = Vec::new();
    buf.extend_from_slice(b"!@ noise; ");
    buf.extend_from_slice(&s);
    buf.extend_from_slice(b" trailing junk");
    assert_eq!(scan_bytes(&buf, UNDERSCORE), Some(s.clone()));
}

#[test]
fn shape2_match_survives_overlapping_prefix_start() {
    // noise ending in "mf" must not make the automaton miss the span
    let s = span2();
    let mut buf = Vec::new();
    buf.extend_from_slice(b"junk!mf");
    buf.extend_from_slice(&s);
    assert_eq!(scan_bytes(&buf, UNDERSCORE), Some(s));
}

#[test]
fn lone_shape1_span_is_returned_verbatim() {
    let s = span1();
    assert_eq!(scan_bytes(&s, UNDERSCORE), Some(s.clone()));
    let mut buf = Vec::new();
    buf.extend_from_slice(b"-- log line --\n");
    buf.extend_from_slice(&s);
    buf.extend_from_slice(b"\n-- done --");
    assert_eq!(scan_bytes(&buf, UNDERSCORE), Some(s));
}

#[test]
fn shape1_long_first_segment_keeps_last_24_bytes() {
    // 30 segment bytes before the separator: the emitted window drops the
    // first 6 and keeps exactly 24 of them
    let mut buf = Vec::new();
    buf.extend_from_slice(&[b'a'; 30]);
    buf.push(b'_');
    buf.extend_from_slice(&[b'b'; 6]);
    buf.push(b'.');
    buf.extend_from_slice(&[b'c'; 27]);
    let mut expect = Vec::new();
    expect.extend_from_slice(&[b'a'; 24]);
    expect.push(b'_');
    expect.extend_from_slice(&[b'b'; 6]);
    expect.push(b'.');
    expect.extend_from_slice(&[b'c'; 27]);
    assert_eq!(scan_bytes(&buf, UNDERSCORE), Some(expect));
}

#[test]
fn shape2_pass_wins_over_shape1() {
    // a shape-1 span stands earlier in the buffer, but the shape-2 pass
    // runs first over the whole buffer and its match is returned
    let s1 = span1();
    let s2 = span2();
    let mut buf = Vec::new();
    buf.extend_from_slice(&s1);
    buf.push(b'\n');
    buf.extend_from_slice(&s2);
    assert_eq!(scan_bytes(&buf, UNDERSCORE), Some(s2));
}

#[test]
fn shape1_with_dot_separator() {
    let mut buf = Vec::new();
    buf.extend_from_slice(&[b'a'; 24]);
    buf.push(b'.');
    buf.extend_from_slice(&[b'b'; 6]);
    buf.push(b'.');
    buf.extend_from_slice(&[b'c'; 27]);
    assert_eq!(scan_bytes(&buf, b'.'), Some(buf.clone()));
    // with the underscore separator the same buffer holds no span
    assert_eq!(scan_bytes(&buf, UNDERSCORE), None);
}

#[test]
fn tok_takes_first_matching_file() {
    let s2 = span2();
    let mut second = Vec::new();
    second.extend_from_slice(b"padding ");
    second.extend_from_slice(&s2);
    let files = vec![b"no match in this file".to_vec(), second, span1()];
    assert_eq!(tok(&files, UNDERSCORE), Some(s2));
}

#[test]
fn tok_not_found_across_files() {
    let files = vec![b"first".to_vec(), b"second".to_vec()];
    assert_eq!(tok(&files, UNDERSCORE), None);
    let none: Vec<Vec<u8>> = Vec::new();
    assert_eq!(tok(&none, UNDERSCORE), None);
}

#[test]
fn tok_resolves_the_same_twice() {
    let mut f = Vec::new();
    f.extend_from_slice(b"log ");
    f.extend_from_slice(&span2());
    let files = vec![b"empty".to_vec(), f];
    let first = tok(&files, UNDERSCORE);
    let second = tok(&files, UNDERSCORE);
    assert_eq!(first, second);
    assert!(first.is_some());
    let empty = vec![b"nothing".to_vec()];
    assert_eq!(tok(&empty, UNDERSCORE), tok(&empty, UNDERSCORE));
}

#[test]
fn ldb_suffix_filter() {
    assert!(has_ldb_suffix(&b"000123.ldb".to_vec()));
    assert!(has_ldb_suffix(&b".ldb".to_vec()));
    assert!(!has_ldb_suffix(&b"ldb".to_vec()));
    assert!(!has_ldb_suffix(&b"000123.log".to_vec()));
    assert!(!has_ldb_suffix(&b"000123.ldb.bak".to_vec()));
}

#[test]
fn segment_byte_class() {
    assert!(u8_alnum(b'0'));
    assert!(u8_alnum(b'9'));
    assert!(u8_alnum(b'A'));
    assert!(u8_alnum(b'Z'));
    assert!(u8_alnum(b'a'));
    assert!(u8_alnum(b'z'));
    assert!(u8_alnum(b'_'));
    assert!(!u8_alnum(b'.'));
    assert!(!u8_alnum(b'-'));
    assert!(!u8_alnum(b' '));
    assert!(!u8_alnum(0));
}
