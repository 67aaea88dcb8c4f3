use cliscord::filetype::{
    code_block, default_filename, false_matcher, infer, is_text_type, plan_message,
    shebang_type, FileType, MatcherKind, PlanError, SendPlan,
};

#[test]
fn magic_number_detection_reaches_the_result() {
    // the PNG signature: detection must report the real type, not echo
    let png = vec![0x89u8, b'P', b'N', b'G', 0x0D, 0x0A, 0x1A, 0x0A];
    let t = infer(&png);
    assert_eq!(t.kind, MatcherKind::Other);
    assert_eq!(t.mime, b"image/png".to_vec());
    assert_eq!(t.ext, b"png".to_vec());
}

#[test]
fn shell_scripts_are_detected_as_text() {
    let t = infer(&b"#!/bin/sh\necho hi".to_vec());
    assert_eq!(t.kind, MatcherKind::Text);
    assert_eq!(t.mime, b"text/x-shellscript".to_vec());
    assert_eq!(t.ext, b"sh".to_vec());
}

#[test]
fn undetected_buffer_falls_back_to_plain_text() {
    let t = infer(&b"just some words".to_vec());
    assert_eq!(t.kind, MatcherKind::Text);
    assert_eq!(t.mime, b"text/plain".to_vec());
    assert_eq!(t.ext, b"txt".to_vec());
}

#[test]
fn shebang_env_node_is_javascript() {
    let t = shebang_type(&b"#!/usr/bin/env node".to_vec());
    assert_eq!(t.kind, MatcherKind::App);
    assert_eq!(t.mime, b"application/javascript".to_vec());
    assert_eq!(t.ext, b"js".to_vec());
}

#[test]
fn shebang_interpreter_table() {
    let t = shebang_type(&b"#!/usr/bin/python3".to_vec());
    assert_eq!((t.kind, t.ext), (MatcherKind::Text, b"py".to_vec()));
    let t = shebang_type(&b"#!/bin/sh".to_vec());
    assert_eq!((t.kind, t.ext), (MatcherKind::Text, b"sh".to_vec()));
    let t = shebang_type(&b"#!/usr/bin/env ts-node".to_vec());
    assert_eq!((t.kind, t.ext), (MatcherKind::Text, b"ts".to_vec()));
    let t = shebang_type(&b"#!/bin/env ruby".to_vec());
    assert_eq!((t.kind, t.ext), (MatcherKind::Text, b"rb".to_vec()));
    let t = shebang_type(&b"#!/usr/bin/perl".to_vec());
    assert_eq!((t.kind, t.ext), (MatcherKind::Text, b"perl".to_vec()));
}

#[test]
fn shebang_is_case_insensitive_in_the_interpreter() {
    let t = shebang_type(&b"#!/usr/bin/env PYTHON".to_vec());
    assert_eq!((t.kind, t.ext), (MatcherKind::Text, b"py".to_vec()));
}

#[test]
fn unknown_interpreter_is_plain_text() {
    let t = shebang_type(&b"#!/usr/bin/whatever".to_vec());
    assert_eq!(t.mime, b"text/plain".to_vec());
    assert_eq!(t.ext, b"txt".to_vec());
}

#[test]
fn no_shebang_prefix_is_plain_text() {
    let t = shebang_type(&b"plain words".to_vec());
    assert_eq!(t.ext, b"txt".to_vec());
    let t = shebang_type(&b"#!x".to_vec());
    assert_eq!(t.ext, b"txt".to_vec());
}

#[test]
fn text_decision() {
    let text = FileType { kind: MatcherKind::Text, mime: b"text/plain".to_vec(), ext: b"txt".to_vec() };
    assert!(is_text_type(&text));
    let js = FileType {
        kind: MatcherKind::App,
        mime: b"application/javascript".to_vec(),
        ext: b"js".to_vec(),
    };
    assert!(is_text_type(&js));
    let zip = FileType {
        kind: MatcherKind::App,
        mime: b"application/zip".to_vec(),
        ext: b"zip".to_vec(),
    };
    assert!(!is_text_type(&zip));
    let img = FileType { kind: MatcherKind::Other, mime: b"image/png".to_vec(), ext: b"png".to_vec() };
    assert!(!is_text_type(&img));
}

#[test]
fn block_plan_rejects_oversize_and_non_text() {
    assert_eq!(plan_message(1990, 3, true, true), Err(PlanError::TooLongForBlock));
    assert_eq!(plan_message(100, 3, false, true), Err(PlanError::NotTextForBlock));
    assert_eq!(plan_message(100, 3, true, true), Ok(SendPlan::CodeBlock));
    // exactly at the limit: 1989 + 8 + 3 == 2000 still fits
    assert_eq!(plan_message(1989, 3, true, true), Ok(SendPlan::CodeBlock));
    assert_eq!(plan_message(1990, 3, true, true), Err(PlanError::TooLongForBlock));
}

#[test]
fn inline_and_attachment_plans() {
    assert_eq!(plan_message(100, 3, true, false), Ok(SendPlan::Inline));
    assert_eq!(plan_message(1999, 3, true, false), Ok(SendPlan::Inline));
    assert_eq!(plan_message(2000, 3, true, false), Ok(SendPlan::Attachment));
    assert_eq!(plan_message(100, 3, false, false), Ok(SendPlan::Attachment));
}

#[test]
fn code_block_wraps_payload() {
    let out = code_block(&b"py".to_vec(), &b"print(1)".to_vec());
    assert_eq!(out, b"```py\nprint(1)\n```".to_vec());
}

#[test]
fn default_attachment_name() {
    assert_eq!(default_filename(&b"png".to_vec()), b"message.png".to_vec());
}

#[test]
fn the_false_matcher_matches_nothing() {
    assert!(!false_matcher(b""));
    assert!(!false_matcher(b"anything"));
}
