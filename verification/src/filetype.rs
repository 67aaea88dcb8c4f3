//! File-type inference: decides whether a payload is text, and under
//! what type it should travel, from magic numbers and shebang lines.
//!
//! Magic-number detection comes from the `infer` crate, behind a trusted
//! wrapper; the shebang fallback — classifying a script by the
//! interpreter its first line names — is this crate's own verified
//! logic, as is the decision between inline text, code block and file
//! attachment.

use crate::config::lower_seq;
use crate::config::to_lower;
use vstd::prelude::*;
use vstd::slice::slice_index_get;
use vstd::slice::slice_subrange;
use vstd::slice::slice_to_vec;

verus! {

/// The category a detected file type falls in, as far as this tool
/// cares: text, application, or anything else.
#[derive(Clone, Copy, Debug, PartialEq, Eq, Structural)]
pub enum MatcherKind {
    /// A text type.
    Text,
    /// An application type.
    App,
    /// Any other category.
    Other,
}

/// The mathematical content of a file type: its category, MIME type and
/// file extension.
#[verifier::ext_equal]
pub ghost struct FileTypeView {
    /// The category.
    pub kind: MatcherKind,
    /// The MIME type bytes.
    pub mime: Seq<u8>,
    /// The file-extension bytes.
    pub ext: Seq<u8>,
}

/// A resolved file type: its category, MIME type and file extension.
#[derive(Debug, Clone, PartialEq)]
pub struct FileType {
    /// The category.
    pub kind: MatcherKind,
    /// The MIME type bytes.
    pub mime: Vec<u8>,
    /// The file-extension bytes.
    pub ext: Vec<u8>,
}

impl View for FileType {
    type V = FileTypeView;

    open spec fn view(&self) -> FileTypeView {
        FileTypeView { kind: self.kind, mime: self.mime@, ext: self.ext@ }
    }
}

/// What magic-number detection yields on a buffer: a function of the
/// bytes alone, named here and pinned down only by the trusted wrapper
/// below.
pub uninterp spec fn detected_type(b: Seq<u8>) -> Option<FileTypeView>;

/// Relies on infer::get: magic-number file-type detection, a pure
/// function of the buffer bytes, reported as category, MIME type and
/// extension.
#[verifier::external_body]
fn detect(buf: &Vec<u8>) -> (r: Option<FileType>)
    ensures
        r matches Some(t) ==> detected_type(buf@) == Some(t@),
        r is None ==> detected_type(buf@) is None,
{
    infer::get(buf).map(|t| FileType {
        kind: match t.matcher_type() {
            infer::MatcherType::Text => MatcherKind::Text,
            infer::MatcherType::App => MatcherKind::App,
            _ => MatcherKind::Other,
        },
        mime: t.mime_type().as_bytes().to_vec(),
        ext: t.extension().as_bytes().to_vec(),
    })
}

/// A matcher that accepts no buffer: the stand-in used where a
/// file-type entry wants a matcher function but none applies.
pub fn false_matcher(_buf: &[u8]) -> (r: bool)
    ensures
        r == false,
{
    false
}

/// `p` stands at the front of `b`.
pub open spec fn is_prefix(p: Seq<u8>, b: Seq<u8>) -> bool {
    p.len() <= b.len() && b.subrange(0, p.len() as int) == p
}

/// Decides whether `b` starts with `p`.
pub fn starts_with(b: &Vec<u8>, p: &[u8]) -> (r: bool)
    ensures
        r == is_prefix(p@, b@),
{
    let m = p.len();
    if m > b.len() {
        return false;
    }
    let mut i: usize = 0;
    while i < m
        invariant
            m == p@.len() <= b@.len(),
            i <= m,
            forall|j: int| 0 <= j < i ==> b@[j] == p@[j],
        decreases m - i,
    {
        if b[i] != *slice_index_get(p, i) {
            proof {
                assert(b@.subrange(0, m as int)[i as int] == b@[i as int]);
            }
            return false;
        }
        i = i + 1;
    }
    proof {
        assert(b@.subrange(0, m as int) =~= p@);
    }
    true
}

/// The shebang prefix `#!/usr/bin/`.
pub open spec fn pfx_usr_slash() -> Seq<u8> {
    seq![35u8, 33, 47, 117, 115, 114, 47, 98, 105, 110, 47]
}

/// The shebang prefix `#!/bin/`.
pub open spec fn pfx_bin_slash() -> Seq<u8> {
    seq![35u8, 33, 47, 98, 105, 110, 47]
}

/// The shebang prefix `#!/usr/bin/env ` with its trailing space.
pub open spec fn pfx_env_usr() -> Seq<u8> {
    seq![35u8, 33, 47, 117, 115, 114, 47, 98, 105, 110, 47, 101, 110, 118, 32]
}

/// The shebang prefix `#!/bin/env ` with its trailing space.
pub open spec fn pfx_env_bin() -> Seq<u8> {
    seq![35u8, 33, 47, 98, 105, 110, 47, 101, 110, 118, 32]
}

/// The shebang prefix `#!/usr/bin` without its trailing slash, the form
/// the original stripping rule tests.
pub open spec fn pfx_usr_noslash() -> Seq<u8> {
    seq![35u8, 33, 47, 117, 115, 114, 47, 98, 105, 110]
}

/// The interpreter name a shebang buffer carries: everything after the
/// recognized prefix, the `env` forms stripped first.
pub open spec fn shebang_lang(b: Seq<u8>) -> Seq<u8> {
    if is_prefix(pfx_env_usr(), b) {
        b.skip(15)
    } else if is_prefix(pfx_env_bin(), b) {
        b.skip(11)
    } else if is_prefix(pfx_usr_noslash(), b) {
        b.skip(11)
    } else {
        b.skip(7)
    }
}

/// The MIME type `application/javascript`.
pub open spec fn mime_js() -> Seq<u8> {
    seq![97u8, 112, 112, 108, 105, 99, 97, 116, 105, 111, 110, 47, 106, 97, 118, 97, 115, 99,
        114, 105, 112, 116]
}

/// The MIME type `text/plain`.
pub open spec fn mime_text() -> Seq<u8> {
    seq![116u8, 101, 120, 116, 47, 112, 108, 97, 105, 110]
}

/// The file type of a JavaScript payload.
pub open spec fn js_view() -> FileTypeView {
    FileTypeView { kind: MatcherKind::App, mime: mime_js(), ext: seq![106u8, 115] }
}

/// A plain-text file type with the given extension.
pub open spec fn text_view(ext: Seq<u8>) -> FileTypeView {
    FileTypeView { kind: MatcherKind::Text, mime: mime_text(), ext: ext }
}

/// The fallback file type: plain text with extension `txt`.
pub open spec fn txt_view() -> FileTypeView {
    text_view(seq![116u8, 120, 116])
}

/// The file type an interpreter name maps to, the name taken lowercased.
pub open spec fn shebang_class(l: Seq<u8>) -> FileTypeView {
    if l == seq![110u8, 111, 100, 101]  // node
        || l == seq![100u8, 101, 110, 111]  // deno
        || l == seq![115u8, 112, 105, 100, 101, 114, 109, 111, 110, 107, 101, 121]  // spidermonkey
        || l == seq![118u8, 56]  // v8
    {
        js_view()
    } else if l == seq![116u8, 115, 45, 110, 111, 100, 101] {  // ts-node
        text_view(seq![116u8, 115])
    } else if l == seq![112u8, 121, 116, 104, 111, 110]  // python
        || l == seq![112u8, 121, 116, 104, 111, 110, 50]  // python2
        || l == seq![112u8, 121, 116, 104, 111, 110, 51]  // python3
        || l == seq![112u8, 121, 112, 121]  // pypy
        || l == seq![112u8, 121, 112, 121, 50]  // pypy2
        || l == seq![112u8, 121, 112, 121, 51]  // pypy3
    {
        text_view(seq![112u8, 121])
    } else if l == seq![114u8, 117, 98, 121] || l == seq![105u8, 114, 98] {  // ruby, irb
        text_view(seq![114u8, 98])
    } else if l == seq![107u8, 111, 116, 108, 105, 110, 99] {  // kotlinc
        text_view(seq![107u8, 116])
    } else if l == seq![112u8, 104, 112] {  // php
        text_view(seq![112u8, 104, 112])
    } else if l == seq![112u8, 101, 114, 108]  // perl
        || l == seq![114u8, 97, 107, 117]  // raku
        || l == seq![112u8, 101, 114, 108, 54]  // perl6
    {
        text_view(seq![112u8, 101, 114, 108])
    } else if l == seq![108u8, 117, 97] {  // lua
        text_view(seq![108u8, 117, 97])
    } else if l == seq![115u8, 104] {  // sh
        text_view(seq![115u8, 104])
    } else if l == seq![98u8, 97, 115, 104] {  // bash
        text_view(seq![98u8, 97, 115, 104])
    } else if l == seq![122u8, 115, 104] {  // zsh
        text_view(seq![122u8, 115, 104])
    } else if l == seq![102u8, 105, 115, 104] {  // fish
        text_view(seq![102u8, 105, 115, 104])
    } else {
        txt_view()
    }
}

/// The file type a buffer's shebang line yields: the interpreter-name
/// table behind a recognized prefix, plain text otherwise.
pub open spec fn shebang_spec(b: Seq<u8>) -> FileTypeView {
    if is_prefix(pfx_usr_slash(), b) || is_prefix(pfx_bin_slash(), b) {
        shebang_class(lower_seq(shebang_lang(b)))
    } else {
        txt_view()
    }
}

/// The file type of a buffer: what magic-number detection reports, or
/// the shebang rule where detection reports nothing.
pub open spec fn infer_spec(b: Seq<u8>) -> FileTypeView {
    match detected_type(b) {
        Some(t) => t,
        None => shebang_spec(b),
    }
}

fn mk_type(kind: MatcherKind, mime: &[u8], ext: &[u8]) -> (r: FileType)
    ensures
        r@.kind == kind,
        r@.mime == mime@,
        r@.ext == ext@,
{
    FileType { kind, mime: slice_to_vec(mime), ext: slice_to_vec(ext) }
}

fn txt_default() -> (r: FileType)
    ensures
        r@ == txt_view(),
{
    let mime: [u8; 10] = [116, 101, 120, 116, 47, 112, 108, 97, 105, 110];
    let ext: [u8; 3] = [116, 120, 116];
    let r = mk_type(MatcherKind::Text, mime.as_slice(), ext.as_slice());
    proof {
        assert(r@ =~= txt_view());
    }
    r
}

fn classify_lang(l: &Vec<u8>) -> (r: FileType)
    ensures
        r@ == shebang_class(l@),
{
    let kw_node: [u8; 4] = [110, 111, 100, 101];
    let kw_deno: [u8; 4] = [100, 101, 110, 111];
    let kw_sm: [u8; 12] = [115, 112, 105, 100, 101, 114, 109, 111, 110, 107, 101, 121];
    let kw_v8: [u8; 2] = [118, 56];
    let kw_tsnode: [u8; 7] = [116, 115, 45, 110, 111, 100, 101];
    let kw_python: [u8; 6] = [112, 121, 116, 104, 111, 110];
    let kw_python2: [u8; 7] = [112, 121, 116, 104, 111, 110, 50];
    let kw_python3: [u8; 7] = [112, 121, 116, 104, 111, 110, 51];
    let kw_pypy: [u8; 4] = [112, 121, 112, 121];
    let kw_pypy2: [u8; 5] = [112, 121, 112, 121, 50];
    let kw_pypy3: [u8; 5] = [112, 121, 112, 121, 51];
    let kw_ruby: [u8; 4] = [114, 117, 98, 121];
    let kw_irb: [u8; 3] = [105, 114, 98];
    let kw_kotlinc: [u8; 7] = [107, 111, 116, 108, 105, 110, 99];
    let kw_php: [u8; 3] = [112, 104, 112];
    let kw_perl: [u8; 4] = [112, 101, 114, 108];
    let kw_raku: [u8; 4] = [114, 97, 107, 117];
    let kw_perl6: [u8; 5] = [112, 101, 114, 108, 54];
    let kw_lua: [u8; 3] = [108, 117, 97];
    let kw_sh: [u8; 2] = [115, 104];
    let kw_bash: [u8; 4] = [98, 97, 115, 104];
    let kw_zsh: [u8; 3] = [122, 115, 104];
    let kw_fish: [u8; 4] = [102, 105, 115, 104];
    let mime_js_b: [u8; 22] = [97, 112, 112, 108, 105, 99, 97, 116, 105, 111, 110, 47, 106, 97,
        118, 97, 115, 99, 114, 105, 112, 116];
    let mime_text_b: [u8; 10] = [116, 101, 120, 116, 47, 112, 108, 97, 105, 110];
    if crate::config::bytes_eq_slice(l.as_slice(), kw_node.as_slice())
        || crate::config::bytes_eq_slice(l.as_slice(), kw_deno.as_slice())
        || crate::config::bytes_eq_slice(l.as_slice(), kw_sm.as_slice())
        || crate::config::bytes_eq_slice(l.as_slice(), kw_v8.as_slice()) {
        let ext: [u8; 2] = [106, 115];
        let r = mk_type(MatcherKind::App, mime_js_b.as_slice(), ext.as_slice());
        proof {
            assert(r@ =~= shebang_class(l@));
        }
        r
    } else if crate::config::bytes_eq_slice(l.as_slice(), kw_tsnode.as_slice()) {
        let ext: [u8; 2] = [116, 115];
        let r = mk_type(MatcherKind::Text, mime_text_b.as_slice(), ext.as_slice());
        proof {
            assert(r@ =~= shebang_class(l@));
        }
        r
    } else if crate::config::bytes_eq_slice(l.as_slice(), kw_python.as_slice())
        || crate::config::bytes_eq_slice(l.as_slice(), kw_python2.as_slice())
        || crate::config::bytes_eq_slice(l.as_slice(), kw_python3.as_slice())
        || crate::config::bytes_eq_slice(l.as_slice(), kw_pypy.as_slice())
        || crate::config::bytes_eq_slice(l.as_slice(), kw_pypy2.as_slice())
        || crate::config::bytes_eq_slice(l.as_slice(), kw_pypy3.as_slice()) {
        let ext: [u8; 2] = [112, 121];
        let r = mk_type(MatcherKind::Text, mime_text_b.as_slice(), ext.as_slice());
        proof {
            assert(r@ =~= shebang_class(l@));
        }
        r
    } else if crate::config::bytes_eq_slice(l.as_slice(), kw_ruby.as_slice())
        || crate::config::bytes_eq_slice(l.as_slice(), kw_irb.as_slice()) {
        let ext: [u8; 2] = [114, 98];
        let r = mk_type(MatcherKind::Text, mime_text_b.as_slice(), ext.as_slice());
        proof {
            assert(r@ =~= shebang_class(l@));
        }
        r
    } else if crate::config::bytes_eq_slice(l.as_slice(), kw_kotlinc.as_slice()) {
        let ext: [u8; 2] = [107, 116];
        let r = mk_type(MatcherKind::Text, mime_text_b.as_slice(), ext.as_slice());
        proof {
            assert(r@ =~= shebang_class(l@));
        }
        r
    } else if crate::config::bytes_eq_slice(l.as_slice(), kw_php.as_slice()) {
        let ext: [u8; 3] = [112, 104, 112];
        let r = mk_type(MatcherKind::Text, mime_text_b.as_slice(), ext.as_slice());
        proof {
            assert(r@ =~= shebang_class(l@));
        }
        r
    } else if crate::config::bytes_eq_slice(l.as_slice(), kw_perl.as_slice())
        || crate::config::bytes_eq_slice(l.as_slice(), kw_raku.as_slice())
        || crate::config::bytes_eq_slice(l.as_slice(), kw_perl6.as_slice()) {
        let ext: [u8; 4] = [112, 101, 114, 108];
        let r = mk_type(MatcherKind::Text, mime_text_b.as_slice(), ext.as_slice());
        proof {
            assert(r@ =~= shebang_class(l@));
        }
        r
    } else if crate::config::bytes_eq_slice(l.as_slice(), kw_lua.as_slice()) {
        let ext: [u8; 3] = [108, 117, 97];
        let r = mk_type(MatcherKind::Text, mime_text_b.as_slice(), ext.as_slice());
        proof {
            assert(r@ =~= shebang_class(l@));
        }
        r
    } else if crate::config::bytes_eq_slice(l.as_slice(), kw_sh.as_slice()) {
        let ext: [u8; 2] = [115, 104];
        let r = mk_type(MatcherKind::Text, mime_text_b.as_slice(), ext.as_slice());
        proof {
            assert(r@ =~= shebang_class(l@));
        }
        r
    } else if crate::config::bytes_eq_slice(l.as_slice(), kw_bash.as_slice()) {
        let ext: [u8; 4] = [98, 97, 115, 104];
        let r = mk_type(MatcherKind::Text, mime_text_b.as_slice(), ext.as_slice());
        proof {
            assert(r@ =~= shebang_class(l@));
        }
        r
    } else if crate::config::bytes_eq_slice(l.as_slice(), kw_zsh.as_slice()) {
        let ext: [u8; 3] = [122, 115, 104];
        let r = mk_type(MatcherKind::Text, mime_text_b.as_slice(), ext.as_slice());
        proof {
            assert(r@ =~= shebang_class(l@));
        }
        r
    } else if crate::config::bytes_eq_slice(l.as_slice(), kw_fish.as_slice()) {
        let ext: [u8; 4] = [102, 105, 115, 104];
        let r = mk_type(MatcherKind::Text, mime_text_b.as_slice(), ext.as_slice());
        proof {
            assert(r@ =~= shebang_class(l@));
        }
        r
    } else {
        let r = txt_default();
        proof {
            assert(r@ =~= shebang_class(l@));
        }
        r
    }
}

/// Classifies a buffer by its shebang line alone: the interpreter-name
/// table behind a recognized `#!` prefix, plain text otherwise.
pub fn shebang_type(buf: &Vec<u8>) -> (r: FileType)
    ensures
        r@ == shebang_spec(buf@),
{
    let p_usr: [u8; 11] = [35, 33, 47, 117, 115, 114, 47, 98, 105, 110, 47];
    let p_bin: [u8; 7] = [35, 33, 47, 98, 105, 110, 47];
    proof {
        assert(p_usr@ =~= pfx_usr_slash());
        assert(p_bin@ =~= pfx_bin_slash());
    }
    let on_usr = starts_with(buf, p_usr.as_slice());
    let on_bin = starts_with(buf, p_bin.as_slice());
    if !on_usr && !on_bin {
        let r = txt_default();
        return r;
    }
    let p_env_usr: [u8; 15] = [35, 33, 47, 117, 115, 114, 47, 98, 105, 110, 47, 101, 110, 118,
        32];
    let p_env_bin: [u8; 11] = [35, 33, 47, 98, 105, 110, 47, 101, 110, 118, 32];
    let p_usr_nosl: [u8; 10] = [35, 33, 47, 117, 115, 114, 47, 98, 105, 110];
    proof {
        assert(p_env_usr@ =~= pfx_env_usr());
        assert(p_env_bin@ =~= pfx_env_bin());
        assert(p_usr_nosl@ =~= pfx_usr_noslash());
    }
    let start: usize = if starts_with(buf, p_env_usr.as_slice()) {
        15
    } else if starts_with(buf, p_env_bin.as_slice()) {
        11
    } else if starts_with(buf, p_usr_nosl.as_slice()) {
        proof {
            if !is_prefix(pfx_usr_slash(), buf@) {
                assert(buf@.subrange(0, 7)[3] == buf@[3]);
                assert(buf@.subrange(0, 10)[3] == buf@[3]);
                assert(false);
            }
        }
        11
    } else {
        proof {
            if is_prefix(pfx_usr_slash(), buf@) {
                assert(buf@.subrange(0, 10) =~= buf@.subrange(0, 11).subrange(0, 10));
                assert(buf@.subrange(0, 10) =~= pfx_usr_noslash());
                assert(false);
            }
        }
        7
    };
    let n = buf.len();
    let lang_raw = slice_to_vec(slice_subrange(buf.as_slice(), start, n));
    proof {
        assert(lang_raw@ =~= shebang_lang(buf@));
    }
    let lang = to_lower(&lang_raw);
    classify_lang(&lang)
}

/// The file type of a payload, as the send path decides it: what
/// magic-number detection reports, or the shebang rule where detection
/// reports nothing.
pub fn infer(buf: &Vec<u8>) -> (r: FileType)
    ensures
        r@ == infer_spec(buf@),
{
    match detect(buf) {
        Some(t) => t,
        None => shebang_type(buf),
    }
}

/// A payload travels as text when its type is a text type, or the
/// JavaScript application type.
pub open spec fn is_text_spec(t: FileTypeView) -> bool {
    t.kind == MatcherKind::Text || (t.kind == MatcherKind::App && t.mime == mime_js())
}

/// Decides whether a payload of this type travels as text.
pub fn is_text_type(t: &FileType) -> (r: bool)
    ensures
        r == is_text_spec(t@),
{
    let mime_js_b: [u8; 22] = [97, 112, 112, 108, 105, 99, 97, 116, 105, 111, 110, 47, 106, 97,
        118, 97, 115, 99, 114, 105, 112, 116];
    proof {
        assert(mime_js_b@ =~= mime_js());
    }
    match t.kind {
        MatcherKind::Text => true,
        MatcherKind::App => crate::config::bytes_eq_slice(t.mime.as_slice(), mime_js_b.as_slice()),
        MatcherKind::Other => false,
    }
}

/// How a payload goes out: inline text, fenced code block, or file
/// attachment.
#[derive(Clone, Copy, Debug, PartialEq, Eq, Structural)]
pub enum SendPlan {
    /// Send the payload as an ordinary text message.
    Inline,
    /// Send the payload wrapped in a fenced code block.
    CodeBlock,
    /// Send the payload as a file attachment.
    Attachment,
}

/// Why a requested code block cannot be sent.
#[derive(Clone, Copy, Debug, PartialEq, Eq, Structural)]
pub enum PlanError {
    /// The payload plus the code fence would exceed the message limit.
    TooLongForBlock,
    /// The payload is not text and cannot stand in a code block.
    NotTextForBlock,
}

/// Decides how a payload goes out. A requested code block must fit the
/// 2000-byte message limit with its fence and extension, and must be
/// text; otherwise text under the limit goes inline and everything else
/// becomes an attachment.
pub fn plan_message(len: usize, ext_len: usize, is_text: bool, block: bool) -> (r: Result<
    SendPlan,
    PlanError,
>)
    ensures
        block && len + 8 + ext_len > 2000 ==> r == Err::<SendPlan, PlanError>(
            PlanError::TooLongForBlock,
        ),
        block && len + 8 + ext_len <= 2000 && !is_text ==> r == Err::<SendPlan, PlanError>(
            PlanError::NotTextForBlock,
        ),
        block && len + 8 + ext_len <= 2000 && is_text ==> r == Ok::<SendPlan, PlanError>(
            SendPlan::CodeBlock,
        ),
        !block && is_text && len < 2000 ==> r == Ok::<SendPlan, PlanError>(SendPlan::Inline),
        !block && !(is_text && len < 2000) ==> r == Ok::<SendPlan, PlanError>(
            SendPlan::Attachment,
        ),
{
    if block {
        if (len as u128) + 8 + (ext_len as u128) > 2000 {
            Err(PlanError::TooLongForBlock)
        } else if !is_text {
            Err(PlanError::NotTextForBlock)
        } else {
            Ok(SendPlan::CodeBlock)
        }
    } else {
        if is_text && len < 2000 {
            Ok(SendPlan::Inline)
        } else {
            Ok(SendPlan::Attachment)
        }
    }
}

/// The fenced code block wrapped around a text payload: three backticks,
/// the extension, a newline, the payload, a newline, three backticks.
pub fn code_block(ext: &Vec<u8>, body: &Vec<u8>) -> (r: Vec<u8>)
    ensures
        r@ == seq![96u8, 96, 96] + ext@ + seq![10u8] + body@ + seq![10u8, 96, 96, 96],
{
    let mut r: Vec<u8> = Vec::new();
    r.push(96);
    r.push(96);
    r.push(96);
    r.extend_from_slice(ext.as_slice());
    r.push(10);
    r.extend_from_slice(body.as_slice());
    r.push(10);
    r.push(96);
    r.push(96);
    r.push(96);
    proof {
        assert(r@ =~= seq![96u8, 96, 96] + ext@ + seq![10u8] + body@ + seq![10u8, 96, 96, 96]);
    }
    r
}

/// The default attachment name for a payload that came from no file:
/// `message.` followed by the inferred extension.
pub fn default_filename(ext: &Vec<u8>) -> (r: Vec<u8>)
    ensures
        r@ == seq![109u8, 101, 115, 115, 97, 103, 101, 46] + ext@,
{
    let mut r: Vec<u8> = Vec::new();
    r.push(109);
    r.push(101);
    r.push(115);
    r.push(115);
    r.push(97);
    r.push(103);
    r.push(101);
    r.push(46);
    r.extend_from_slice(ext.as_slice());
    proof {
        assert(r@ =~= seq![109u8, 101, 115, 115, 97, 103, 101, 46] + ext@);
    }
    r
}

} // verus!
