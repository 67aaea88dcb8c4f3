//! Token scanner: a single-pass byte automaton that recovers an
//! authentication token of one of two fixed shapes from unstructured
//! log data.
//!
//! Shape 2 is an 88-byte span: the literal prefix `mfa.`, then 25 bytes of
//! the segment class, then one underscore, then segment bytes up to the
//! total length. Shape 1 is a 59-byte span: 24 segment bytes, one separator
//! byte, 6 segment bytes, one literal dot, then segment bytes up to the
//! total length. Each candidate buffer is scanned for shape 2 first and,
//! only if that pass never completes, for shape 1.

use vstd::prelude::*;
use vstd::slice::slice_index_get;
use vstd::slice::slice_subrange;
use vstd::slice::slice_to_vec;

verus! {

/// The literal dot byte, `.`.
pub const DOT: u8 = 46;

/// The underscore byte, `_`, the default shape-1 separator.
pub const UNDERSCORE: u8 = 95;

/// The byte `m`, first byte of the shape-2 literal prefix.
pub const LOWER_M: u8 = 109;

/// The byte `f`, second byte of the shape-2 literal prefix.
pub const LOWER_F: u8 = 102;

/// The byte `a`, third byte of the shape-2 literal prefix.
pub const LOWER_A: u8 = 97;

/// The byte class the token grammar accepts inside a segment:
/// ASCII digits, upper and lower case letters, and the underscore.
pub open spec fn alnum(c: u8) -> bool {
    (48 <= c && c <= 57) || (65 <= c && c <= 90) || (97 <= c && c <= 122) || c == 95
}

/// Decides membership in the segment byte class.
pub fn u8_alnum(c: u8) -> (r: bool)
    ensures
        r == alnum(c),
{
    (c >= 48 && c <= 57) || (c >= 65 && c <= 90) || (c >= 97 && c <= 122) || c == 95
}

/// One transition of the shape-2 automaton. The state counts the bytes of
/// the span matched so far; 88 is the accepting state and absorbs. On a
/// mismatch the automaton restarts, at state 1 when the byte could itself
/// begin the `mfa.` prefix.
pub open spec fn step2(s: int, c: u8) -> int {
    if s == 88 {
        88
    } else if s == 0 {
        if c == LOWER_M {
            1
        } else {
            0
        }
    } else if s == 1 {
        if c == LOWER_F {
            2
        } else if c == LOWER_M {
            1
        } else {
            0
        }
    } else if s == 2 {
        if c == LOWER_A {
            3
        } else if c == LOWER_M {
            1
        } else {
            0
        }
    } else if s == 3 {
        if c == DOT {
            4
        } else if c == LOWER_M {
            1
        } else {
            0
        }
    } else if 4 <= s && s < 29 {
        if alnum(c) {
            s + 1
        } else {
            0
        }
    } else if s == 29 {
        if c == UNDERSCORE {
            30
        } else if c == LOWER_M {
            1
        } else {
            0
        }
    } else if 30 <= s && s < 88 {
        if alnum(c) {
            s + 1
        } else {
            0
        }
    } else {
        0
    }
}

/// The shape-2 automaton state after consuming the first `n` bytes of `b`.
pub open spec fn run2(b: Seq<u8>, n: int) -> int
    decreases n,
{
    if n <= 0 {
        0
    } else {
        step2(run2(b, n - 1), b[n - 1])
    }
}

/// The first `s` bytes of a shape-2 span stand at `st` in `b`.
pub open spec fn pre2(b: Seq<u8>, st: int, s: int) -> bool {
    &&& (s >= 1 ==> b[st] == LOWER_M)
    &&& (s >= 2 ==> b[st + 1] == LOWER_F)
    &&& (s >= 3 ==> b[st + 2] == LOWER_A)
    &&& (s >= 4 ==> b[st + 3] == DOT)
    &&& (forall|i: int| st + 4 <= i < st + s && i < st + 29 ==> alnum(#[trigger] b[i]))
    &&& (s >= 30 ==> b[st + 29] == UNDERSCORE)
    &&& (forall|i: int| st + 30 <= i < st + s ==> alnum(#[trigger] b[i]))
}

/// A complete, well-formed shape-2 span stands at position `p` of `b`.
pub open spec fn is_span2(b: Seq<u8>, p: int) -> bool {
    0 <= p && p + 88 <= b.len() && pre2(b, p, 88)
}

/// One transition of the shape-1 automaton with separator byte `sep`.
/// The accepting state 59 absorbs. While waiting for the separator the
/// automaton holds at state 24 over further segment bytes, so that a first
/// segment longer than 24 bytes still leads to a match whose emitted
/// window keeps exactly 24 of them.
pub open spec fn step1(s: int, c: u8, sep: u8) -> int {
    if s == 59 {
        59
    } else if 0 <= s && s < 24 {
        if alnum(c) {
            s + 1
        } else {
            0
        }
    } else if s == 24 {
        if c == sep {
            25
        } else if alnum(c) {
            24
        } else {
            0
        }
    } else if 25 <= s && s < 31 {
        if alnum(c) {
            s + 1
        } else {
            0
        }
    } else if s == 31 {
        if c == DOT {
            32
        } else {
            0
        }
    } else if 32 <= s && s < 59 {
        if alnum(c) {
            s + 1
        } else {
            0
        }
    } else {
        0
    }
}

/// The shape-1 automaton state after consuming the first `n` bytes of `b`.
pub open spec fn run1(b: Seq<u8>, sep: u8, n: int) -> int
    decreases n,
{
    if n <= 0 {
        0
    } else {
        step1(run1(b, sep, n - 1), b[n - 1], sep)
    }
}

/// The first `s` bytes of a shape-1 span stand at `st` in `b`.
pub open spec fn pre1(b: Seq<u8>, st: int, s: int, sep: u8) -> bool {
    &&& (forall|i: int| st <= i < st + s && i < st + 24 ==> alnum(#[trigger] b[i]))
    &&& (s >= 25 ==> b[st + 24] == sep)
    &&& (forall|i: int| st + 25 <= i < st + s && i < st + 31 ==> alnum(#[trigger] b[i]))
    &&& (s >= 32 ==> b[st + 31] == DOT)
    &&& (forall|i: int| st + 32 <= i < st + s ==> alnum(#[trigger] b[i]))
}

/// A complete, well-formed shape-1 span stands at position `p` of `b`.
pub open spec fn is_span1(b: Seq<u8>, p: int, sep: u8) -> bool {
    0 <= p && p + 59 <= b.len() && pre1(b, p, 59, sep)
}

/// Position of the first completed shape-2 match whose end lies at or
/// after `n`, as the start of the emitted 88-byte window.
pub open spec fn first2_from(b: Seq<u8>, n: int) -> Option<int>
    decreases b.len() + 1 - n,
{
    if n < 0 || n > b.len() {
        None
    } else if run2(b, n) == 88 {
        Some(n - 88)
    } else {
        first2_from(b, n + 1)
    }
}

/// Position of the first completed shape-1 match whose end lies at or
/// after `n`, as the start of the emitted 59-byte window.
pub open spec fn first1_from(b: Seq<u8>, sep: u8, n: int) -> Option<int>
    decreases b.len() + 1 - n,
{
    if n < 0 || n > b.len() {
        None
    } else if run1(b, sep, n) == 59 {
        Some(n - 59)
    } else {
        first1_from(b, sep, n + 1)
    }
}

/// What one buffer yields: the shape-2 pass runs first over the whole
/// buffer; only if it never completes does the shape-1 pass run.
pub open spec fn scan_spec(b: Seq<u8>, sep: u8) -> Option<Seq<u8>> {
    match first2_from(b, 0) {
        Some(p) => Some(b.subrange(p, p + 88)),
        None => match first1_from(b, sep, 0) {
            Some(p) => Some(b.subrange(p, p + 59)),
            None => None,
        },
    }
}

fn next2(s: usize, c: u8) -> (r: usize)
    requires
        s <= 88,
    ensures
        r == step2(s as int, c),
        r <= 88,
{
    if s == 88 {
        88
    } else if s == 0 {
        if c == LOWER_M {
            1
        } else {
            0
        }
    } else if s == 1 {
        if c == LOWER_F {
            2
        } else if c == LOWER_M {
            1
        } else {
            0
        }
    } else if s == 2 {
        if c == LOWER_A {
            3
        } else if c == LOWER_M {
            1
        } else {
            0
        }
    } else if s == 3 {
        if c == DOT {
            4
        } else if c == LOWER_M {
            1
        } else {
            0
        }
    } else if s < 29 {
        if u8_alnum(c) {
            s + 1
        } else {
            0
        }
    } else if s == 29 {
        if c == UNDERSCORE {
            30
        } else if c == LOWER_M {
            1
        } else {
            0
        }
    } else {
        if u8_alnum(c) {
            s + 1
        } else {
            0
        }
    }
}

fn next1(s: usize, c: u8, sep: u8) -> (r: usize)
    requires
        s <= 59,
    ensures
        r == step1(s as int, c, sep),
        r <= 59,
{
    if s == 59 {
        59
    } else if s < 24 {
        if u8_alnum(c) {
            s + 1
        } else {
            0
        }
    } else if s == 24 {
        if c == sep {
            25
        } else if u8_alnum(c) {
            24
        } else {
            0
        }
    } else if s < 31 {
        if u8_alnum(c) {
            s + 1
        } else {
            0
        }
    } else if s == 31 {
        if c == DOT {
            32
        } else {
            0
        }
    } else {
        if u8_alnum(c) {
            s + 1
        } else {
            0
        }
    }
}

/// Runs the shape-2 pass over the whole buffer and reports the start of
/// the first completed 88-byte match, if any.
pub fn scan2(bytes: &[u8]) -> (r: Option<usize>)
    ensures
        r matches Some(st) ==> first2_from(bytes@, 0) == Some(st as int) && st + 88
            <= bytes@.len(),
        r is None ==> first2_from(bytes@, 0) is None,
{
    let n = bytes.len();
    let mut i: usize = 0;
    let mut j: usize = 0;
    while j < n
        invariant
            n == bytes@.len(),
            j <= n,
            i == run2(bytes@, j as int),
            i <= 88,
            i <= j,
            forall|m: int| 0 <= m <= j ==> run2(bytes@, m) != 88,
        decreases n - j,
    {
        let c = *slice_index_get(bytes, j);
        i = next2(i, c);
        j = j + 1;
        if i == 88 {
            proof {
                lemma_first2_hit(bytes@, 0, j as int);
            }
            return Some(j - 88);
        }
    }
    proof {
        lemma_first2_none(bytes@, 0);
    }
    None
}

/// Runs the shape-1 pass over the whole buffer and reports the start of
/// the first completed 59-byte match, if any.
pub fn scan1(bytes: &[u8], sep: u8) -> (r: Option<usize>)
    ensures
        r matches Some(st) ==> first1_from(bytes@, sep, 0) == Some(st as int) && st + 59
            <= bytes@.len(),
        r is None ==> first1_from(bytes@, sep, 0) is None,
{
    let n = bytes.len();
    let mut i: usize = 0;
    let mut j: usize = 0;
    while j < n
        invariant
            n == bytes@.len(),
            j <= n,
            i == run1(bytes@, sep, j as int),
            i <= 59,
            i <= j,
            forall|m: int| 0 <= m <= j ==> run1(bytes@, sep, m) != 59,
        decreases n - j,
    {
        let c = *slice_index_get(bytes, j);
        i = next1(i, c, sep);
        j = j + 1;
        if i == 59 {
            proof {
                lemma_first1_hit(bytes@, sep, 0, j as int);
            }
            return Some(j - 59);
        }
    }
    proof {
        lemma_first1_none(bytes@, sep, 0);
    }
    None
}

proof fn lemma_first2_hit(b: Seq<u8>, n: int, h: int)
    requires
        0 <= n <= h <= b.len(),
        run2(b, h) == 88,
        forall|m: int| 0 <= m < h ==> run2(b, m) != 88,
    ensures
        first2_from(b, n) == Some(h - 88),
    decreases h - n,
{
    if n < h {
        lemma_first2_hit(b, n + 1, h);
    }
}

proof fn lemma_first2_none(b: Seq<u8>, n: int)
    requires
        0 <= n <= b.len() + 1,
        forall|m: int| 0 <= m <= b.len() ==> run2(b, m) != 88,
    ensures
        first2_from(b, n) is None,
    decreases b.len() + 1 - n,
{
    if n <= b.len() {
        lemma_first2_none(b, n + 1);
    }
}

proof fn lemma_first1_hit(b: Seq<u8>, sep: u8, n: int, h: int)
    requires
        0 <= n <= h <= b.len(),
        run1(b, sep, h) == 59,
        forall|m: int| 0 <= m < h ==> run1(b, sep, m) != 59,
    ensures
        first1_from(b, sep, n) == Some(h - 59),
    decreases h - n,
{
    if n < h {
        lemma_first1_hit(b, sep, n + 1, h);
    }
}

proof fn lemma_first1_none(b: Seq<u8>, sep: u8, n: int)
    requires
        0 <= n <= b.len() + 1,
        forall|m: int| 0 <= m <= b.len() ==> run1(b, sep, m) != 59,
    ensures
        first1_from(b, sep, n) is None,
    decreases b.len() + 1 - n,
{
    if n <= b.len() {
        lemma_first1_none(b, sep, n + 1);
    }
}

/// Scans one buffer: the shape-2 pass first, then the shape-1 pass, and
/// hands back the first completed match as the token bytes.
pub fn scan_bytes(bytes: &[u8], sep: u8) -> (r: Option<Vec<u8>>)
    ensures
        r matches Some(t) ==> scan_spec(bytes@, sep) == Some(t@),
        r is None ==> scan_spec(bytes@, sep) is None,
{
    let n = bytes.len();
    match scan2(bytes) {
        Some(st) => {
            let w = slice_subrange(bytes, st, st + 88);
            Some(slice_to_vec(w))
        },
        None => match scan1(bytes, sep) {
            Some(st) => {
                let w = slice_subrange(bytes, st, st + 59);
                Some(slice_to_vec(w))
            },
            None => None,
        },
    }
}

/// What an ordered list of candidate buffers yields: the first buffer
/// whose scan completes wins, and scanning stops there.
pub open spec fn tok_spec(files: Seq<Seq<u8>>, sep: u8) -> Option<Seq<u8>>
    decreases files.len(),
{
    if files.len() == 0 {
        None
    } else {
        match scan_spec(files[0], sep) {
            Some(t) => Some(t),
            None => tok_spec(files.skip(1), sep),
        }
    }
}

/// Scans the candidate buffers in order and returns the first recovered
/// token, or nothing when no buffer holds a completed span.
pub fn tok(files: &Vec<Vec<u8>>, sep: u8) -> (r: Option<Vec<u8>>)
    ensures
        r matches Some(t) ==> tok_spec(files@.map_values(|f: Vec<u8>| f@), sep) == Some(t@),
        r is None ==> tok_spec(files@.map_values(|f: Vec<u8>| f@), sep) is None,
{
    let ghost all = files@.map_values(|f: Vec<u8>| f@);
    proof {
        assert(all.skip(0) =~= all);
    }
    let n = files.len();
    let mut j: usize = 0;
    while j < n
        invariant
            n == files@.len(),
            j <= n,
            all == files@.map_values(|f: Vec<u8>| f@),
            tok_spec(all, sep) == tok_spec(all.skip(j as int), sep),
        decreases n - j,
    {
        let r = scan_bytes(files[j].as_slice(), sep);
        proof {
            assert(all.skip(j as int)[0] == all[j as int]);
            assert(all.skip(j as int).skip(1) =~= all.skip(j as int + 1));
        }
        match r {
            Some(t) => {
                return Some(t);
            },
            None => {
            },
        }
        j = j + 1;
    }
    proof {
        assert(all.skip(n as int) =~= Seq::<Seq<u8>>::empty());
    }
    None
}

proof fn lemma_run2_sound(b: Seq<u8>, n: int)
    requires
        0 <= n <= b.len(),
        forall|m: int| 0 <= m < n ==> run2(b, m) != 88,
    ensures
        0 <= run2(b, n) <= 88,
        run2(b, n) <= n,
        run2(b, n) >= 1 ==> pre2(b, n - run2(b, n), run2(b, n)),
    decreases n,
{
    if n > 0 {
        lemma_run2_sound(b, n - 1);
    }
}

proof fn lemma_run1_sound(b: Seq<u8>, sep: u8, n: int)
    requires
        0 <= n <= b.len(),
        forall|m: int| 0 <= m < n ==> run1(b, sep, m) != 59,
    ensures
        0 <= run1(b, sep, n) <= 59,
        run1(b, sep, n) <= n,
        run1(b, sep, n) >= 1 ==> pre1(b, n - run1(b, sep, n), run1(b, sep, n), sep),
    decreases n,
{
    if n > 0 {
        lemma_run1_sound(b, sep, n - 1);
    }
}

proof fn lemma_no_hit2_upto(b: Seq<u8>, p: int, n: int)
    requires
        forall|q: int| is_span2(b, q) ==> q == p,
        0 <= n <= b.len(),
        n < p + 88,
    ensures
        forall|m: int| 0 <= m <= n ==> run2(b, m) != 88,
    decreases n,
{
    if n > 0 {
        lemma_no_hit2_upto(b, p, n - 1);
        lemma_run2_sound(b, n);
        if run2(b, n) == 88 {
            assert(is_span2(b, n - 88));
        }
    }
}

proof fn lemma_no_hit1_upto(b: Seq<u8>, sep: u8, p: int, n: int)
    requires
        forall|q: int| is_span1(b, q, sep) ==> q == p,
        0 <= n <= b.len(),
        n < p + 59,
    ensures
        forall|m: int| 0 <= m <= n ==> run1(b, sep, m) != 59,
    decreases n,
{
    if n > 0 {
        lemma_no_hit1_upto(b, sep, p, n - 1);
        lemma_run1_sound(b, sep, n);
        if run1(b, sep, n) == 59 {
            assert(is_span1(b, n - 59, sep));
        }
    }
}

proof fn lemma_run2_climb(b: Seq<u8>, p: int, k: int)
    requires
        is_span2(b, p),
        run2(b, p) == 0,
        0 <= k <= 88,
    ensures
        run2(b, p + k) == k,
    decreases k,
{
    if k > 0 {
        lemma_run2_climb(b, p, k - 1);
        assert(run2(b, p + k) == step2(run2(b, p + k - 1), b[p + k - 1]));
    }
}

proof fn lemma_run1_climb(b: Seq<u8>, sep: u8, p: int, k: int)
    requires
        is_span1(b, p, sep),
        run1(b, sep, p) == 0,
        0 <= k <= 59,
    ensures
        run1(b, sep, p + k) == k,
    decreases k,
{
    if k > 0 {
        lemma_run1_climb(b, sep, p, k - 1);
        assert(run1(b, sep, p + k) == step1(run1(b, sep, p + k - 1), b[p + k - 1], sep));
    }
}

proof fn lemma_first2_sound(b: Seq<u8>, n: int)
    requires
        0 <= n <= b.len() + 1,
        forall|m: int| 0 <= m < n ==> run2(b, m) != 88,
    ensures
        first2_from(b, n) matches Some(p) ==> is_span2(b, p) && p + 88 <= b.len(),
    decreases b.len() + 1 - n,
{
    if n <= b.len() {
        if run2(b, n) == 88 {
            lemma_run2_sound(b, n);
        } else {
            lemma_first2_sound(b, n + 1);
        }
    }
}

proof fn lemma_first1_sound(b: Seq<u8>, sep: u8, n: int)
    requires
        0 <= n <= b.len() + 1,
        forall|m: int| 0 <= m < n ==> run1(b, sep, m) != 59,
    ensures
        first1_from(b, sep, n) matches Some(p) ==> is_span1(b, p, sep) && p + 59 <= b.len(),
    decreases b.len() + 1 - n,
{
    if n <= b.len() {
        if run1(b, sep, n) == 59 {
            lemma_run1_sound(b, sep, n);
        } else {
            lemma_first1_sound(b, sep, n + 1);
        }
    }
}

/// Only well-formed spans ever come back: whatever the scan of a buffer
/// yields is a shape-2 or shape-1 span standing verbatim in that buffer.
pub proof fn lemma_scan_sound(b: Seq<u8>, sep: u8)
    ensures
        scan_spec(b, sep) matches Some(t) ==> exists|p: int|
            #![trigger is_span2(b, p)]
            #![trigger is_span1(b, p, sep)]
            (is_span2(b, p) && t == b.subrange(p, p + 88)) || (is_span1(b, p, sep) && t
                == b.subrange(p, p + 59)),
{
    lemma_first2_sound(b, 0);
    lemma_first1_sound(b, sep, 0);
    if scan_spec(b, sep) is Some {
        let t = scan_spec(b, sep)->Some_0;
        match first2_from(b, 0) {
            Some(w) => {
                assert(is_span2(b, w) && t == b.subrange(w, w + 88));
                assert(exists|p: int|
                    #![trigger is_span2(b, p)]
                    #![trigger is_span1(b, p, sep)]
                    (is_span2(b, p) && t == b.subrange(p, p + 88)) || (is_span1(b, p, sep)
                        && t == b.subrange(p, p + 59)));
            },
            None => {
                let w = first1_from(b, sep, 0)->Some_0;
                assert(is_span1(b, w, sep) && t == b.subrange(w, w + 59));
                assert(exists|p: int|
                    #![trigger is_span2(b, p)]
                    #![trigger is_span1(b, p, sep)]
                    (is_span2(b, p) && t == b.subrange(p, p + 88)) || (is_span1(b, p, sep)
                        && t == b.subrange(p, p + 59)));
            },
        }
    }
}

/// A buffer holding no well-formed span of either shape yields
/// "not found": the automata accept nothing besides the two span shapes.
pub proof fn lemma_no_span_not_found(b: Seq<u8>, sep: u8)
    requires
        forall|p: int| !is_span2(b, p),
        forall|p: int| !is_span1(b, p, sep),
    ensures
        scan_spec(b, sep) is None,
{
    let far = b.len() as int + 100;
    lemma_no_hit2_upto(b, far, b.len() as int);
    lemma_first2_none(b, 0);
    lemma_no_hit1_upto(b, sep, far, b.len() as int);
    lemma_first1_none(b, sep, 0);
}

/// A buffer holding exactly one well-formed shape-2 span, entered with
/// the automaton at rest (the span starts the buffer, or follows a byte
/// that resets every state), yields exactly that 88-byte span — whatever
/// shape-1 spans the buffer may also hold, since the shape-2 pass runs
/// first.
pub proof fn lemma_unique_span2_found(b: Seq<u8>, sep: u8, p: int)
    requires
        is_span2(b, p),
        forall|q: int| is_span2(b, q) ==> q == p,
        p == 0 || (!alnum(b[p - 1]) && b[p - 1] != DOT),
    ensures
        scan_spec(b, sep) == Some(b.subrange(p, p + 88)),
{
    lemma_no_hit2_upto(b, p, p + 87);
    if p > 0 {
        assert(run2(b, p) == step2(run2(b, p - 1), b[p - 1]));
    }
    lemma_run2_climb(b, p, 88);
    lemma_first2_hit(b, 0, p + 88);
}

/// A buffer holding exactly one well-formed shape-1 span and no shape-2
/// span, entered with the automaton at rest, yields exactly that 59-byte
/// span.
pub proof fn lemma_unique_span1_found(b: Seq<u8>, sep: u8, p: int)
    requires
        is_span1(b, p, sep),
        forall|q: int| is_span1(b, q, sep) ==> q == p,
        forall|q: int| !is_span2(b, q),
        p == 0 || (!alnum(b[p - 1]) && b[p - 1] != DOT && b[p - 1] != sep),
    ensures
        scan_spec(b, sep) == Some(b.subrange(p, p + 59)),
{
    let far = b.len() as int + 100;
    lemma_no_hit2_upto(b, far, b.len() as int);
    lemma_first2_none(b, 0);
    lemma_no_hit1_upto(b, sep, p, p + 58);
    if p > 0 {
        assert(run1(b, sep, p) == step1(run1(b, sep, p - 1), b[p - 1], sep));
    }
    lemma_run1_climb(b, sep, p, 59);
    lemma_first1_hit(b, sep, 0, p + 59);
}

/// The shape-2 pass has priority: when it completes anywhere in the
/// buffer, its window is the result, whatever the shape-1 pass would
/// have found.
pub proof fn lemma_shape2_priority(b: Seq<u8>, sep: u8, p: int)
    requires
        first2_from(b, 0) == Some(p),
    ensures
        scan_spec(b, sep) == Some(b.subrange(p, p + 88)),
{
}

/// Candidate buffers none of which hold a well-formed span of either
/// shape yield "not found" for the whole search.
pub proof fn lemma_tok_no_span(files: Seq<Seq<u8>>, sep: u8)
    requires
        forall|k: int, p: int| 0 <= k < files.len() ==> !(#[trigger] is_span2(files[k], p)),
        forall|k: int, p: int|
            0 <= k < files.len() ==> !(#[trigger] is_span1(files[k], p, sep)),
    ensures
        tok_spec(files, sep) is None,
    decreases files.len(),
{
    if files.len() > 0 {
        lemma_no_span_not_found(files[0], sep);
        assert forall|k: int, p: int| 0 <= k < files.skip(1).len() implies !(#[trigger]
        is_span2(files.skip(1)[k], p)) by {
            assert(files.skip(1)[k] == files[k + 1]);
        }
        assert forall|k: int, p: int| 0 <= k < files.skip(1).len() implies !(#[trigger]
        is_span1(files.skip(1)[k], p, sep)) by {
            assert(files.skip(1)[k] == files[k + 1]);
        }
        lemma_tok_no_span(files.skip(1), sep);
    }
}

/// Scanning the same candidate buffers twice, unmodified, yields the
/// same token or the same "not found" outcome both times: the outcome is
/// a function of the bytes alone.
pub proof fn lemma_tok_deterministic(
    files: Seq<Seq<u8>>,
    sep: u8,
    r1: Option<Seq<u8>>,
    r2: Option<Seq<u8>>,
)
    requires
        r1 == tok_spec(files, sep),
        r2 == tok_spec(files, sep),
    ensures
        r1 == r2,
{
}

/// True of a file name that carries the log-file suffix `.ldb`.
pub open spec fn ldb_suffix(s: Seq<u8>) -> bool {
    s.len() >= 4 && s[s.len() - 4] == DOT && s[s.len() - 3] == 108 && s[s.len() - 2] == 100
        && s[s.len() - 1] == 98
}

/// Decides whether a file name ends in the log-file suffix `.ldb`.
pub fn has_ldb_suffix(name: &Vec<u8>) -> (r: bool)
    ensures
        r == ldb_suffix(name@),
{
    let n = name.len();
    if n < 4 {
        return false;
    }
    name[n - 4] == DOT && name[n - 3] == 108 && name[n - 2] == 100 && name[n - 1] == 98
}

} // verus!
