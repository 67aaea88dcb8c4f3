//! Plain-text configuration lines and case-insensitive name lookup.
//!
//! The configuration file holds up to three newline-separated values:
//! last-used server name, channel name, and output template, in that
//! order. A missing or empty line means the value is absent. Server and
//! channel names are compared after ASCII lowercasing.

use vstd::prelude::*;

verus! {

/// The newline byte that separates configuration lines.
pub const NEWLINE: u8 = 10;

/// ASCII lowercase of one byte: upper-case letters shift down, every
/// other byte stays.
pub open spec fn lower_byte(c: u8) -> u8 {
    if 65 <= c && c <= 90 {
        (c + 32) as u8
    } else {
        c
    }
}

/// ASCII lowercase of a byte string.
pub open spec fn lower_seq(s: Seq<u8>) -> Seq<u8> {
    s.map_values(|c: u8| lower_byte(c))
}

/// Copies a byte string.
pub fn clone_bytes(v: &Vec<u8>) -> (r: Vec<u8>)
    ensures
        r@ == v@,
{
    let n = v.len();
    let mut r: Vec<u8> = Vec::new();
    let mut i: usize = 0;
    while i < n
        invariant
            n == v@.len(),
            i <= n,
            r@ == v@.subrange(0, i as int),
        decreases n - i,
    {
        r.push(v[i]);
        proof {
            assert(r@ =~= v@.subrange(0, i + 1));
        }
        i = i + 1;
    }
    proof {
        assert(r@ =~= v@);
    }
    r
}

/// Decides equality of two byte slices.
pub fn bytes_eq_slice(a: &[u8], b: &[u8]) -> (r: bool)
    ensures
        r == (a@ == b@),
{
    let n = a.len();
    if n != b.len() {
        return false;
    }
    let mut i: usize = 0;
    while i < n
        invariant
            n == a@.len() == b@.len(),
            i <= n,
            forall|j: int| 0 <= j < i ==> a@[j] == b@[j],
        decreases n - i,
    {
        if *vstd::slice::slice_index_get(a, i) != *vstd::slice::slice_index_get(b, i) {
            return false;
        }
        i = i + 1;
    }
    proof {
        assert(a@ =~= b@);
    }
    true
}

/// Decides equality of two byte strings.
pub fn bytes_eq(a: &Vec<u8>, b: &Vec<u8>) -> (r: bool)
    ensures
        r == (a@ == b@),
{
    bytes_eq_slice(a.as_slice(), b.as_slice())
}

/// ASCII-lowercases a byte string.
pub fn to_lower(s: &Vec<u8>) -> (r: Vec<u8>)
    ensures
        r@ == lower_seq(s@),
{
    let n = s.len();
    let mut r: Vec<u8> = Vec::new();
    let mut i: usize = 0;
    while i < n
        invariant
            n == s@.len(),
            i <= n,
            r@.len() == i,
            forall|j: int| 0 <= j < i ==> r@[j] == lower_byte(s@[j]),
        decreases n - i,
    {
        let c = s[i];
        if c >= 65 && c <= 90 {
            r.push(c + 32);
        } else {
            r.push(c);
        }
        i = i + 1;
    }
    proof {
        assert(r@ =~= lower_seq(s@));
    }
    r
}

/// Index of the first newline at or after `i`, or the length when the
/// rest of the buffer holds none.
pub open spec fn first_nl(b: Seq<u8>, i: int) -> int
    decreases b.len() - i,
{
    if i < 0 || i >= b.len() {
        b.len() as int
    } else if b[i] == NEWLINE {
        i
    } else {
        first_nl(b, i + 1)
    }
}

/// The three configuration lines of a buffer: the first up-to-three
/// newline-separated segments, a missing segment read as empty.
pub open spec fn config_lines_spec(b: Seq<u8>) -> (Seq<u8>, Seq<u8>, Seq<u8>) {
    let e0 = first_nl(b, 0);
    let l0 = b.subrange(0, e0);
    let l1 = if e0 < b.len() {
        b.subrange(e0 + 1, first_nl(b, e0 + 1))
    } else {
        Seq::empty()
    };
    let e1 = first_nl(b, e0 + 1);
    let l2 = if e0 < b.len() && e1 < b.len() {
        b.subrange(e1 + 1, first_nl(b, e1 + 1))
    } else {
        Seq::empty()
    };
    (l0, l1, l2)
}

fn find_nl(b: &Vec<u8>, from: usize) -> (r: usize)
    requires
        from <= b@.len(),
    ensures
        r == first_nl(b@, from as int),
        from <= r <= b@.len(),
        r < b@.len() ==> b@[r as int] == NEWLINE,
    decreases b@.len() - from,
{
    let n = b.len();
    let mut i: usize = from;
    while i < n
        invariant
            n == b@.len(),
            from <= i <= n,
            first_nl(b@, from as int) == first_nl(b@, i as int),
        decreases n - i,
    {
        if b[i] == NEWLINE {
            return i;
        }
        i = i + 1;
    }
    n
}

fn line_of(b: &Vec<u8>, start: usize, end: usize) -> (r: Option<Vec<u8>>)
    requires
        start <= end <= b@.len(),
    ensures
        r matches Some(v) ==> v@ == b@.subrange(start as int, end as int) && v@.len() > 0,
        r is None ==> b@.subrange(start as int, end as int).len() == 0,
{
    if start == end {
        return None;
    }
    let mut r: Vec<u8> = Vec::new();
    let mut i: usize = start;
    while i < end
        invariant
            start <= i <= end <= b@.len(),
            r@ == b@.subrange(start as int, i as int),
        decreases end - i,
    {
        r.push(b[i]);
        proof {
            assert(r@ =~= b@.subrange(start as int, i + 1));
        }
        i = i + 1;
    }
    Some(r)
}

/// Splits a configuration buffer into its first three lines. A line that
/// is missing or empty comes back absent, exactly as the original file
/// format treats it.
pub fn parse_config(contents: &Vec<u8>) -> (r: (Option<Vec<u8>>, Option<Vec<u8>>, Option<
    Vec<u8>,
>))
    ensures
        r.0 matches Some(v) ==> v@ == config_lines_spec(contents@).0 && v@.len() > 0,
        r.0 is None ==> config_lines_spec(contents@).0.len() == 0,
        r.1 matches Some(v) ==> v@ == config_lines_spec(contents@).1 && v@.len() > 0,
        r.1 is None ==> config_lines_spec(contents@).1.len() == 0,
        r.2 matches Some(v) ==> v@ == config_lines_spec(contents@).2 && v@.len() > 0,
        r.2 is None ==> config_lines_spec(contents@).2.len() == 0,
{
    let n = contents.len();
    let e0 = find_nl(contents, 0);
    let l0 = line_of(contents, 0, e0);
    if e0 >= n {
        return (l0, None, None);
    }
    let e1 = find_nl(contents, e0 + 1);
    let l1 = line_of(contents, e0 + 1, e1);
    if e1 >= n {
        return (l0, l1, None);
    }
    let e2 = find_nl(contents, e1 + 1);
    let l2 = line_of(contents, e1 + 1, e2);
    (l0, l1, l2)
}

/// One entry of a listing answered by the remote service: an identifier
/// and, for channels, an optional display name.
pub struct NamedEntry {
    /// The entry's identifier.
    pub id: Vec<u8>,
    /// The entry's display name, absent for unnamed channels.
    pub name: Option<Vec<u8>>,
}

/// The identifier of the last entry whose lowercased name equals the
/// target, scanning the listing in order — the original keeps the last
/// match, not the first.
pub open spec fn find_spec(entries: Seq<NamedEntry>, target: Seq<u8>) -> Option<Seq<u8>>
    decreases entries.len(),
{
    if entries.len() == 0 {
        None
    } else {
        let last = entries[entries.len() - 1];
        match last.name {
            Some(nm) => if lower_seq(nm@) == target {
                Some(last.id@)
            } else {
                find_spec(entries.drop_last(), target)
            },
            None => find_spec(entries.drop_last(), target),
        }
    }
}

/// Looks a lowercased name up in a listing and hands back the matching
/// identifier, preferring the last match as the original does.
pub fn find_id_by_name(entries: &Vec<NamedEntry>, target: &Vec<u8>) -> (r: Option<Vec<u8>>)
    ensures
        r matches Some(id) ==> find_spec(entries@, target@) == Some(id@),
        r is None ==> find_spec(entries@, target@) is None,
{
    let n = entries.len();
    proof {
        assert(entries@.subrange(0, n as int) =~= entries@);
    }
    let mut j: usize = n;
    while j > 0
        invariant
            n == entries@.len(),
            j <= n,
            find_spec(entries@, target@) == find_spec(entries@.subrange(0, j as int), target@),
        decreases j,
    {
        j = j - 1;
        proof {
            assert(entries@.subrange(0, j + 1).drop_last() =~= entries@.subrange(0, j as int));
            assert(entries@.subrange(0, j + 1)[j as int] == entries@[j as int]);
        }
        match &entries[j].name {
            Some(nm) => {
                let low = to_lower(nm);
                if bytes_eq(&low, target) {
                    let id = clone_bytes(&entries[j].id);
                    return Some(id);
                }
            },
            None => {
            },
        }
    }
    proof {
        assert(entries@.subrange(0, 0) =~= Seq::<NamedEntry>::empty());
    }
    None
}

} // verus!
