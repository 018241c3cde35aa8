//! TXT record data: a run of length-prefixed segments, each holding a
//! `key=value` pair.

use vstd::prelude::*;

verus! {

/// The byte that separates a TXT key from its value.
pub const EQ: u8 = 0x3d;

/// One key/value pair of a TXT record.
pub struct TxtEntry {
    pub key: Vec<u8>,
    pub value: Vec<u8>,
}

impl View for TxtEntry {
    type V = (Seq<u8>, Seq<u8>);

    open spec fn view(&self) -> (Seq<u8>, Seq<u8>) {
        (self.key@, self.value@)
    }
}

pub open spec fn entries_view(v: Seq<TxtEntry>) -> Seq<(Seq<u8>, Seq<u8>)> {
    v.map_values(|e: TxtEntry| e@)
}

/// `i` is the position of the first `=` in `c`.
pub open spec fn first_eq_at(c: Seq<u8>, i: int) -> bool {
    0 <= i < c.len() && c[i] == EQ && forall|j: int| 0 <= j < i ==> c[j] != EQ
}

/// A segment split at its first `=`; without one, the whole segment is
/// the key and the value is empty.
pub open spec fn split_entry(c: Seq<u8>) -> (Seq<u8>, Seq<u8>) {
    if exists|i: int| first_eq_at(c, i) {
        let i = choose|i: int| first_eq_at(c, i);
        (c.subrange(0, i), c.subrange(i + 1, c.len() as int))
    } else {
        (c, Seq::<u8>::empty())
    }
}

/// The entries of TXT record data, in order. Each segment is a length
/// byte `L` followed by `L` bytes; a segment that runs past the end of
/// the data ends the list.
pub open spec fn txt_entries(data: Seq<u8>) -> Seq<(Seq<u8>, Seq<u8>)>
    decreases data.len(),
{
    if data.len() == 0 {
        seq![]
    } else {
        let len = data[0] as int;
        if 1 + len > data.len() {
            seq![]
        } else {
            seq![split_entry(data.subrange(1, 1 + len))] + txt_entries(
                data.subrange(1 + len, data.len() as int),
            )
        }
    }
}

/// The bytes of `data` from `a` up to `b`.
pub fn copy_range(data: &[u8], a: usize, b: usize) -> (r: Vec<u8>)
    requires
        a <= b <= data@.len(),
    ensures
        r@ == data@.subrange(a as int, b as int),
{
    let mut r: Vec<u8> = Vec::new();
    let mut i: usize = a;
    while i < b
        invariant
            a <= i <= b <= data@.len(),
            r@ == data@.subrange(a as int, i as int),
        decreases b - i,
    {
        r.push(data[i]);
        i += 1;
        assert(r@ =~= data@.subrange(a as int, i as int));
    }
    r
}

/// Splits the segment `data[start..end]` at its first `=`.
pub fn split_segment(data: &[u8], start: usize, end: usize) -> (r: TxtEntry)
    requires
        start <= end <= data@.len(),
    ensures
        r@ == split_entry(data@.subrange(start as int, end as int)),
{
    let ghost c = data@.subrange(start as int, end as int);
    let mut i: usize = start;
    while i < end && data[i] != EQ
        invariant
            start <= i <= end <= data@.len(),
            forall|j: int| start <= j < i ==> data@[j] != EQ,
        decreases end - i,
    {
        i += 1;
    }
    if i < end {
        let key = copy_range(data, start, i);
        let value = copy_range(data, i + 1, end);
        proof {
            let k = i - start;
            assert(first_eq_at(c, k));
            let m = choose|m: int| first_eq_at(c, m);
            if m < k {
                assert(c[m] == EQ);
            } else if k < m {
                assert(c[k] == EQ);
            }
            assert(m == k);
            assert(key@ =~= c.subrange(0, k));
            assert(value@ =~= c.subrange(k + 1, c.len() as int));
        }
        TxtEntry { key, value }
    } else {
        let key = copy_range(data, start, end);
        proof {
            assert forall|m: int| !first_eq_at(c, m) by {
                if 0 <= m < c.len() {
                    assert(c[m] == data@[start + m]);
                }
            }
        }
        TxtEntry { key, value: Vec::new() }
    }
}

/// The entries of the TXT record data `data`.
pub fn parse_txt(data: &[u8]) -> (r: Vec<TxtEntry>)
    ensures
        entries_view(r@) == txt_entries(data@),
{
    let mut out: Vec<TxtEntry> = Vec::new();
    let mut off: usize = 0;
    let n = data.len();
    assert(data@.subrange(0, n as int) =~= data@);
    while off < n
        invariant
            n == data@.len(),
            off <= n,
            entries_view(out@) + txt_entries(data@.subrange(off as int, n as int)) == txt_entries(
                data@,
            ),
        ensures
            entries_view(out@) == txt_entries(data@),
        decreases n - off,
    {
        let ghost rest = data@.subrange(off as int, n as int);
        let len = data[off] as usize;
        if len >= n - off {
            assert(txt_entries(rest) == Seq::<(Seq<u8>, Seq<u8>)>::empty());
            assert(entries_view(out@) + txt_entries(rest) =~= entries_view(out@));
            break;
        }
        let e = split_segment(data, off + 1, off + 1 + len);
        let ghost old_out = out@;
        out.push(e);
        proof {
            assert(rest.subrange(1, 1 + len) =~= data@.subrange(off + 1, off + 1 + len));
            assert(rest.subrange(1 + len, rest.len() as int) =~= data@.subrange(
                off + 1 + len,
                n as int,
            ));
            assert(entries_view(out@) =~= entries_view(old_out).push(e@));
            assert(entries_view(out@) + txt_entries(data@.subrange(off + 1 + len, n as int))
                =~= entries_view(old_out) + txt_entries(rest));
        }
        off = off + 1 + len;
        if off == n {
            assert(data@.subrange(off as int, n as int) =~= Seq::<u8>::empty());
            assert(entries_view(out@) + Seq::<(Seq<u8>, Seq<u8>)>::empty() =~= entries_view(
                out@,
            ));
        }
    }
    out
}

/// A segment without `=` is kept whole, as a key with an empty value,
/// and the segments after it are still read.
pub proof fn lemma_segment_without_separator(content: Seq<u8>, rest: Seq<u8>)
    requires
        content.len() <= 255,
        forall|i: int| 0 <= i < content.len() ==> content[i] != EQ,
    ensures
        txt_entries(seq![content.len() as u8] + content + rest) == seq![
            (content, Seq::<u8>::empty()),
        ] + txt_entries(rest),
{
    let data = seq![content.len() as u8] + content + rest;
    assert(data.subrange(1, 1 + content.len() as int) =~= content);
    assert(data.subrange(1 + content.len() as int, data.len() as int) =~= rest);
    assert(!exists|i: int| first_eq_at(content, i));
}

} // verus!
