//! Service names: their dot-separated labels and the validity rule that
//! a name must meet before a query can be built for it.

use vstd::prelude::*;

verus! {

/// The byte that separates labels in a service name.
pub const DOT: u8 = 0x2e;

/// The largest number of bytes in one label of a DNS name.
pub const MAX_LABEL_LEN: usize = 63;

/// The pieces of `s` between dots, empty pieces included, in order
/// (the way `str::split('.')` cuts a string). Never empty.
pub open spec fn dot_split(s: Seq<u8>) -> Seq<Seq<u8>>
    decreases s.len(),
{
    if s.len() == 0 {
        seq![Seq::<u8>::empty()]
    } else {
        let prev = dot_split(s.drop_last());
        if s.last() == DOT {
            prev.push(Seq::<u8>::empty())
        } else {
            prev.update(prev.len() - 1, prev.last().push(s.last()))
        }
    }
}

/// A name is valid when every label is non-empty and at most 63 bytes long.
pub open spec fn valid_labels(labels: Seq<Seq<u8>>) -> bool {
    forall|i: int| 0 <= i < labels.len() ==> 0 < #[trigger] labels[i].len() <= MAX_LABEL_LEN
}

pub open spec fn valid_name(s: Seq<u8>) -> bool {
    valid_labels(dot_split(s))
}

/// The byte sequences held by a vector of byte vectors.
pub open spec fn labels_view(v: Seq<Vec<u8>>) -> Seq<Seq<u8>> {
    v.map_values(|l: Vec<u8>| l@)
}

/// Cuts `s` at every dot.
pub fn split_labels(s: &[u8]) -> (r: Vec<Vec<u8>>)
    ensures
        labels_view(r@) == dot_split(s@),
{
    let mut out: Vec<Vec<u8>> = Vec::new();
    let mut cur: Vec<u8> = Vec::new();
    let mut i: usize = 0;
    proof {
        assert(s@.subrange(0, 0) =~= Seq::<u8>::empty());
        assert(labels_view(out@).push(cur@) =~= seq![Seq::<u8>::empty()]);
    }
    while i < s.len()
        invariant
            0 <= i <= s.len(),
            labels_view(out@).push(cur@) == dot_split(s@.subrange(0, i as int)),
        decreases s.len() - i,
    {
        let b = s[i];
        let ghost pre = s@.subrange(0, i as int);
        let ghost next = s@.subrange(0, i + 1);
        proof {
            assert(next.drop_last() =~= pre);
            assert(next.last() == b);
        }
        if b == DOT {
            out.push(cur);
            cur = Vec::new();
            proof {
                assert(labels_view(out@).push(cur@) =~= dot_split(pre).push(Seq::<u8>::empty()));
            }
        } else {
            cur.push(b);
            proof {
                let p = dot_split(pre);
                assert(labels_view(out@).push(cur@) =~= p.update(p.len() - 1, p.last().push(b)));
            }
        }
        i += 1;
    }
    out.push(cur);
    proof {
        assert(s@.subrange(0, s@.len() as int) =~= s@);
        assert(labels_view(out@) =~= dot_split(s@));
    }
    out
}

/// Whether every label of `labels` is non-empty and at most 63 bytes long.
pub fn labels_are_valid(labels: &Vec<Vec<u8>>) -> (r: bool)
    ensures
        r == valid_labels(labels_view(labels@)),
{
    let mut i: usize = 0;
    while i < labels.len()
        invariant
            0 <= i <= labels.len(),
            forall|j: int| 0 <= j < i ==> 0 < #[trigger] labels@[j]@.len() <= MAX_LABEL_LEN,
        decreases labels.len() - i,
    {
        let n = labels[i].len();
        if n == 0 || n > MAX_LABEL_LEN {
            assert(labels_view(labels@)[i as int] == labels@[i as int]@);
            return false;
        }
        i += 1;
    }
    proof {
        assert forall|j: int| 0 <= j < labels_view(labels@).len() implies 0 < #[trigger] labels_view(
            labels@,
        )[j].len() <= MAX_LABEL_LEN by {
            assert(labels_view(labels@)[j] == labels@[j]@);
        }
    }
    true
}

} // verus!
