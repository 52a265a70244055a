//! Small verified helpers on byte vectors that the other modules share.

use vstd::prelude::*;

verus! {

/// Decide whether two byte vectors hold the same bytes.
pub fn bytes_eq(a: &Vec<u8>, b: &Vec<u8>) -> (equal: bool)
    ensures
        equal == (a@ == b@),
{
    if a.len() != b.len() {
        assert(a@ != b@);
        return false;
    }
    let mut i: usize = 0;
    while i < a.len()
        invariant
            a@.len() == b@.len(),
            i <= a.len(),
            forall|j: int| 0 <= j < i ==> a@[j] == b@[j],
        decreases a.len() - i,
    {
        if a[i] != b[i] {
            assert(a@ != b@);
            return false;
        }
        i += 1;
    }
    proof {
        assert(a@ =~= b@);
    }
    true
}

/// Return `head` extended by the bytes of `tail`.
pub fn push_all(head: Vec<u8>, tail: &Vec<u8>) -> (joined: Vec<u8>)
    ensures
        joined@ == head@ + tail@,
{
    let mut joined = head;
    let mut i: usize = 0;
    while i < tail.len()
        invariant
            i <= tail.len(),
            joined@ == head@ + tail@.take(i as int),
        decreases tail.len() - i,
    {
        joined.push(tail[i]);
        proof {
            assert(head@ + tail@.take(i as int) + seq![tail@[i as int]] =~= head@ + tail@.take(
                i + 1,
            ));
        }
        i += 1;
    }
    proof {
        assert(tail@.take(tail@.len() as int) =~= tail@);
    }
    joined
}

/// Append the bytes of `tail` to `out` in place.
pub fn append_all(out: &mut Vec<u8>, tail: &Vec<u8>)
    ensures
        final(out)@ == old(out)@ + tail@,
{
    let mut i: usize = 0;
    while i < tail.len()
        invariant
            i <= tail.len(),
            out@ == old(out)@ + tail@.take(i as int),
        decreases tail.len() - i,
    {
        out.push(tail[i]);
        proof {
            assert(old(out)@ + tail@.take(i as int) + seq![tail@[i as int]] =~= old(out)@
                + tail@.take(i + 1));
        }
        i += 1;
    }
    proof {
        assert(tail@.take(tail@.len() as int) =~= tail@);
    }
}

/// The ASCII whitespace bytes: tab, line feed, vertical tab, form feed,
/// carriage return and space.
pub open spec fn is_space_byte(b: u8) -> bool {
    b == 9 || b == 10 || b == 11 || b == 12 || b == 13 || b == 32
}

/// Decide whether a byte is ASCII whitespace.
pub fn space_byte(b: u8) -> (space: bool)
    ensures
        space == is_space_byte(b),
{
    b == 9 || b == 10 || b == 11 || b == 12 || b == 13 || b == 32
}

/// A byte sequence with leading whitespace removed.
pub open spec fn trim_front(s: Seq<u8>) -> Seq<u8>
    decreases s.len(),
{
    if s.len() > 0 && is_space_byte(s[0]) {
        trim_front(s.drop_first())
    } else {
        s
    }
}

/// A byte sequence with trailing whitespace removed.
pub open spec fn trim_back(s: Seq<u8>) -> Seq<u8>
    decreases s.len(),
{
    if s.len() > 0 && is_space_byte(s.last()) {
        trim_back(s.drop_last())
    } else {
        s
    }
}

/// A byte sequence with both leading and trailing whitespace removed.
pub open spec fn trimmed(s: Seq<u8>) -> Seq<u8> {
    trim_back(trim_front(s))
}

/// Strip leading and trailing ASCII whitespace from a byte vector.
pub fn trim_bytes(raw: &Vec<u8>) -> (out: Vec<u8>)
    ensures
        out@ == trimmed(raw@),
{
    let mut lo: usize = 0;
    proof {
        assert(raw@.skip(0) =~= raw@);
    }
    while lo < raw.len()
        invariant
            lo <= raw.len(),
            trim_front(raw@) == trim_front(raw@.skip(lo as int)),
        ensures
            lo <= raw.len(),
            trim_front(raw@) == trim_front(raw@.skip(lo as int)),
            lo == raw.len() || !is_space_byte(raw@[lo as int]),
        decreases raw.len() - lo,
    {
        if !space_byte(raw[lo]) {
            break ;
        }
        proof {
            assert(raw@.skip(lo as int)[0] == raw@[lo as int]);
            assert(raw@.skip(lo as int).drop_first() =~= raw@.skip(lo + 1));
        }
        lo += 1;
    }
    proof {
        if lo < raw.len() {
            assert(raw@.skip(lo as int)[0] == raw@[lo as int]);
        }
        assert(trim_front(raw@.skip(lo as int)) == raw@.skip(lo as int));
        assert(raw@.skip(lo as int) =~= raw@.subrange(lo as int, raw@.len() as int));
    }
    let mut hi: usize = raw.len();
    while hi > lo
        invariant
            lo <= hi <= raw.len(),
            trim_back(raw@.skip(lo as int)) == trim_back(raw@.subrange(lo as int, hi as int)),
        ensures
            lo <= hi <= raw.len(),
            trim_back(raw@.skip(lo as int)) == trim_back(raw@.subrange(lo as int, hi as int)),
            hi == lo || !is_space_byte(raw@[hi - 1]),
        decreases hi,
    {
        if !space_byte(raw[hi - 1]) {
            break ;
        }
        proof {
            assert(raw@.subrange(lo as int, hi as int).last() == raw@[hi - 1]);
            assert(raw@.subrange(lo as int, hi as int).drop_last() =~= raw@.subrange(
                lo as int,
                hi - 1,
            ));
        }
        hi -= 1;
    }
    proof {
        if hi > lo {
            assert(raw@.subrange(lo as int, hi as int).last() == raw@[hi - 1]);
        }
        assert(trim_back(raw@.subrange(lo as int, hi as int)) == raw@.subrange(
            lo as int,
            hi as int,
        ));
    }
    let mut out: Vec<u8> = Vec::new();
    let mut i: usize = lo;
    proof {
        assert(raw@.subrange(lo as int, lo as int) =~= Seq::<u8>::empty());
    }
    while i < hi
        invariant
            lo <= i <= hi <= raw.len(),
            out@ == raw@.subrange(lo as int, i as int),
        decreases hi - i,
    {
        out.push(raw[i]);
        proof {
            assert(raw@.subrange(lo as int, i as int) + seq![raw@[i as int]] =~= raw@.subrange(
                lo as int,
                i + 1,
            ));
        }
        i += 1;
    }
    out
}

/// The deep view of a vector of byte vectors is the sequence of their views.
pub proof fn lemma_deep_view_points(v: Vec<Vec<u8>>)
    ensures
        v.deep_view().len() == v@.len(),
        forall|j: int| 0 <= j < v@.len() ==> v.deep_view()[j] == v@[j]@,
{
    assert forall|j: int| 0 <= j < v@.len() implies v.deep_view()[j] == v@[j]@ by {
        assert(v@[j].deep_view() =~= v@[j]@);
    }
}

} // verus!
