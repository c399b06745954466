//! Hostname buffer handling: trimming the raw buffer the operating
//! system fills to its terminator.

use vstd::prelude::*;

verus! {

/// Position of the first zero byte, or the length when there is none.
pub open spec fn first_nul(s: Seq<u8>) -> int
    decreases s.len(),
{
    if s.len() == 0 {
        0
    } else if s[0] == 0 {
        0
    } else {
        1 + first_nul(s.drop_first())
    }
}

/// A position with no zero byte before it, and a zero byte (or the
/// end) at it, is exactly `first_nul`.
proof fn lemma_first_nul_at(s: Seq<u8>, i: int)
    requires
        0 <= i <= s.len(),
        forall|k: int| 0 <= k < i ==> s[k] != 0,
        i < s.len() ==> s[i] == 0,
    ensures
        first_nul(s) == i,
    decreases s.len(),
{
    if s.len() == 0 {
    } else if i == 0 {
    } else {
        let t = s.drop_first();
        assert(forall|k: int| 0 <= k < i - 1 ==> t[k] == s[k + 1]);
        assert(i - 1 < t.len() ==> t[i - 1] == s[i]);
        lemma_first_nul_at(t, i - 1);
    }
}

/// The hostname held by a raw buffer: its bytes up to (and not
/// including) the first zero terminator, the whole buffer when no
/// terminator is present.
pub fn hostname_from_buffer(buf: &Vec<u8>) -> (r: Vec<u8>)
    ensures
        r@ == buf@.take(first_nul(buf@)),
{
    let mut r: Vec<u8> = Vec::new();
    let mut i: usize = 0;
    while i < buf.len() && buf[i] != 0
        invariant
            0 <= i <= buf@.len(),
            r@ == buf@.take(i as int),
            forall|k: int| 0 <= k < i ==> buf@[k] != 0,
        decreases buf@.len() - i,
    {
        r.push(buf[i]);
        proof {
            assert(buf@.take(i as int + 1).drop_last() =~= buf@.take(i as int));
        }
        i = i + 1;
    }
    proof {
        lemma_first_nul_at(buf@, i as int);
    }
    r
}

} // verus!
