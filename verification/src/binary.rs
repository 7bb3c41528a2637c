//! The heuristic that decides whether a byte buffer looks binary.

use vstd::prelude::*;

verus! {

/// A byte counted as control-like by the heuristic: below the tab character,
/// or a control code in the inclusive range 14 to 31.
pub open spec fn is_control_like(b: u8) -> bool {
    b < 9 || (14 <= b && b < 32)
}

/// How many bytes of `s` are control-like.
pub open spec fn control_count(s: Seq<u8>) -> nat
    decreases s.len(),
{
    if s.len() == 0 {
        0
    } else {
        control_count(s.drop_last()) + if is_control_like(s.last()) {
            1nat
        } else {
            0nat
        }
    }
}

/// The buffer is classified binary when it is non-empty and either holds a
/// null byte or more than two percent of its bytes are control-like.
pub open spec fn is_binary_spec(s: Seq<u8>) -> bool {
    s.len() > 0 && (s.contains(0u8) || control_count(s) * 50 > s.len())
}

/// Every non-empty buffer with a null byte is classified binary.
pub proof fn lemma_null_byte_is_binary(s: Seq<u8>)
    requires
        s.len() > 0,
        exists|i: int| 0 <= i < s.len() && s[i] == 0u8,
    ensures
        is_binary_spec(s),
{
    assert(s.contains(0u8));
}

/// Decides whether `buf` looks binary: empty buffers never are; a null byte
/// always is; otherwise more than two percent control-like bytes are.
pub fn is_binary(buf: &Vec<u8>) -> (r: bool)
    ensures
        r == is_binary_spec(buf@),
{
    let n = buf.len();
    if n == 0 {
        return false;
    }
    let mut count: usize = 0;
    let mut i: usize = 0;
    while i < n
        invariant
            n == buf@.len(),
            i <= n,
            count == control_count(buf@.take(i as int)),
            count <= i,
            forall|k: int| 0 <= k < i ==> buf@[k] != 0u8,
        decreases n - i,
    {
        let b = buf[i];
        if b == 0 {
            assert(buf@.contains(0u8));
            return true;
        }
        proof {
            assert(buf@.take(i + 1).drop_last() =~= buf@.take(i as int));
            assert(buf@.take(i + 1).last() == buf@[i as int]);
        }
        if b < 9 || (14 <= b && b < 32) {
            count += 1;
        }
        i += 1;
    }
    proof {
        assert(buf@.take(n as int) =~= buf@);
        assert(!buf@.contains(0u8));
    }
    ((count as u128) * 50) > (n as u128)
}

} // verus!
