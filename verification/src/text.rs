//! Byte-string utilities: left-to-right substring replacement, decimal
//! rendering, and the separator escape decoding built on them.

use vstd::prelude::*;

verus! {

/// Replaces every occurrence of `pat` in `s` by `rep`, scanning left to
/// right without rescanning replaced text, as `str::replace` does.
pub open spec fn replace_spec(s: Seq<u8>, pat: Seq<u8>, rep: Seq<u8>) -> Seq<u8>
    decreases s.len(),
{
    if pat.len() == 0 || s.len() < pat.len() {
        s
    } else if s.subrange(0, pat.len() as int) == pat {
        rep + replace_spec(s.skip(pat.len() as int), pat, rep)
    } else {
        seq![s[0]] + replace_spec(s.skip(1), pat, rep)
    }
}

/// True when `pat` occurs in `s` starting at position `i`.
fn matches_at(s: &Vec<u8>, pat: &Vec<u8>, i: usize) -> (r: bool)
    requires
        i + pat@.len() <= s@.len(),
    ensures
        r == (s@.subrange(i as int, i + pat@.len()) == pat@),
{
    let n = s.len();
    let m = pat.len();
    let mut j: usize = 0;
    while j < m
        invariant
            n == s@.len(),
            m == pat@.len(),
            i + m <= n,
            j <= m,
            forall|k: int| 0 <= k < j ==> s@[i + k] == pat@[k],
        decreases m - j,
    {
        if s[i + j] != pat[j] {
            assert(s@.subrange(i as int, i + pat@.len())[j as int] != pat@[j as int]);
            return false;
        }
        j += 1;
    }
    assert(s@.subrange(i as int, i + pat@.len()) =~= pat@);
    true
}

/// Replaces every occurrence of `pat` in `s` by `rep`, left to right.
pub fn replace_all(s: &Vec<u8>, pat: &Vec<u8>, rep: &Vec<u8>) -> (r: Vec<u8>)
    requires
        pat@.len() > 0,
    ensures
        r@ == replace_spec(s@, pat@, rep@),
{
    let mut out: Vec<u8> = Vec::new();
    let mut i: usize = 0;
    proof {
        assert(s@.skip(0) =~= s@);
        assert(Seq::<u8>::empty() + replace_spec(s@, pat@, rep@) =~= replace_spec(s@, pat@, rep@));
    }
    while i < s.len()
        invariant
            pat@.len() > 0,
            i <= s@.len(),
            replace_spec(s@, pat@, rep@) == out@ + replace_spec(s@.skip(i as int), pat@, rep@),
        decreases s@.len() - i,
    {
        if pat.len() <= s.len() - i && matches_at(s, pat, i) {
            proof {
                let tail = s@.skip(i as int);
                assert(tail.subrange(0, pat@.len() as int) =~= s@.subrange(
                    i as int,
                    i + pat@.len(),
                ));
                assert(tail.skip(pat@.len() as int) =~= s@.skip(i + pat@.len()));
                assert(replace_spec(tail, pat@, rep@) == rep@ + replace_spec(
                    s@.skip(i + pat@.len()),
                    pat@,
                    rep@,
                ));
                assert((out@ + rep@) + replace_spec(s@.skip(i + pat@.len()), pat@, rep@) =~= out@
                    + replace_spec(s@.skip(i as int), pat@, rep@));
            }
            let mut piece = rep.clone();
            out.append(&mut piece);
            i += pat.len();
        } else {
            proof {
                let tail = s@.skip(i as int);
                assert(tail.len() >= pat@.len() ==> tail.subrange(0, pat@.len() as int) =~= s@
                    .subrange(i as int, i + pat@.len()));
                assert(tail.skip(1) =~= s@.skip(i + 1));
                assert(seq![tail[0]] + s@.skip(i + 1) =~= tail);
                assert(replace_spec(tail, pat@, rep@) == seq![s@[i as int]] + replace_spec(
                    s@.skip(i + 1),
                    pat@,
                    rep@,
                ));
                assert((out@ + seq![s@[i as int]]) + replace_spec(s@.skip(i + 1), pat@, rep@) =~= out@
                    + replace_spec(s@.skip(i as int), pat@, rep@));
            }
            let b = s[i];
            out.push(b);
            i += 1;
        }
    }
    proof {
        assert(s@.skip(i as int) =~= Seq::<u8>::empty());
        assert(out@ + Seq::<u8>::empty() =~= out@);
    }
    out
}

/// True when `pat` occurs in `s` at position `i`.
pub open spec fn occurs_at(s: Seq<u8>, pat: Seq<u8>, i: int) -> bool {
    0 <= i && i + pat.len() <= s.len() && s.subrange(i, i + pat.len() as int) == pat
}

/// How many positions in `lo <= i < hi` hold an occurrence of `pat`.
pub open spec fn count_range(s: Seq<u8>, pat: Seq<u8>, lo: int, hi: int) -> nat
    decreases hi - lo,
{
    if lo >= hi {
        0
    } else {
        count_range(s, pat, lo, hi - 1) + if occurs_at(s, pat, hi - 1) {
            1nat
        } else {
            0nat
        }
    }
}

/// How many positions of `s` hold an occurrence of `pat`.
pub open spec fn count_occurrences(s: Seq<u8>, pat: Seq<u8>) -> nat {
    count_range(s, pat, 0, s.len() as int + 1)
}

/// No byte of `a` equals any byte of `b`.
pub open spec fn byte_disjoint(a: Seq<u8>, b: Seq<u8>) -> bool {
    forall|x: int, y: int| 0 <= x < a.len() && 0 <= y < b.len() ==> a[x] != b[y]
}

/// Occurrence counts add up over a split of the position range.
pub proof fn lemma_count_split(s: Seq<u8>, pat: Seq<u8>, lo: int, mid: int, hi: int)
    requires
        lo <= mid <= hi,
    ensures
        count_range(s, pat, lo, hi) == count_range(s, pat, lo, mid) + count_range(
            s,
            pat,
            mid,
            hi,
        ),
    decreases hi - mid,
{
    if hi > mid {
        lemma_count_split(s, pat, lo, mid, hi - 1);
    }
}

/// A range without occurrences counts zero.
pub proof fn lemma_count_zero(s: Seq<u8>, pat: Seq<u8>, lo: int, hi: int)
    requires
        forall|i: int| lo <= i < hi ==> !occurs_at(s, pat, i),
    ensures
        count_range(s, pat, lo, hi) == 0,
    decreases hi - lo,
{
    if lo < hi {
        lemma_count_zero(s, pat, lo, hi - 1);
    }
}

/// Two texts with the same occurrences over a range count the same there.
pub proof fn lemma_count_agree(s1: Seq<u8>, s2: Seq<u8>, pat: Seq<u8>, lo: int, hi: int)
    requires
        forall|i: int| lo <= i < hi ==> occurs_at(s1, pat, i) == occurs_at(s2, pat, i),
    ensures
        count_range(s1, pat, lo, hi) == count_range(s2, pat, lo, hi),
    decreases hi - lo,
{
    if lo < hi {
        lemma_count_agree(s1, s2, pat, lo, hi - 1);
    }
}

/// The bytes of an ASCII character sequence, one byte per character.
pub open spec fn ascii_bytes(s: Seq<char>) -> Seq<u8> {
    Seq::new(s.len(), |i: int| s[i] as u8)
}

/// The bytes of an ASCII string slice, for turning literals into patterns.
pub fn lit_bytes(s: &str) -> (r: Vec<u8>)
    requires
        vstd::utf8::is_ascii_chars(s@),
    ensures
        r@ == ascii_bytes(s@),
{
    proof {
        vstd::utf8::is_ascii_chars_encode_utf8(s@);
        assert(vstd::utf8::encode_utf8(s@) =~= ascii_bytes(s@));
    }
    s.as_bytes_vec()
}

/// The decimal digits of `n`, most significant first, as ASCII bytes.
pub open spec fn dec_of(n: nat) -> Seq<u8>
    decreases n,
{
    if n < 10 {
        seq![(48 + n) as u8]
    } else {
        dec_of(n / 10) + seq![(48 + n % 10) as u8]
    }
}

/// Renders `n` in decimal as ASCII bytes.
pub fn to_decimal(n: usize) -> (r: Vec<u8>)
    ensures
        r@ == dec_of(n as nat),
    decreases n,
{
    if n < 10 {
        let mut v: Vec<u8> = Vec::new();
        v.push(48 + (n as u8));
        proof {
            assert(v@ =~= dec_of(n as nat));
        }
        v
    } else {
        let mut v = to_decimal(n / 10);
        v.push(48 + ((n % 10) as u8));
        proof {
            assert(v@ =~= dec_of(n as nat));
        }
        v
    }
}

/// Decodes the escape sequences `\n`, `\r` and `\t` in a separator, each
/// replaced in turn as `str::replace` would, in that order.
pub open spec fn unescape_spec(s: Seq<u8>) -> Seq<u8> {
    replace_spec(
        replace_spec(
            replace_spec(s, ascii_bytes("\\n"@), ascii_bytes("\n"@)),
            ascii_bytes("\\r"@),
            ascii_bytes("\r"@),
        ),
        ascii_bytes("\\t"@),
        ascii_bytes("\t"@),
    )
}

/// Replaces the two-character sequences `\n`, `\r` and `\t` by the newline,
/// carriage-return and tab characters, left to right, in that order.
pub fn unescape(s: &Vec<u8>) -> (r: Vec<u8>)
    ensures
        r@ == unescape_spec(s@),
{
    proof {
        reveal_strlit("\\n");
        reveal_strlit("\n");
        reveal_strlit("\\r");
        reveal_strlit("\r");
        reveal_strlit("\\t");
        reveal_strlit("\t");
    }
    let r1 = replace_all(s, &lit_bytes("\\n"), &lit_bytes("\n"));
    let r2 = replace_all(&r1, &lit_bytes("\\r"), &lit_bytes("\r"));
    let r3 = replace_all(&r2, &lit_bytes("\\t"), &lit_bytes("\t"));
    r3
}

} // verus!
