//! Byte-sequence basics: the bridge from ASCII string literals to the
//! byte plane the service works on, appending, and substring occurrence.
use vstd::prelude::*;
use vstd::string::StrSliceExecFns;
use vstd::string::StringSliceAdditionalSpecFns;

verus! {

/// The bytes of an ASCII character sequence, one byte per character.
pub open spec fn ascii(s: Seq<char>) -> Seq<u8> {
    Seq::new(s.len(), |i: int| s[i] as u8)
}

/// Copies an ASCII string into a byte vector holding exactly its characters.
pub fn str_bytes(s: &str) -> (r: Vec<u8>)
    requires
        s.is_ascii(),
    ensures
        r@ == ascii(s@),
{
    broadcast use vstd::string::is_ascii_spec_bytes;

    let r = s.as_bytes_vec();
    proof {
        assert(r@ =~= ascii(s@));
    }
    r
}

/// Appends the bytes of an ASCII string to a byte vector.
pub fn push_str_bytes(v: &mut Vec<u8>, s: &str)
    requires
        s.is_ascii(),
    ensures
        final(v)@ == old(v)@ + ascii(s@),
{
    broadcast use vstd::string::is_ascii_spec_bytes;

    let b = s.as_bytes();
    let mut i: usize = 0;
    while i < b.len()
        invariant
            s.is_ascii(),
            b@ == s.spec_bytes(),
            b@.len() == s@.len(),
            i <= b@.len(),
            v@ == old(v)@ + ascii(s@).take(i as int),
        decreases b@.len() - i,
    {
        v.push(b[i]);
        i = i + 1;
        proof {
            assert(v@ =~= old(v)@ + ascii(s@).take(i as int));
        }
    }
    proof {
        assert(v@ =~= old(v)@ + ascii(s@));
    }
}

/// True when `pat` stands at position `i` of `s`.
pub open spec fn match_at(s: Seq<u8>, pat: Seq<u8>, i: int) -> bool {
    0 <= i && i + pat.len() <= s.len() && s.subrange(i, i + pat.len()) == pat
}

/// True when `pat` occurs somewhere in `s`.
pub open spec fn contains_bytes(s: Seq<u8>, pat: Seq<u8>) -> bool {
    exists|i: int| match_at(s, pat, i)
}

/// Appends a byte slice to a byte vector.
pub fn push_bytes(v: &mut Vec<u8>, s: &[u8])
    ensures
        final(v)@ == old(v)@ + s@,
{
    let n = s.len();
    let mut i: usize = 0;
    while i < n
        invariant
            i <= n,
            n == s@.len(),
            v@ == old(v)@ + s@.take(i as int),
        decreases n - i,
    {
        v.push(s[i]);
        i = i + 1;
        proof {
            assert(v@ =~= old(v)@ + s@.take(i as int));
        }
    }
    proof {
        assert(v@ =~= old(v)@ + s@);
    }
}

} // verus!
