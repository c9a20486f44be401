//! Decimal text: reading a signed identifier the way Rust's integer
//! parser does, and writing one back.
use vstd::prelude::*;

verus! {

/// True of an ASCII decimal digit.
pub open spec fn is_digit(b: u8) -> bool {
    48 <= b <= 57
}

/// True when every byte of `s` is a decimal digit.
pub open spec fn all_digits(s: Seq<u8>) -> bool {
    forall|i: int| 0 <= i < s.len() ==> is_digit(#[trigger] s[i])
}

/// The value of a digit string, most significant digit first.
pub open spec fn digits_val(s: Seq<u8>) -> int
    decreases s.len(),
{
    if s.len() == 0 {
        0
    } else {
        digits_val(s.drop_last()) * 10 + (s.last() - 48)
    }
}

/// The digits of a signed decimal text: what follows an optional leading
/// plus or minus sign.
pub open spec fn int_digits(s: Seq<u8>) -> Seq<u8> {
    if s.len() > 0 && (s[0] == 43 || s[0] == 45) {
        s.drop_first()
    } else {
        s
    }
}

/// The value a signed decimal text denotes.
pub open spec fn text_val(s: Seq<u8>) -> int {
    if s.len() > 0 && s[0] == 45 {
        -digits_val(int_digits(s))
    } else {
        digits_val(int_digits(s))
    }
}

/// True of exactly the texts that parse as an `i32`: an optional sign,
/// then one or more digits, denoting a value in range.
pub open spec fn is_i32_text(s: Seq<u8>) -> bool {
    &&& int_digits(s).len() > 0
    &&& all_digits(int_digits(s))
    &&& i32::MIN <= text_val(s) <= i32::MAX
}

/// A digit string has a value of at least zero.
pub proof fn lemma_digits_val_nonneg(s: Seq<u8>)
    requires
        all_digits(s),
    ensures
        digits_val(s) >= 0,
    decreases s.len(),
{
    if s.len() > 0 {
        assert(all_digits(s.drop_last()));
        lemma_digits_val_nonneg(s.drop_last());
    }
}

/// One more digit multiplies the value by ten and adds the digit.
pub proof fn lemma_digits_val_step(s: Seq<u8>, i: int)
    requires
        0 <= i < s.len(),
    ensures
        digits_val(s.take(i + 1)) == digits_val(s.take(i)) * 10 + (s[i] - 48),
{
    assert(s.take(i + 1).drop_last() =~= s.take(i));
    assert(s.take(i + 1).last() == s[i]);
}

/// A digit string is worth at least any of its prefixes.
pub proof fn lemma_digits_val_mono(s: Seq<u8>, i: int)
    requires
        all_digits(s),
        0 <= i <= s.len(),
    ensures
        digits_val(s) >= digits_val(s.take(i)),
    decreases s.len() - i,
{
    if i < s.len() {
        lemma_digits_val_step(s, i);
        assert(all_digits(s.take(i)));
        lemma_digits_val_nonneg(s.take(i));
        lemma_digits_val_mono(s, i + 1);
    } else {
        assert(s.take(i) =~= s);
    }
}

/// Reads a signed decimal text as an `i32`: `Some` exactly on the texts
/// an `i32` parse accepts, with the value they denote.
pub fn parse_i32(s: &[u8]) -> (r: Option<i32>)
    ensures
        is_i32_text(s@) ==> r == Some((text_val(s@)) as i32),
        !is_i32_text(s@) ==> r is None,
{
    let n = s.len();
    let neg: bool;
    let start: usize;
    if n > 0 && (s[0] == 43 || s[0] == 45) {
        neg = s[0] == 45;
        start = 1;
    } else {
        neg = false;
        start = 0;
    }
    let ghost d = int_digits(s@);
    proof {
        assert(d =~= s@.skip(start as int));
    }
    if start >= n {
        proof {
            assert(d.len() == 0);
        }
        return None;
    }
    let mut acc: u64 = 0;
    let mut i: usize = start;
    while i < n
        invariant
            start <= i <= n,
            n == s@.len(),
            start <= 1,
            d == int_digits(s@),
            d == s@.skip(start as int),
            neg <==> (s@.len() > 0 && s@[0] == 45),
            d.len() == n - start,
            forall|j: int| 0 <= j < i - start ==> is_digit(#[trigger] d[j]),
            acc == digits_val(d.take(i - start)),
            acc <= 2147483648,
        decreases n - i,
    {
        let b = s[i];
        proof {
            assert(d[i - start] == s@[i as int]);
        }
        if b < 48 || b > 57 {
            proof {
                assert(!is_digit(d[i - start]));
            }
            return None;
        }
        let digit: u64 = (b - 48) as u64;
        let next: u64 = acc * 10 + digit;
        proof {
            lemma_digits_val_step(d, i - start);
        }
        if next > 2147483648 {
            proof {
                if all_digits(d) {
                    lemma_digits_val_mono(d, i - start + 1);
                    assert(digits_val(d) >= next);
                }
            }
            return None;
        }
        acc = next;
        i = i + 1;
    }
    proof {
        assert(d.take(n - start) =~= d);
        assert(all_digits(d));
        assert(digits_val(d) == acc);
    }
    if neg {
        let v: i64 = -(acc as i64);
        proof {
            assert(s@[0] == 45);
            assert(text_val(s@) == -digits_val(d));
        }
        Some(v as i32)
    } else {
        if acc > 2147483647 {
            proof {
                assert(text_val(s@) == digits_val(d));
                assert(!is_i32_text(s@));
            }
            return None;
        }
        Some(acc as i32)
    }
}

/// The decimal digits of `n`, most significant first, without sign.
pub open spec fn nat_text(n: int) -> Seq<u8>
    decreases n,
{
    if n <= 0 {
        seq![48u8]
    } else if n < 10 {
        seq![(48 + n) as u8]
    } else {
        nat_text(n / 10) + seq![(48 + n % 10) as u8]
    }
}

/// The decimal text of `n`: a minus sign for a negative value, then the
/// digits.
pub open spec fn int_text(n: int) -> Seq<u8> {
    if n < 0 {
        seq![45u8] + nat_text(-n)
    } else {
        nat_text(n)
    }
}

/// The digits of a value are digits, denote that value, and are never
/// empty.
pub proof fn lemma_nat_text(m: int)
    requires
        m >= 0,
    ensures
        all_digits(nat_text(m)),
        digits_val(nat_text(m)) == m,
        nat_text(m).len() >= 1,
    decreases m,
{
    if m >= 10 {
        lemma_nat_text(m / 10);
        vstd::arithmetic::div_mod::lemma_fundamental_div_mod(m, 10);
        let a = nat_text(m / 10);
        let t = nat_text(m);
        assert(t == a + seq![(48 + m % 10) as u8]);
        assert(t.drop_last() =~= a);
        assert(t.last() == (48 + m % 10) as u8);
        assert(digits_val(t) == digits_val(a) * 10 + (m % 10));
        assert forall|i: int| 0 <= i < t.len() implies is_digit(#[trigger] t[i]) by {
            if i < a.len() {
                assert(t[i] == a[i]);
            }
        }
    } else {
        let t = nat_text(m);
        assert(t.drop_last() =~= Seq::<u8>::empty());
        assert(digits_val(t.drop_last()) == 0);
        assert(digits_val(t) == t.last() - 48);
    }
}

/// Writing a value as decimal text and reading it back yields the value:
/// the text is a valid identifier text and denotes the value it was
/// written from.
pub proof fn lemma_int_text_roundtrip(n: int)
    requires
        i32::MIN <= n <= i32::MAX,
    ensures
        is_i32_text(int_text(n)),
        text_val(int_text(n)) == n,
{
    if n < 0 {
        lemma_nat_text(-n);
        let t = int_text(n);
        assert(t[0] == 45);
        assert(t.drop_first() =~= nat_text(-n));
        assert(int_digits(t) == nat_text(-n));
    } else {
        lemma_nat_text(n);
        let t = int_text(n);
        assert(is_digit(t[0]));
        assert(int_digits(t) == t);
    }
}

/// Appends the digits of `n` to `out`.
pub fn push_u64_text(out: &mut Vec<u8>, n: u64)
    ensures
        final(out)@ == old(out)@ + nat_text(n as int),
    decreases n,
{
    if n < 10 {
        out.push((48 + n as u8) as u8);
        proof {
            assert(out@ =~= old(out)@ + nat_text(n as int));
        }
    } else {
        push_u64_text(out, n / 10);
        out.push((48 + (n % 10) as u8) as u8);
        proof {
            assert(out@ =~= old(out)@ + nat_text(n as int));
        }
    }
}

/// Appends the signed decimal text of `n` to `out`.
pub fn push_i32_text(out: &mut Vec<u8>, n: i32)
    ensures
        final(out)@ == old(out)@ + int_text(n as int),
{
    if n < 0 {
        out.push(45);
        let wide: i64 = -(n as i64);
        let ghost mid = out@;
        push_u64_text(out, wide as u64);
        proof {
            assert(out@ =~= old(out)@ + int_text(n as int));
        }
    } else {
        push_u64_text(out, n as u64);
    }
}

} // verus!
