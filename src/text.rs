//! Byte-string helpers shared by the request, routing and response code.
use vstd::prelude::*;
use vstd::slice::slice_to_vec;
use vstd::string::StringSliceAdditionalSpecFns;

verus! {

/// Whether `suffix` is a suffix of `s`.
pub open spec fn ends_with(s: Seq<u8>, suffix: Seq<u8>) -> bool {
    s.len() >= suffix.len() && s.subrange(s.len() - suffix.len(), s.len() as int) == suffix
}

/// Decimal digits of `n`, most significant first, with no leading zeros.
pub open spec fn decimal(n: nat) -> Seq<u8>
    decreases n,
{
    if n < 10 {
        seq![(n + 48) as u8]
    } else {
        decimal(n / 10).push((n % 10 + 48) as u8)
    }
}

/// The number that a string of decimal digits denotes.
pub open spec fn digits_value(s: Seq<u8>) -> int
    decreases s.len(),
{
    if s.len() == 0 {
        0
    } else {
        digits_value(s.drop_last()) * 10 + (s.last() - 48)
    }
}

/// Whether every byte of `s` is an ASCII digit.
pub open spec fn all_digits(s: Seq<u8>) -> bool {
    forall|i: int| 0 <= i < s.len() ==> 48 <= #[trigger] s[i] <= 57
}

/// Reading back the decimal text of a number gives the number.
pub proof fn lemma_decimal_round_trip(n: nat)
    ensures
        digits_value(decimal(n)) == n,
        all_digits(decimal(n)),
        decimal(n).len() >= 1,
    decreases n,
{
    if n >= 10 {
        lemma_decimal_round_trip(n / 10);
        let d = decimal(n / 10);
        assert(decimal(n).drop_last() == d);
        assert(decimal(n).last() == (n % 10 + 48) as u8);
        assert(n == (n / 10) * 10 + n % 10);
        assert(decimal(n).len() > 0);
        assert(digits_value(decimal(n)) == digits_value(d) * 10 + (decimal(n).last() - 48));
        assert(all_digits(decimal(n))) by {
            assert forall|i: int| 0 <= i < decimal(n).len() implies 48 <= #[trigger] decimal(
                n,
            )[i] <= 57 by {
                if i < d.len() {
                    assert(decimal(n)[i] == d[i]);
                }
            }
        }
    } else {
        assert(decimal(n).drop_last() =~= Seq::<u8>::empty());
        assert(decimal(n).last() == (n + 48) as u8);
        assert(digits_value(decimal(n)) == digits_value(Seq::<u8>::empty()) * 10 + (decimal(n).last() - 48));
    }
}

/// Byte-wise equality of two slices.
pub fn bytes_eq(a: &[u8], b: &[u8]) -> (r: bool)
    ensures
        r == (a@ == b@),
{
    if a.len() != b.len() {
        return false;
    }
    let mut i: usize = 0;
    while i < a.len()
        invariant
            a@.len() == b@.len(),
            i <= a@.len(),
            a@.subrange(0, i as int) == b@.subrange(0, i as int),
        decreases a@.len() - i,
    {
        if a[i] != b[i] {
            assert(a@[i as int] != b@[i as int]);
            return false;
        }
        assert(a@.subrange(0, i + 1) == a@.subrange(0, i as int).push(a@[i as int]));
        assert(b@.subrange(0, i + 1) == b@.subrange(0, i as int).push(b@[i as int]));
        i = i + 1;
    }
    assert(a@ == a@.subrange(0, a@.len() as int));
    assert(b@ == b@.subrange(0, b@.len() as int));
    true
}

/// Whether `s` ends with `suffix`.
pub fn bytes_end_with(s: &[u8], suffix: &[u8]) -> (r: bool)
    ensures
        r == ends_with(s@, suffix@),
{
    if s.len() < suffix.len() {
        return false;
    }
    let start = s.len() - suffix.len();
    let mut i: usize = 0;
    while i < suffix.len()
        invariant
            start + suffix@.len() == s@.len(),
            s@.len() == s.len(),
            i <= suffix@.len(),
            s@.subrange(start as int, start + i) == suffix@.subrange(0, i as int),
        decreases suffix@.len() - i,
    {
        if s[start + i] != suffix[i] {
            assert(s@.subrange(start as int, s@.len() as int)[i as int] != suffix@[i as int]);
            return false;
        }
        assert(s@.subrange(start as int, start + i + 1) == s@.subrange(start as int, start + i).push(
            s@[start + i],
        ));
        assert(suffix@.subrange(0, i + 1) == suffix@.subrange(0, i as int).push(suffix@[i as int]));
        i = i + 1;
    }
    assert(suffix@ == suffix@.subrange(0, suffix@.len() as int));
    true
}

/// The UTF-8 bytes of a string, as an owned vector.
pub fn bytes_of(s: &str) -> (r: Vec<u8>)
    ensures
        r@ == s.spec_bytes(),
{
    slice_to_vec(s.as_bytes())
}

/// Appends the UTF-8 bytes of `s` to `out`.
pub fn push_str(out: &mut Vec<u8>, s: &str)
    ensures
        final(out)@ == old(out)@ + s.spec_bytes(),
{
    let b = s.as_bytes();
    let mut i: usize = 0;
    while i < b.len()
        invariant
            b@ == s.spec_bytes(),
            i <= b@.len(),
            out@ == old(out)@ + b@.subrange(0, i as int),
        decreases b@.len() - i,
    {
        out.push(b[i]);
        assert(b@.subrange(0, i + 1) == b@.subrange(0, i as int).push(b@[i as int]));
        i = i + 1;
    }
    assert(b@ == b@.subrange(0, b@.len() as int));
}

/// Appends the bytes of `s` to `out`.
pub fn push_bytes(out: &mut Vec<u8>, s: &[u8])
    ensures
        final(out)@ == old(out)@ + s@,
{
    let mut i: usize = 0;
    while i < s.len()
        invariant
            i <= s@.len(),
            out@ == old(out)@ + s@.subrange(0, i as int),
        decreases s@.len() - i,
    {
        out.push(s[i]);
        assert(s@.subrange(0, i + 1) == s@.subrange(0, i as int).push(s@[i as int]));
        i = i + 1;
    }
    assert(s@ == s@.subrange(0, s@.len() as int));
}

/// Appends the decimal text of `n` to `out`.
pub fn push_decimal(out: &mut Vec<u8>, n: usize)
    ensures
        final(out)@ == old(out)@ + decimal(n as nat),
    decreases n,
{
    if n >= 10 {
        push_decimal(out, n / 10);
    }
    let d: u8 = (n % 10) as u8 + 48;
    out.push(d);
    assert(out@ == old(out)@ + decimal(n as nat));
}

} // verus!
