use vstd::prelude::*;

verus! {

/// An ASCII decimal digit.
pub open spec fn is_digit(b: u8) -> bool {
    48 <= b <= 57
}

/// Every byte of `s` is an ASCII decimal digit.
pub open spec fn all_digits(s: Seq<u8>) -> bool {
    forall|i: int| 0 <= i < s.len() ==> is_digit(#[trigger] s[i])
}

/// The number that the digits `s` write, most significant first.
pub open spec fn decimal_value(s: Seq<u8>) -> nat
    decreases s.len(),
{
    if s.len() == 0 {
        0
    } else {
        decimal_value(s.drop_last()) * 10 + (s.last() - 48) as nat
    }
}

/// The shortest decimal writing of `n`, most significant digit first.
pub open spec fn decimal_digits(n: nat) -> Seq<u8>
    decreases n,
{
    if n < 10 {
        seq![(48 + n) as u8]
    } else {
        decimal_digits(n / 10).push((48 + n % 10) as u8)
    }
}

/// Appends the decimal digits of `n` to `out`.
pub fn push_decimal(out: &mut Vec<u8>, n: u32)
    ensures
        final(out)@ == old(out)@ + decimal_digits(n as nat),
    decreases n,
{
    if n >= 10 {
        push_decimal(out, n / 10);
    }
    let d: u8 = (n % 10) as u8;
    out.push(48 + d);
    proof {
        if n >= 10 {
            assert(decimal_digits(n as nat) == decimal_digits((n / 10) as nat).push((48 + n % 10) as u8));
        }
    }
    assert(final(out)@ =~= old(out)@ + decimal_digits(n as nat));
}

/// A prefix of a digit string never writes a larger number than the whole.
pub proof fn lemma_prefix_value_le(s: Seq<u8>, k: int)
    requires
        0 <= k <= s.len(),
    ensures
        decimal_value(s.take(k)) <= decimal_value(s),
    decreases s.len(),
{
    if k < s.len() {
        assert(s.drop_last().take(k) =~= s.take(k));
        lemma_prefix_value_le(s.drop_last(), k);
    } else {
        assert(s.take(k) =~= s);
    }
}

/// The value that `s` writes when it is a non-empty run of digits whose
/// value is at most `limit`.
pub open spec fn bounded_value(s: Seq<u8>, limit: nat) -> Option<nat> {
    if s.len() > 0 && all_digits(s) && decimal_value(s) <= limit {
        Some(decimal_value(s))
    } else {
        None
    }
}

/// Reads `s[lo..hi]` as decimal digits, failing on an empty run, a byte
/// that is no digit, or a value above `limit`.
pub fn parse_digits(s: &[u8], lo: usize, hi: usize, limit: u64) -> (r: Option<u64>)
    requires
        lo <= hi <= s@.len(),
        limit <= u32::MAX,
    ensures
        r matches Some(v) ==> bounded_value(s@.subrange(lo as int, hi as int), limit as nat) == Some(
            v as nat,
        ),
        r is None ==> bounded_value(s@.subrange(lo as int, hi as int), limit as nat) is None,
{
    let ghost whole = s@.subrange(lo as int, hi as int);
    if lo == hi {
        return None;
    }
    let mut v: u64 = 0;
    let mut i: usize = lo;
    while i < hi
        invariant
            lo <= i <= hi <= s@.len(),
            limit <= u32::MAX,
            whole == s@.subrange(lo as int, hi as int),
            all_digits(s@.subrange(lo as int, i as int)),
            v as nat == decimal_value(s@.subrange(lo as int, i as int)),
            v <= limit,
        decreases hi - i,
    {
        let b = s[i];
        if !(48 <= b && b <= 57) {
            assert(whole[i - lo] == b);
            return None;
        }
        let ghost prev = s@.subrange(lo as int, i as int);
        let ghost next = s@.subrange(lo as int, i + 1);
        assert(next.drop_last() =~= prev);
        let nv: u64 = v * 10 + (b - 48) as u64;
        if nv > limit {
            proof {
                assert(whole.take(i + 1 - lo) =~= next);
                if all_digits(whole) {
                    lemma_prefix_value_le(whole, i + 1 - lo);
                }
            }
            return None;
        }
        v = nv;
        i = i + 1;
    }
    assert(s@.subrange(lo as int, i as int) =~= whole);
    Some(v)
}

/// `s` with one leading `+` taken off, if it has one.
pub open spec fn without_plus(s: Seq<u8>) -> Seq<u8> {
    if s.len() > 0 && s[0] == 43 {
        s.skip(1)
    } else {
        s
    }
}

/// An unsigned 16-bit number written in decimal, with an optional `+`.
pub open spec fn u16_of(s: Seq<u8>) -> Option<u16> {
    match bounded_value(without_plus(s), 65535) {
        Some(v) => Some(v as u16),
        None => None,
    }
}

/// A signed 32-bit number written in decimal, with an optional `+` or `-`.
pub open spec fn i32_of(s: Seq<u8>) -> Option<i32> {
    if s.len() > 0 && s[0] == 45 {
        match bounded_value(s.skip(1), 2147483648) {
            Some(v) => Some((-(v as int)) as i32),
            None => None,
        }
    } else {
        match bounded_value(without_plus(s), 2147483647) {
            Some(v) => Some(v as i32),
            None => None,
        }
    }
}

/// Reads `s[lo..hi]` as an unsigned 16-bit decimal number.
pub fn parse_u16(s: &[u8], lo: usize, hi: usize) -> (r: Option<u16>)
    requires
        lo <= hi <= s@.len(),
    ensures
        r == u16_of(s@.subrange(lo as int, hi as int)),
{
    let ghost t = s@.subrange(lo as int, hi as int);
    let mut start = lo;
    if lo < hi && s[lo] == 43 {
        start = lo + 1;
    }
    assert(without_plus(t) =~= s@.subrange(start as int, hi as int));
    match parse_digits(s, start, hi, 65535) {
        Some(v) => Some(v as u16),
        None => None,
    }
}

/// Reads `s[lo..hi]` as a signed 32-bit decimal number.
pub fn parse_i32(s: &[u8], lo: usize, hi: usize) -> (r: Option<i32>)
    requires
        lo <= hi <= s@.len(),
    ensures
        r == i32_of(s@.subrange(lo as int, hi as int)),
{
    let ghost t = s@.subrange(lo as int, hi as int);
    if lo < hi && s[lo] == 45 {
        assert(t.skip(1) =~= s@.subrange(lo + 1, hi as int));
        match parse_digits(s, lo + 1, hi, 2147483648) {
            Some(v) => {
                let n: i64 = 0 - (v as i64);
                Some(n as i32)
            },
            None => None,
        }
    } else {
        let mut start = lo;
        if lo < hi && s[lo] == 43 {
            start = lo + 1;
        }
        assert(without_plus(t) =~= s@.subrange(start as int, hi as int));
        match parse_digits(s, start, hi, 2147483647) {
            Some(v) => Some(v as i32),
            None => None,
        }
    }
}

/// The decimal writing of `n` is a non-empty run of digits whose value is `n`.
pub proof fn lemma_decimal_digits(n: nat)
    ensures
        decimal_digits(n).len() >= 1,
        all_digits(decimal_digits(n)),
        decimal_value(decimal_digits(n)) == n,
    decreases n,
{
    let d = decimal_digits(n);
    if n >= 10 {
        lemma_decimal_digits(n / 10);
        assert(d.drop_last() =~= decimal_digits(n / 10));
        assert(d.last() == (48 + n % 10) as u8);
        assert((n / 10) * 10 + n % 10 == n) by (nonlinear_arith);
        assert(decimal_value(d) == decimal_value(d.drop_last()) * 10 + (d.last() - 48) as nat);
    } else {
        assert(d.drop_last() =~= Seq::<u8>::empty());
        assert(decimal_value(d.drop_last()) == 0);
        assert(decimal_value(d) == decimal_value(d.drop_last()) * 10 + (d.last() - 48) as nat);
    }
}

} // verus!
