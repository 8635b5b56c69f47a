//! Little-endian and decimal byte encoders shared by the packet builders and
//! the text files written by the capture harness.

use vstd::prelude::*;

verus! {

/// Little-endian bytes of a `u32`.
pub open spec fn le32(x: u32) -> Seq<u8> {
    seq![
        (x % 256) as u8,
        ((x / 256) % 256) as u8,
        ((x / 65536) % 256) as u8,
        (x / 16777216) as u8,
    ]
}

/// Little-endian bytes of an `i32` (two's complement).
pub open spec fn le_i32(x: i32) -> Seq<u8> {
    le32(x as u32)
}

/// Decimal digits of `n`, most significant first, without leading zeros.
pub open spec fn decimal(n: nat) -> Seq<u8>
    decreases n,
{
    if n < 10 {
        seq![(48 + n) as u8]
    } else {
        decimal(n / 10).push((48 + n % 10) as u8)
    }
}

/// `s` left-padded with `'0'` up to `width` bytes (kept as is when longer).
pub open spec fn zero_padded(s: Seq<u8>, width: nat) -> Seq<u8> {
    if s.len() >= width {
        s
    } else {
        Seq::new((width - s.len()) as nat, |i: int| 48u8) + s
    }
}

/// Every byte of `s` is ASCII.
pub open spec fn all_ascii(s: Seq<u8>) -> bool {
    forall|i: int| 0 <= i < s.len() ==> s[i] < 128
}

pub proof fn lemma_decimal_ascii(n: nat)
    ensures
        all_ascii(decimal(n)),
        1 <= decimal(n).len(),
    decreases n,
{
    if n >= 10 {
        lemma_decimal_ascii(n / 10);
    }
}

pub open spec fn pow10(k: nat) -> nat
    decreases k,
{
    if k == 0 {
        1
    } else {
        10 * pow10((k - 1) as nat)
    }
}

proof fn lemma_decimal_len_bound(n: nat, k: nat)
    requires
        k >= 1,
        n < pow10(k),
    ensures
        decimal(n).len() <= k,
    decreases n,
{
    if n >= 10 {
        assert(k >= 2) by {
            if k == 1 {
                assert(pow10(1) == 10 * pow10(0));
            }
        }
        let k1 = (k - 1) as nat;
        assert(pow10(k) == 10 * pow10(k1));
        assert(n / 10 < pow10(k1)) by (nonlinear_arith)
            requires
                n < 10 * pow10(k1),
        ;
        lemma_decimal_len_bound(n / 10, k1);
    }
}

/// A 32-bit number has at most ten decimal digits.
pub proof fn lemma_decimal_len(n: nat)
    requires
        n <= 0xFFFF_FFFF,
    ensures
        decimal(n).len() <= 10,
{
    reveal_with_fuel(pow10, 11);
    assert(pow10(10) == 10000000000);
    lemma_decimal_len_bound(n, 10);
}

/// Appends the decimal digits of `n`.
pub fn push_decimal(v: &mut Vec<u8>, n: u64)
    ensures
        final(v)@ == old(v)@ + decimal(n as nat),
    decreases n,
{
    if n >= 10 {
        push_decimal(v, n / 10);
    }
    v.push((48 + n % 10) as u8);
    proof {
        if n >= 10 {
            assert(old(v)@ + decimal(n as nat) =~= old(v)@ + decimal((n / 10) as nat) + seq![
                (48 + n % 10) as u8,
            ]);
        }
    }
}

/// Appends the decimal digits of `n`, left-padded with zeros to `width`.
pub fn push_decimal_padded(v: &mut Vec<u8>, n: u64, width: usize)
    ensures
        final(v)@ == old(v)@ + zero_padded(decimal(n as nat), width as nat),
{
    let mut digits: Vec<u8> = Vec::new();
    push_decimal(&mut digits, n);
    assert(digits@ == decimal(n as nat));
    let mut k: usize = digits.len();
    while k < width
        invariant
            digits@ == decimal(n as nat),
            old(v)@.len() <= v@.len(),
            v@ == old(v)@ + Seq::new((v@.len() - old(v)@.len()) as nat, |i: int| 48u8),
            k == digits@.len() + (v@.len() - old(v)@.len()),
            digits@.len() <= k,
            k <= width || k == digits@.len(),
        decreases width - k,
    {
        v.push(48u8);
        k = k + 1;
        assert(v@ =~= old(v)@ + Seq::new((v@.len() - old(v)@.len()) as nat, |i: int| 48u8));
    }
    let ghost pad = v@;
    let mut j: usize = 0;
    while j < digits.len()
        invariant
            digits@ == decimal(n as nat),
            j <= digits@.len(),
            v@ == pad + digits@.take(j as int),
        decreases digits@.len() - j,
    {
        v.push(digits[j]);
        j = j + 1;
        assert(v@ =~= pad + digits@.take(j as int));
    }
    assert(digits@.take(j as int) =~= digits@);
    assert(v@ =~= old(v)@ + zero_padded(decimal(n as nat), width as nat));
}

/// Appends every byte of `s`.
pub fn push_all(v: &mut Vec<u8>, s: &[u8])
    ensures
        final(v)@ == old(v)@ + s@,
{
    let mut i: usize = 0;
    while i < s.len()
        invariant
            i <= s@.len(),
            v@ == old(v)@ + s@.take(i as int),
        decreases s@.len() - i,
    {
        v.push(s[i]);
        i = i + 1;
        assert(v@ =~= old(v)@ + s@.take(i as int));
    }
    assert(s@.take(i as int) =~= s@);
}

/// Appends the little-endian bytes of a `u16`.
pub fn push_u16(v: &mut Vec<u8>, x: u16)
    ensures
        final(v)@ == old(v)@ + seq![(x % 256) as u8, (x / 256) as u8],
{
    v.push((x % 256) as u8);
    v.push((x / 256) as u8);
}

/// Appends the little-endian bytes of a `u32`.
pub fn push_u32(v: &mut Vec<u8>, x: u32)
    ensures
        final(v)@ == old(v)@ + le32(x),
{
    v.push((x % 256) as u8);
    v.push(((x / 256) % 256) as u8);
    v.push(((x / 65536) % 256) as u8);
    v.push((x / 16777216) as u8);
}

/// Appends the little-endian bytes of an `i32`.
pub fn push_i32(v: &mut Vec<u8>, x: i32)
    ensures
        final(v)@ == old(v)@ + le_i32(x),
{
    push_u32(v, x as u32);
}

} // verus!
