//! Byte encodings of integers: fixed-width two's complement in little- and
//! big-endian order, and unsigned LEB128.
use vstd::prelude::*;

verus! {

/// `256^n`.
pub open spec fn pow256(n: nat) -> nat
    decreases n,
{
    if n == 0 {
        1
    } else {
        256 * pow256((n - 1) as nat)
    }
}

/// The `n`-byte two's complement pattern of `v`, as a natural number.
pub open spec fn twos(v: int, n: nat) -> int {
    if v < 0 {
        v + pow256(n)
    } else {
        v
    }
}

/// The low `n` bytes of the natural number `u`, least significant first.
pub open spec fn le_bytes_u(u: int, n: nat) -> Seq<u8>
    decreases n,
{
    if n == 0 {
        Seq::empty()
    } else {
        seq![(u % 256) as u8] + le_bytes_u(u / 256, (n - 1) as nat)
    }
}

/// The `n`-byte little-endian two's complement encoding of `v`.
pub open spec fn le_bytes(v: int, n: nat) -> Seq<u8> {
    le_bytes_u(twos(v, n), n)
}

/// The `n`-byte big-endian two's complement encoding of `v`.
pub open spec fn be_bytes(v: int, n: nat) -> Seq<u8> {
    le_bytes(v, n).reverse()
}

/// Value of little-endian bytes.
pub open spec fn le_value(s: Seq<u8>) -> int
    decreases s.len(),
{
    if s.len() == 0 {
        0
    } else {
        s[0] + 256 * le_value(s.drop_first())
    }
}

/// The signed value of `n` little-endian bytes in two's complement.
pub open spec fn le_signed_value(s: Seq<u8>) -> int {
    let u = le_value(s);
    if u >= pow256(s.len()) / 2 {
        u - pow256(s.len())
    } else {
        u
    }
}

/// Unsigned LEB128 encoding of `v`: seven bits per byte, least significant
/// group first, the high bit set on every byte but the last.
pub open spec fn leb128(v: nat) -> Seq<u8>
    decreases v,
{
    if v < 128 {
        seq![v as u8]
    } else {
        seq![(v % 128 + 128) as u8] + leb128(v / 128)
    }
}

/// Value of LEB128 bytes: each byte contributes its low seven bits.
pub open spec fn leb128_value(s: Seq<u8>) -> int
    decreases s.len(),
{
    if s.len() == 0 {
        0
    } else {
        (s[0] % 128) + 128 * leb128_value(s.drop_first())
    }
}

/// The low `n` bytes of `u`, least significant first.
pub fn le_bytes_of(u: u128, n: usize) -> (r: Vec<u8>)
    ensures
        r@ == le_bytes_u(u as int, n as nat),
        r@.len() == n,
{
    let mut out: Vec<u8> = Vec::new();
    let mut cur: u128 = u;
    let mut k: usize = 0;
    while k < n
        invariant
            k <= n,
            out@.len() == k,
            out@ + le_bytes_u(cur as int, (n - k) as nat) == le_bytes_u(u as int, n as nat),
        decreases n - k,
    {
        let b = (cur % 256) as u8;
        let ghost old_cur = cur;
        let ghost old_out = out@;
        out.push(b);
        cur = cur / 256;
        k = k + 1;
        proof {
            assert(le_bytes_u(old_cur as int, (n - k + 1) as nat) == seq![b] + le_bytes_u(
                cur as int,
                (n - k) as nat,
            ));
            assert(old_out + (seq![b] + le_bytes_u(cur as int, (n - k) as nat)) =~= out@
                + le_bytes_u(cur as int, (n - k) as nat));
        }
    }
    assert(out@ + le_bytes_u(cur as int, 0) =~= out@);
    out
}

/// The low `n` bytes of `u`, most significant first.
pub fn be_bytes_of(u: u128, n: usize) -> (r: Vec<u8>)
    ensures
        r@ == le_bytes_u(u as int, n as nat).reverse(),
        r@.len() == n,
{
    let le = le_bytes_of(u, n);
    let mut out: Vec<u8> = Vec::new();
    let mut k: usize = n;
    while k > 0
        invariant
            k <= n,
            le@.len() == n,
            out@ == le@.subrange(k as int, n as int).reverse(),
        decreases k,
    {
        k = k - 1;
        out.push(le[k]);
        assert(out@ =~= le@.subrange(k as int, n as int).reverse());
    }
    assert(le@.subrange(0, n as int) =~= le@);
    out
}

/// `n`-byte big-endian two's complement bytes of `v`, for `v` that fits.
pub fn signed_be(v: i64, n: usize) -> (r: Vec<u8>)
    requires
        1 <= n <= 4,
        -(pow256(n as nat) / 2) <= v < pow256(n as nat) / 2,
    ensures
        r@ == be_bytes(v as int, n as nat),
{
    proof {
        lemma_pow256_values();
        reveal_with_fuel(pow256, 5);
    }
    let p: i128 = if n == 1 {
        256
    } else if n == 2 {
        65536
    } else if n == 3 {
        16777216
    } else {
        4294967296
    };
    assert(p == pow256(n as nat));
    let u: u128 = if v < 0 {
        (v as i128 + p) as u128
    } else {
        v as u128
    };
    be_bytes_of(u, n)
}

pub proof fn lemma_pow256_values()
    ensures
        pow256(1) == 256,
        pow256(2) == 65536,
        pow256(4) == 4294967296,
        pow256(8) == 18446744073709551616,
{
    reveal_with_fuel(pow256, 9);
}

/// Little-endian two's complement bytes of a 32-bit value.
pub fn i32_le(v: i32) -> (r: Vec<u8>)
    ensures
        r@ == le_bytes(v as int, 4),
{
    proof {
        lemma_pow256_values();
    }
    let u: u128 = if v < 0 {
        (v as i128 + 4294967296i128) as u128
    } else {
        v as u128
    };
    le_bytes_of(u, 4)
}

/// Little-endian two's complement bytes of a 64-bit value.
pub fn i64_le(v: i64) -> (r: Vec<u8>)
    ensures
        r@ == le_bytes(v as int, 8),
{
    proof {
        lemma_pow256_values();
    }
    let u: u128 = if v < 0 {
        (v as i128 + 18446744073709551616i128) as u128
    } else {
        v as u128
    };
    le_bytes_of(u, 8)
}

/// Little-endian bytes of an unsigned 32-bit pattern.
pub fn u32_le(v: u32) -> (r: Vec<u8>)
    ensures
        r@ == le_bytes_u(v as int, 4),
{
    le_bytes_of(v as u128, 4)
}

/// Little-endian bytes of an unsigned 64-bit pattern.
pub fn u64_le(v: u64) -> (r: Vec<u8>)
    ensures
        r@ == le_bytes_u(v as int, 8),
{
    le_bytes_of(v as u128, 8)
}

/// Unsigned LEB128 encoding of a 32-bit value.
pub fn encode_leb128_u32(value: u32) -> (r: Vec<u8>)
    ensures
        r@ == leb128(value as nat),
{
    let mut result: Vec<u8> = Vec::new();
    let mut v: u32 = value;
    loop
        invariant
            result@ + leb128(v as nat) == leb128(value as nat),
        decreases v,
    {
        let low: u32 = v & 0x7F;
        assert(low == v % 128) by (bit_vector)
            requires
                low == v & 0x7F,
        ;
        let rest: u32 = v >> 7;
        assert(rest == v / 128) by (bit_vector)
            requires
                rest == v >> 7,
        ;
        let mut byte: u8 = low as u8;
        if rest != 0 {
            byte = byte | 0x80;
            assert(byte == low + 128) by (bit_vector)
                requires
                    byte == (low as u8) | 0x80,
                    low < 128,
            ;
        }
        let ghost old_result = result@;
        let ghost old_v = v;
        result.push(byte);
        v = rest;
        if v == 0 {
            assert(old_v < 128);
            assert(result@ =~= old_result + leb128(old_v as nat));
            return result;
        }
        assert(old_v >= 128);
        assert(result@ + leb128(v as nat) =~= old_result + leb128(old_v as nat));
    }
}

/// Reading back the LEB128 encoding of a value gives the value, and every
/// byte but the last has its high bit set.
/// 128 to the power `k`.
pub open spec fn pow128(k: nat) -> nat
    decreases k,
{
    if k == 0 {
        1
    } else {
        128 * pow128((k - 1) as nat)
    }
}

proof fn lemma_pow128_ge(k: nat)
    requires
        k >= 1,
    ensures
        pow128(k) >= 128,
    decreases k,
{
    reveal_with_fuel(pow128, 2);
    if k > 1 {
        lemma_pow128_ge((k - 1) as nat);
        let p = pow128((k - 1) as nat);
        assert(128 * p >= 128) by (nonlinear_arith)
            requires
                p >= 128,
        ;
    }
}

/// The LEB128 encoding of `v` takes at most `k` bytes exactly when `v` is
/// below 128^k: one byte per started group of seven bits.
pub proof fn lemma_leb128_length(v: nat, k: nat)
    requires
        k >= 1,
    ensures
        leb128(v).len() <= k <==> v < pow128(k),
    decreases k,
{
    lemma_leb128_roundtrip(v);
    lemma_pow128_ge(k);
    reveal_with_fuel(pow128, 2);
    if v >= 128 {
        let s = leb128(v);
        assert(s.len() == 1 + leb128(v / 128).len());
        lemma_leb128_roundtrip(v / 128);
        if k > 1 {
            lemma_leb128_length(v / 128, (k - 1) as nat);
            let p = pow128((k - 1) as nat);
            assert(v / 128 < p <==> v < 128 * p) by (nonlinear_arith)
                requires
                    v >= 0,
                    p >= 0,
            ;
        }
    }
}

/// A `u32` takes at most five bytes of LEB128.
pub proof fn lemma_leb128_u32_length(v: u32)
    ensures
        1 <= leb128(v as nat).len() <= 5,
{
    lemma_leb128_roundtrip(v as nat);
    reveal_with_fuel(pow128, 6);
    assert(pow128(5) == 34359738368);
    lemma_leb128_length(v as nat, 5);
}

pub proof fn lemma_leb128_roundtrip(v: nat)
    ensures
        leb128_value(leb128(v)) == v,
        leb128(v).len() > 0,
        leb128(v).last() < 128,
        forall|i: int| 0 <= i < leb128(v).len() - 1 ==> #[trigger] leb128(v)[i] >= 128,
    decreases v,
{
    let s = leb128(v);
    if v < 128 {
        assert(s.drop_first() =~= Seq::<u8>::empty());
        assert(leb128_value(s.drop_first()) == 0);
    } else {
        lemma_leb128_roundtrip(v / 128);
        assert(s.drop_first() =~= leb128(v / 128));
        assert(v == (v / 128) * 128 + v % 128) by (nonlinear_arith);
        assert forall|i: int| 0 <= i < s.len() - 1 implies #[trigger] s[i] >= 128 by {
            if i > 0 {
                assert(s[i] == leb128(v / 128)[i - 1]);
            }
        }
    }
}

/// Reading back the little-endian bytes of an `n`-byte pattern gives the pattern.
pub proof fn lemma_le_bytes_roundtrip(u: int, n: nat)
    requires
        0 <= u < pow256(n),
    ensures
        le_value(le_bytes_u(u, n)) == u,
        le_bytes_u(u, n).len() == n,
    decreases n,
{
    if n > 0 {
        assert(pow256(n) == 256 * pow256((n - 1) as nat));
        assert(u / 256 < pow256((n - 1) as nat)) by (nonlinear_arith)
            requires
                0 <= u < 256 * pow256((n - 1) as nat),
        ;
        lemma_le_bytes_roundtrip(u / 256, (n - 1) as nat);
        let s = le_bytes_u(u, n);
        assert(s.drop_first() =~= le_bytes_u(u / 256, (n - 1) as nat));
        assert(u == (u / 256) * 256 + u % 256) by (nonlinear_arith);
    } else {
        assert(le_bytes_u(u, n) =~= Seq::<u8>::empty());
    }
}

/// Reading back the two's complement bytes of a value in range gives the value.
pub proof fn lemma_le_bytes_signed_roundtrip(v: int, n: nat)
    requires
        n > 0,
        -(pow256(n) / 2) <= v < pow256(n) / 2,
    ensures
        le_signed_value(le_bytes(v, n)) == v,
        le_bytes(v, n).len() == n,
{
    assert(pow256(n) == 256 * pow256((n - 1) as nat));
    assert(pow256((n - 1) as nat) >= 1) by {
        lemma_pow256_pos((n - 1) as nat);
    }
    lemma_le_bytes_roundtrip(twos(v, n), n);
}

proof fn lemma_pow256_pos(n: nat)
    ensures
        pow256(n) >= 1,
    decreases n,
{
    if n > 0 {
        lemma_pow256_pos((n - 1) as nat);
    }
}

} // verus!
