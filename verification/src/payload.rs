//! Little-endian decoders for the raw `Bytes` payloads that carry the numeric
//! argument of a multi-signature operation.

use vstd::prelude::*;
use vstd::arithmetic::div_mod::{lemma_mod_breakdown, lemma_small_mod};
use vstd::bytes::{spec_u64_to_le_bytes, spec_u64_to_le_bytes_to_open};

verus! {

/// The unsigned number whose little-endian bytes are `bytes`.
pub open spec fn le_value(bytes: Seq<u8>) -> nat
    decreases bytes.len(),
{
    if bytes.len() == 0 {
        0
    } else {
        bytes[0] as nat + 256 * le_value(bytes.drop_first())
    }
}

/// `256` raised to the power `n`.
pub open spec fn pow256(n: nat) -> nat
    decreases n,
{
    if n == 0 {
        1
    } else {
        256 * pow256((n - 1) as nat)
    }
}

/// The two's-complement value of sixteen little-endian bytes.
pub open spec fn i128_le_value(bytes: Seq<u8>) -> int {
    let u = le_value(bytes);
    if u >= pow256(15) * 128 {
        u - pow256(16)
    } else {
        u as int
    }
}

/// What `decode_u64` returns: the first eight bytes read as a little-endian
/// `u64`, or an error for a payload shorter than eight bytes.
pub open spec fn spec_decode_u64(payload: Seq<u8>) -> Result<u64, ()> {
    if payload.len() < 8 {
        Err(())
    } else {
        Ok(le_value(payload.take(8)) as u64)
    }
}

/// What `decode_i128` returns: the first sixteen bytes read as a
/// little-endian `i128`, or an error for a payload shorter than sixteen bytes.
pub open spec fn spec_decode_i128(payload: Seq<u8>) -> Result<i128, ()> {
    if payload.len() < 16 {
        Err(())
    } else {
        Ok(i128_le_value(payload.take(16)) as i128)
    }
}

/// A little-endian number of `n` bytes is below `256^n`.
pub proof fn lemma_le_value_bound(bytes: Seq<u8>)
    ensures
        le_value(bytes) < pow256(bytes.len()),
    decreases bytes.len(),
{
    if bytes.len() > 0 {
        lemma_le_value_bound(bytes.drop_first());
        let rest = le_value(bytes.drop_first());
        let p = pow256(bytes.drop_first().len());
        assert(bytes[0] as nat + 256 * rest < 256 * p) by (nonlinear_arith)
            requires
                bytes[0] < 256,
                rest < p,
                rest >= 0,
        ;
    }
}

proof fn lemma_pow256_values()
    ensures
        pow256(8) == 0x1_0000_0000_0000_0000,
        pow256(15) * 128 == 0x8000_0000_0000_0000_0000_0000_0000_0000,
        pow256(16) == 0x1_0000_0000_0000_0000_0000_0000_0000_0000,
{
    reveal_with_fuel(pow256, 17);
}

/// Reads `payload[..n]` as a little-endian unsigned number.
fn read_le(payload: &[u8], n: usize) -> (value: u128)
    requires
        n <= 16,
        n <= payload@.len(),
    ensures
        value == le_value(payload@.take(n as int)),
{
    let mut value: u128 = 0;
    let mut i: usize = n;
    proof {
        lemma_pow256_values();
        assert(payload@.subrange(n as int, n as int) =~= Seq::<u8>::empty());
    }
    while i > 0
        invariant
            i <= n <= 16,
            n <= payload@.len(),
            value == le_value(payload@.subrange(i as int, n as int)),
            pow256(16) == 0x1_0000_0000_0000_0000_0000_0000_0000_0000,
        decreases i,
    {
        let ghost tail = payload@.subrange(i as int, n as int);
        i = i - 1;
        let ghost cur = payload@.subrange(i as int, n as int);
        proof {
            assert(cur.drop_first() =~= tail);
            lemma_le_value_bound(cur);
            lemma_pow256_monotone((n - i) as nat, 16);
        }
        value = value * 256 + payload[i] as u128;
    }
    proof {
        assert(payload@.subrange(0, n as int) =~= payload@.take(n as int));
    }
    value
}

/// `pow256` grows with its exponent.
pub proof fn lemma_pow256_monotone(a: nat, b: nat)
    requires
        a <= b,
    ensures
        pow256(a) <= pow256(b),
    decreases b,
{
    if a < b {
        lemma_pow256_monotone(a, (b - 1) as nat);
    }
}

/// Decodes an 8-byte little-endian `u64`; a payload shorter than eight bytes
/// is rejected with an error.
pub fn decode_u64(payload: &[u8]) -> (result: Result<u64, ()>)
    ensures
        result == spec_decode_u64(payload@),
{
    if payload.len() < 8 {
        return Err(());
    }
    let value = read_le(payload, 8);
    proof {
        lemma_le_value_bound(payload@.take(8));
        lemma_pow256_values();
    }
    Ok(value as u64)
}

/// Decodes a 16-byte little-endian `i128`; a payload shorter than sixteen
/// bytes is rejected with an error.
pub fn decode_i128(payload: &[u8]) -> (result: Result<i128, ()>)
    ensures
        result == spec_decode_i128(payload@),
{
    if payload.len() < 16 {
        return Err(());
    }
    let value = read_le(payload, 16);
    proof {
        lemma_le_value_bound(payload@.take(16));
        lemma_pow256_values();
    }
    if value < 0x8000_0000_0000_0000_0000_0000_0000_0000 {
        Ok(value as i128)
    } else {
        let magnitude: u128 = u128::MAX - value + 1;
        if magnitude == 0x8000_0000_0000_0000_0000_0000_0000_0000 {
            Ok(i128::MIN)
        } else {
            Ok(-(magnitude as i128))
        }
    }
}

/// Bytes past the first eight, or sixteen, do not change what is decoded.
pub proof fn law_decoders_read_prefix(payload: Seq<u8>, extra: Seq<u8>)
    ensures
        payload.len() >= 8 ==> spec_decode_u64(payload + extra) == spec_decode_u64(payload),
        payload.len() >= 16 ==> spec_decode_i128(payload + extra) == spec_decode_i128(payload),
{
    if payload.len() >= 8 {
        assert((payload + extra).take(8) =~= payload.take(8));
    }
    if payload.len() >= 16 {
        assert((payload + extra).take(16) =~= payload.take(16));
    }
}

/// A decoded `u64` is the little-endian number of the first eight bytes
/// exactly, and a decoded `i128` their sixteen-byte two's-complement value
/// exactly: nothing is cut off.
pub proof fn law_decoders_exact(payload: Seq<u8>)
    ensures
        payload.len() >= 8 ==> (spec_decode_u64(payload) matches Ok(v) && v as nat == le_value(
            payload.take(8),
        )),
        payload.len() >= 16 ==> (spec_decode_i128(payload) matches Ok(v) && v as int
            == i128_le_value(payload.take(16))),
{
    lemma_pow256_values();
    if payload.len() >= 8 {
        lemma_le_value_bound(payload.take(8));
    }
    if payload.len() >= 16 {
        lemma_le_value_bound(payload.take(16));
    }
}

/// The `n` little-endian bytes of `x`, modulo `256^n`.
pub open spec fn le_bytes(x: nat, n: nat) -> Seq<u8>
    decreases n,
{
    if n == 0 {
        Seq::empty()
    } else {
        seq![(x % 256) as u8] + le_bytes(x / 256, (n - 1) as nat)
    }
}

/// The bytes of `x.to_le_bytes()` for an `x: u64`.
pub open spec fn u64_le_bytes(x: u64) -> Seq<u8> {
    le_bytes(x as nat, 8)
}

/// The bytes of `x.to_le_bytes()` for an `x: i128`: those of its
/// two's-complement representation.
pub open spec fn i128_le_bytes(x: i128) -> Seq<u8> {
    le_bytes(
        (if x < 0 {
            x + pow256(16)
        } else {
            x as int
        }) as nat,
        16,
    )
}

/// Reading back the `n` little-endian bytes of `x` gives `x` modulo `256^n`.
pub proof fn lemma_le_value_of_le_bytes(x: nat, n: nat)
    ensures
        le_bytes(x, n).len() == n,
        le_value(le_bytes(x, n)) == x % pow256(n),
    decreases n,
{
    if n > 0 {
        let m = (n - 1) as nat;
        lemma_le_value_of_le_bytes(x / 256, m);
        let s = le_bytes(x, n);
        assert(s.drop_first() =~= le_bytes(x / 256, m));
        lemma_pow256_monotone(0, m);
        lemma_mod_breakdown(x as int, 256, pow256(m) as int);
        assert(((x % 256) as u8) as nat == x % 256);
    }
}

/// `u64_le_bytes` agrees with vstd's little-endian encoding of a `u64`.
pub proof fn law_u64_le_bytes_is_vstd_encoding(x: u64)
    ensures
        u64_le_bytes(x) == spec_u64_to_le_bytes(x),
{
    spec_u64_to_le_bytes_to_open(x);
    reveal_with_fuel(le_bytes, 9);
    assert(x & 0xff == x % 256) by (bit_vector);
    assert((x >> 8) & 0xff == (x / 256) % 256) by (bit_vector);
    assert((x >> 16) & 0xff == (x / 256 / 256) % 256) by (bit_vector);
    assert((x >> 24) & 0xff == (x / 256 / 256 / 256) % 256) by (bit_vector);
    assert((x >> 32) & 0xff == (x / 256 / 256 / 256 / 256) % 256) by (bit_vector);
    assert((x >> 40) & 0xff == (x / 256 / 256 / 256 / 256 / 256) % 256) by (bit_vector);
    assert((x >> 48) & 0xff == (x / 256 / 256 / 256 / 256 / 256 / 256) % 256) by (bit_vector);
    assert((x >> 56) & 0xff == (x / 256 / 256 / 256 / 256 / 256 / 256 / 256) % 256) by (bit_vector);
    assert(u64_le_bytes(x) =~= spec_u64_to_le_bytes(x));
}

/// Decoding inverts `to_le_bytes` for a `u64`, whatever bytes follow.
pub proof fn law_decode_u64_inverts_to_le_bytes(x: u64, tail: Seq<u8>)
    ensures
        spec_decode_u64(u64_le_bytes(x) + tail) == Ok::<u64, ()>(x),
{
    let bytes = u64_le_bytes(x);
    lemma_le_value_of_le_bytes(x as nat, 8);
    lemma_pow256_values();
    lemma_small_mod(x as nat, pow256(8));
    law_decoders_read_prefix(bytes, tail);
    assert(bytes.take(8) =~= bytes);
}

/// Decoding inverts `to_le_bytes` for an `i128`, whatever bytes follow.
pub proof fn law_decode_i128_inverts_to_le_bytes(x: i128, tail: Seq<u8>)
    ensures
        spec_decode_i128(i128_le_bytes(x) + tail) == Ok::<i128, ()>(x),
{
    let bytes = i128_le_bytes(x);
    lemma_pow256_values();
    let u: nat = (if x < 0 {
        x + pow256(16)
    } else {
        x as int
    }) as nat;
    lemma_le_value_of_le_bytes(u, 16);
    lemma_small_mod(u, pow256(16));
    law_decoders_read_prefix(bytes, tail);
    assert(bytes.take(16) =~= bytes);
}

} // verus!
