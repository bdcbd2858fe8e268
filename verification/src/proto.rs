//! Primitives of the binary exposition wire format: base-128 varints,
//! little-endian 64-bit scalars, tagged and length-delimited fields, and the
//! bit pattern of a 64-bit IEEE 754 float holding an integer value.
//!
//! Every writer appends to a byte buffer exactly the sequence its spec
//! function describes.

use vstd::arithmetic::power2::pow2;
use vstd::prelude::*;
use vstd::utf8::encode_utf8;

verus! {

/// The base-128 varint encoding of `n`: seven value bits per byte, least
/// significant group first, high bit set on every byte but the last.
pub open spec fn spec_varint(n: nat) -> Seq<u8>
    decreases n,
{
    if n < 128 {
        seq![n as u8]
    } else {
        seq![(128 + n % 128) as u8] + spec_varint(n / 128)
    }
}

/// The key of a field: its number and wire type packed into one varint.
pub open spec fn spec_key(field: nat, wire: nat) -> Seq<u8>
    recommends
        wire < 8,
{
    spec_varint(field * 8 + wire)
}

/// The `count` low bytes of `n`, least significant first.
pub open spec fn spec_le_bytes(n: nat, count: nat) -> Seq<u8>
    decreases count,
{
    if count == 0 {
        Seq::empty()
    } else {
        seq![(n % 256) as u8] + spec_le_bytes(n / 256, (count - 1) as nat)
    }
}

/// A length-delimited field: key, payload length, payload.
pub open spec fn spec_len_delimited(field: nat, payload: Seq<u8>) -> Seq<u8> {
    spec_key(field, 2) + spec_varint(payload.len()) + payload
}

/// A varint-valued field: key, value.
pub open spec fn spec_varint_field(field: nat, n: nat) -> Seq<u8> {
    spec_key(field, 0) + spec_varint(n)
}

/// A double-valued field: key, then the eight bytes of the bit pattern.
pub open spec fn spec_double_field(field: nat, bits: u64) -> Seq<u8> {
    spec_key(field, 1) + spec_le_bytes(bits as nat, 8)
}

/// A string field: the UTF-8 bytes of `s`, length delimited.
pub open spec fn spec_string_field(field: nat, s: Seq<char>) -> Seq<u8> {
    spec_len_delimited(field, encode_utf8(s))
}

/// Appends the varint encoding of `n`.
pub fn write_varint(out: &mut Vec<u8>, n: u64)
    ensures
        final(out)@ == old(out)@ + spec_varint(n as nat),
    decreases n,
{
    if n < 128 {
        out.push(n as u8);
        proof {
            assert(out@ =~= old(out)@ + spec_varint(n as nat));
        }
    } else {
        out.push((128 + n % 128) as u8);
        write_varint(out, n / 128);
        proof {
            assert(out@ =~= old(out)@ + spec_varint(n as nat));
        }
    }
}

/// Appends the key of a field.
pub fn write_key(out: &mut Vec<u8>, field: u64, wire: u64)
    requires
        wire < 8,
        field <= 0xFFFF,
    ensures
        final(out)@ == old(out)@ + spec_key(field as nat, wire as nat),
{
    write_varint(out, field * 8 + wire);
}

/// Appends the `count` low bytes of `n`, least significant first.
pub fn write_le_bytes(out: &mut Vec<u8>, n: u64, count: u64)
    ensures
        final(out)@ == old(out)@ + spec_le_bytes(n as nat, count as nat),
    decreases count,
{
    if count > 0 {
        out.push((n % 256) as u8);
        write_le_bytes(out, n / 256, count - 1);
    }
    proof {
        assert(out@ =~= old(out)@ + spec_le_bytes(n as nat, count as nat));
    }
}

/// Appends every byte of `payload`.
pub fn write_bytes(out: &mut Vec<u8>, payload: &Vec<u8>)
    ensures
        final(out)@ == old(out)@ + payload@,
{
    let n = payload.len();
    let mut k: usize = 0;
    while k < n
        invariant
            n == payload@.len(),
            k <= n,
            out@ == old(out)@ + payload@.take(k as int),
        decreases n - k,
    {
        out.push(payload[k]);
        proof {
            assert(payload@.take(k as int).push(payload@[k as int]) =~= payload@.take(
                k as int + 1,
            ));
        }
        k = k + 1;
    }
    proof {
        assert(payload@.take(n as int) =~= payload@);
    }
}

/// Appends a length-delimited field holding `payload`.
pub fn write_bytes_field(out: &mut Vec<u8>, field: u64, payload: &Vec<u8>)
    requires
        field <= 0xFFFF,
    ensures
        final(out)@ == old(out)@ + spec_len_delimited(field as nat, payload@),
{
    write_key(out, field, 2);
    write_varint(out, payload.len() as u64);
    write_bytes(out, payload);
    proof {
        assert(out@ =~= old(out)@ + spec_len_delimited(field as nat, payload@));
    }
}

/// Appends a string field holding the UTF-8 bytes of `s`.
pub fn write_string_field(out: &mut Vec<u8>, field: u64, s: &str)
    requires
        field <= 0xFFFF,
    ensures
        final(out)@ == old(out)@ + spec_string_field(field as nat, s@),
{
    let bytes: Vec<u8> = s.as_bytes_vec();
    write_key(out, field, 2);
    write_varint(out, bytes.len() as u64);
    write_bytes(out, &bytes);
    proof {
        assert(out@ =~= old(out)@ + spec_string_field(field as nat, s@));
    }
}

/// Appends a varint field holding `n`.
pub fn write_varint_field(out: &mut Vec<u8>, field: u64, n: u64)
    requires
        field <= 0xFFFF,
    ensures
        final(out)@ == old(out)@ + spec_varint_field(field as nat, n as nat),
{
    write_key(out, field, 0);
    write_varint(out, n);
    proof {
        assert(out@ =~= old(out)@ + spec_varint_field(field as nat, n as nat));
    }
}

/// Appends a double field holding the bit pattern `bits`.
pub fn write_double_field(out: &mut Vec<u8>, field: u64, bits: u64)
    requires
        field <= 0xFFFF,
    ensures
        final(out)@ == old(out)@ + spec_double_field(field as nat, bits),
{
    write_key(out, field, 1);
    write_le_bytes(out, bits, 8);
    proof {
        assert(out@ =~= old(out)@ + spec_double_field(field as nat, bits));
    }
}

/// The position of the highest set bit of `n`; zero for zero and one.
pub open spec fn spec_msb(n: nat) -> nat
    decreases n,
{
    if n < 2 {
        0
    } else {
        1 + spec_msb(n / 2)
    }
}

/// The highest set bit brackets its number between two powers of two.
pub proof fn lemma_msb_brackets(n: nat)
    requires
        1 <= n,
    ensures
        pow2(spec_msb(n)) <= n < pow2(spec_msb(n) + 1),
    decreases n,
{
    vstd::arithmetic::power2::lemma_pow2_unfold(spec_msb(n) + 1);
    if n < 2 {
        vstd::arithmetic::power2::lemma2_to64();
    } else {
        lemma_msb_brackets(n / 2);
        vstd::arithmetic::power2::lemma_pow2_unfold(spec_msb(n));
    }
}

/// The bit pattern of the 64-bit IEEE 754 float nearest to `n`, ties going
/// to an even mantissa: sign zero, biased exponent from the highest set
/// bit, and the 52 mantissa bits below it, rounded when `n` needs more.
pub open spec fn spec_f64_bits_of_u64(n: nat) -> nat
    recommends
        n <= u64::MAX,
{
    if n == 0 {
        0
    } else {
        let k = spec_msb(n);
        if k <= 52 {
            (1023 + k) * pow2(52) + ((n - pow2(k)) as nat) * pow2((52 - k) as nat)
        } else {
            let shift = (k - 52) as nat;
            let q = n / pow2(shift);
            let r = n % pow2(shift);
            let rounded = if 2 * r > pow2(shift) || (2 * r == pow2(shift) && q % 2 == 1) {
                q + 1
            } else {
                q
            };
            if rounded == pow2(53) {
                (1024 + k) * pow2(52)
            } else {
                (1023 + k) * pow2(52) + ((rounded - pow2(52)) as nat)
            }
        }
    }
}

/// The bit pattern of the 64-bit IEEE 754 float nearest to the signed `n`:
/// the magnitude's pattern with the sign bit set when `n` is negative.
pub open spec fn spec_f64_bits_of_i64(n: int) -> nat
    recommends
        i64::MIN <= n <= i64::MAX,
{
    if n >= 0 {
        spec_f64_bits_of_u64(n as nat)
    } else {
        pow2(63) + spec_f64_bits_of_u64((-n) as nat)
    }
}

/// Returns `2^e`.
pub fn pow2_u64(e: u64) -> (r: u64)
    requires
        e <= 63,
    ensures
        r == pow2(e as nat),
{
    let mut r: u64 = 1;
    let mut k: u64 = 0;
    proof {
        vstd::arithmetic::power2::lemma2_to64();
    }
    while k < e
        invariant
            k <= e <= 63,
            r == pow2(k as nat),
        decreases e - k,
    {
        proof {
            vstd::arithmetic::power2::lemma_pow2_unfold(k as nat + 1);
            vstd::arithmetic::power2::lemma2_to64_rest();
            if k as nat + 1 < 63 {
                vstd::arithmetic::power2::lemma_pow2_strictly_increases(k as nat + 1, 63);
            }
        }
        r = r * 2;
        k = k + 1;
    }
    r
}

/// A 64-bit number's highest set bit is at most bit 63.
pub proof fn lemma_msb_bounded(n: u64)
    requires
        1 <= n,
    ensures
        spec_msb(n as nat) <= 63,
{
    lemma_msb_brackets(n as nat);
    if spec_msb(n as nat) > 63 {
        vstd::arithmetic::power2::lemma2_to64_rest();
        if spec_msb(n as nat) > 64 {
            vstd::arithmetic::power2::lemma_pow2_strictly_increases(64, spec_msb(n as nat));
        }
        assert(false);
    }
}

/// Returns the position of the highest set bit of `n`.
pub fn msb_u64(n: u64) -> (r: u64)
    requires
        1 <= n,
    ensures
        r == spec_msb(n as nat),
        r <= 63,
{
    proof {
        lemma_msb_bounded(n);
    }
    let mut m: u64 = n;
    let mut k: u64 = 0;
    while m >= 2
        invariant
            1 <= m,
            spec_msb(n as nat) == k + spec_msb(m as nat),
            k <= spec_msb(n as nat) <= 63,
        decreases m,
    {
        m = m / 2;
        k = k + 1;
    }
    k
}

/// In the rounding case, the quotient keeps 53 significant bits.
pub proof fn lemma_f64_quotient_bracket(n: u64)
    requires
        spec_msb(n as nat) > 52,
    ensures
        pow2(52) <= (n as nat) / pow2((spec_msb(n as nat) - 52) as nat) < pow2(53),
{
    let k = spec_msb(n as nat);
    let shift = (k - 52) as nat;
    lemma_msb_brackets(n as nat);
    lemma_msb_bounded(n);
    vstd::arithmetic::power2::lemma_pow2_pos(shift);
    vstd::arithmetic::power2::lemma_pow2_adds(53, shift);
    vstd::arithmetic::power2::lemma_pow2_adds(52, shift);
    assert((n as nat) / pow2(shift) < pow2(53)) by (nonlinear_arith)
        requires
            (n as nat) < pow2(53) * pow2(shift),
            pow2(shift) > 0,
    ;
    assert(pow2(52) <= (n as nat) / pow2(shift)) by (nonlinear_arith)
        requires
            pow2(52) * pow2(shift) <= (n as nat),
            pow2(shift) > 0,
    ;
}

/// Every such bit pattern leaves the sign bit clear.
pub proof fn lemma_f64_bits_below_sign(n: u64)
    ensures
        spec_f64_bits_of_u64(n as nat) < pow2(63),
{
    vstd::arithmetic::power2::lemma2_to64_rest();
    vstd::arithmetic::power2::lemma2_to64();
    vstd::arithmetic::power2::lemma_pow2_adds(11, 52);
    assert(2048 * pow2(52) == pow2(63));
    if n != 0 {
        let k = spec_msb(n as nat);
        lemma_msb_brackets(n as nat);
        lemma_msb_bounded(n);
        if k <= 52 {
            let low = ((n - pow2(k)) as nat);
            let mant = low * pow2((52 - k) as nat);
            assert(mant < pow2(52)) by {
                assert(low * pow2((52 - k) as nat) < pow2(k) * pow2((52 - k) as nat))
                    by (nonlinear_arith)
                    requires
                        low < pow2(k),
                        pow2((52 - k) as nat) > 0,
                ;
                vstd::arithmetic::power2::lemma_pow2_adds(k, (52 - k) as nat);
            }
            assert((1023 + k) * pow2(52) + mant < 2048 * pow2(52)) by (nonlinear_arith)
                requires
                    k <= 52,
                    mant < pow2(52),
                    pow2(52) > 0,
            ;
        } else {
            let shift = (k - 52) as nat;
            let q = (n as nat) / pow2(shift);
            lemma_f64_quotient_bracket(n);
            let r = (n as nat) % pow2(shift);
            let rounded = if 2 * r > pow2(shift) || (2 * r == pow2(shift) && q % 2 == 1) {
                q + 1
            } else {
                q
            };
            assert(rounded <= pow2(53));
            if rounded == pow2(53) {
                assert((1024 + k) * pow2(52) < 2048 * pow2(52)) by (nonlinear_arith)
                    requires
                        k <= 63,
                        pow2(52) > 0,
                ;
            } else {
                let mant = ((rounded - pow2(52)) as nat);
                assert(mant < pow2(52)) by {
                    vstd::arithmetic::power2::lemma_pow2_unfold(53);
                }
                assert((1023 + k) * pow2(52) + mant < 2048 * pow2(52)) by (nonlinear_arith)
                    requires
                        k <= 63,
                        mant < pow2(52),
                        pow2(52) > 0,
                ;
            }
        }
    }
}

/// Returns the IEEE 754 bit pattern of the float nearest to `n`.
pub fn f64_bits_from_u64(n: u64) -> (bits: u64)
    ensures
        bits == spec_f64_bits_of_u64(n as nat),
{
    if n == 0 {
        return 0;
    }
    proof {
        vstd::arithmetic::power2::lemma2_to64();
        vstd::arithmetic::power2::lemma2_to64_rest();
        lemma_msb_brackets(n as nat);
        lemma_f64_bits_below_sign(n);
    }
    let k = msb_u64(n);
    if k <= 52 {
        let low = n - pow2_u64(k);
        proof {
            assert(low * pow2((52 - k) as nat) < pow2(52)) by {
                assert(low < pow2(k as nat));
                assert(low * pow2((52 - k) as nat) < pow2(k as nat) * pow2((52 - k) as nat))
                    by (nonlinear_arith)
                    requires
                        low < pow2(k as nat),
                        pow2((52 - k) as nat) > 0,
                ;
                vstd::arithmetic::power2::lemma_pow2_adds(k as nat, (52 - k) as nat);
            }
            assert((1023 + k) * pow2(52) + pow2(52) <= 2048 * pow2(52)) by (nonlinear_arith)
                requires
                    k <= 52,
            ;
            vstd::arithmetic::power2::lemma_pow2_adds(11, 52);
        }
        (1023 + k) * pow2_u64(52) + low * pow2_u64(52 - k)
    } else {
        let shift = k - 52;
        let p = pow2_u64(shift);
        let q = n / p;
        let r = n % p;
        proof {
            assert(q < pow2(53) && pow2(52) <= q) by {
                vstd::arithmetic::power2::lemma_pow2_adds(53, shift as nat);
                vstd::arithmetic::power2::lemma_pow2_adds(52, shift as nat);
                assert((n as nat) / pow2(shift as nat) < pow2(53)) by (nonlinear_arith)
                    requires
                        (n as nat) < pow2(53) * pow2(shift as nat),
                        pow2(shift as nat) > 0,
                ;
                assert(pow2(52) <= (n as nat) / pow2(shift as nat)) by (nonlinear_arith)
                    requires
                        pow2(52) * pow2(shift as nat) <= (n as nat),
                        pow2(shift as nat) > 0,
                ;
            }
            assert((1024 + k) * pow2(52) <= 2048 * pow2(52)) by (nonlinear_arith)
                requires
                    k <= 63,
            ;
            vstd::arithmetic::power2::lemma_pow2_adds(11, 52);
        }
        let rounded = if 2 * r > p || (2 * r == p && q % 2 == 1) {
            q + 1
        } else {
            q
        };
        if rounded == pow2_u64(53) {
            (1024 + k) * pow2_u64(52)
        } else {
            (1023 + k) * pow2_u64(52) + (rounded - pow2_u64(52))
        }
    }
}

/// Returns the IEEE 754 bit pattern of the float nearest to the signed `n`.
pub fn f64_bits_from_i64(n: i64) -> (bits: u64)
    ensures
        bits == spec_f64_bits_of_i64(n as int),
{
    if n >= 0 {
        f64_bits_from_u64(n as u64)
    } else {
        let mag: u64 = ((-(n + 1)) as u64) + 1;
        proof {
            lemma_f64_bits_below_sign(mag);
            vstd::arithmetic::power2::lemma2_to64_rest();
        }
        let sign: u64 = pow2_u64(63);
        sign + f64_bits_from_u64(mag)
    }
}

} // verus!
