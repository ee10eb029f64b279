//! Byte-level encoding primitives of the wire format: variable-length
//! integers (7 bits per byte, least significant group first, high bit set on
//! every byte but the last) and fixed-size little-endian integers.

use vstd::prelude::*;

verus! {

/// Why a byte sequence could not be decoded.
#[derive(Clone, Copy, Debug, PartialEq, Eq, Structural)]
pub enum DecodeError {
    /// The input ended before the value did.
    UnexpectedEnd,
    /// A variable-length integer was too long or too large for its type.
    BadVarint,
    /// An optional value's tag was neither 0 nor 1.
    BadOption,
    /// An enum discriminant named no variant.
    BadVariant,
    /// A value was out of the range its type admits (zero count, invalid sample rate).
    BadValue,
}

/// Why a value could not be encoded.
#[derive(Clone, Copy, Debug, PartialEq, Eq, Structural)]
pub enum EncodeError {
    /// The output buffer is too small.
    BufferFull,
}

/// The values below this bound are those that a varint of at most `k` bytes
/// can hold, when its last byte may be at most `last_max`.
pub open spec fn varint_bound(k: nat, last_max: nat) -> nat
    decreases k,
{
    if k <= 1 {
        last_max + 1
    } else {
        128 * varint_bound((k - 1) as nat, last_max)
    }
}

/// The largest number of bytes of a `u32` varint.
pub const U32_VARINT_BYTES: usize = 5;
/// The largest last byte of a `u32` varint.
pub const U32_VARINT_LAST_MAX: u8 = 0x0F;

/// The largest number of bytes of a `u64` varint.
pub const U64_VARINT_BYTES: usize = 10;
/// The largest last byte of a `u64` varint.
pub const U64_VARINT_LAST_MAX: u8 = 0x01;

/// The values that `u32` and `u64` varints can hold.
pub proof fn lemma_varint_bounds()
    ensures
        varint_bound(U32_VARINT_BYTES as nat, U32_VARINT_LAST_MAX as nat) == 0x1_0000_0000,
        varint_bound(U64_VARINT_BYTES as nat, U64_VARINT_LAST_MAX as nat) == 0x1_0000_0000_0000_0000,
{
    reveal_with_fuel(varint_bound, 11);
}

/// The canonical varint encoding of `v`.
pub open spec fn varint_encoding(v: nat) -> Seq<u8>
    decreases v,
{
    if v < 128 {
        seq![v as u8]
    } else {
        seq![(v % 128 + 128) as u8] + varint_encoding(v / 128)
    }
}

/// Reads a varint of at most `k` bytes at `pos`: the value and the position
/// right after it. Non-canonical encodings (with redundant zero groups) are accepted.
pub open spec fn parse_varint(s: Seq<u8>, pos: int, k: nat, last_max: nat) -> Result<(nat, int), DecodeError>
    decreases k,
{
    if k == 0 {
        Err(DecodeError::BadVarint)
    } else if pos < 0 || pos >= s.len() {
        Err(DecodeError::UnexpectedEnd)
    } else if s[pos] < 128 {
        if k == 1 && s[pos] > last_max {
            Err(DecodeError::BadVarint)
        } else {
            Ok((s[pos] as nat, pos + 1))
        }
    } else if k == 1 {
        Err(DecodeError::BadVarint)
    } else {
        match parse_varint(s, pos + 1, (k - 1) as nat, last_max) {
            Ok((v, p)) => Ok(((s[pos] - 128 + 128 * v) as nat, p)),
            Err(e) => Err(e),
        }
    }
}

/// The `n`-byte little-endian encoding of `v` (modulo `256^n`).
pub open spec fn le_bytes(v: nat, n: nat) -> Seq<u8>
    decreases n,
{
    if n == 0 {
        Seq::empty()
    } else {
        seq![(v % 256) as u8] + le_bytes(v / 256, (n - 1) as nat)
    }
}

/// The value of a little-endian byte sequence.
pub open spec fn le_value(s: Seq<u8>) -> nat
    decreases s.len(),
{
    if s.len() == 0 {
        0
    } else {
        s[0] as nat + 256 * le_value(s.drop_first())
    }
}

/// `256^n`.
pub open spec fn byte_bound(n: nat) -> nat
    decreases n,
{
    if n == 0 {
        1
    } else {
        256 * byte_bound((n - 1) as nat)
    }
}

/// Reads an `n`-byte little-endian integer at `pos`.
pub open spec fn parse_le(s: Seq<u8>, pos: int, n: nat) -> Result<(nat, int), DecodeError> {
    if pos < 0 || pos + n > s.len() {
        Err(DecodeError::UnexpectedEnd)
    } else {
        Ok((le_value(s.subrange(pos, pos + n)), pos + n))
    }
}

/// `s` holds `t` at position `pos`.
pub open spec fn holds_at(s: Seq<u8>, pos: int, t: Seq<u8>) -> bool {
    &&& 0 <= pos
    &&& pos + t.len() <= s.len()
    &&& s.subrange(pos, pos + t.len()) == t
}

/// A concatenation held at `pos` holds its first part there and its
/// second part right after it.
pub proof fn lemma_holds_at_concat(s: Seq<u8>, pos: int, a: Seq<u8>, b: Seq<u8>)
    requires
        holds_at(s, pos, a + b),
    ensures
        holds_at(s, pos, a),
        holds_at(s, pos + a.len(), b),
{
    assert(s.subrange(pos, pos + a.len()) =~= (a + b).subrange(0, a.len() as int));
    assert((a + b).subrange(0, a.len() as int) =~= a);
    assert(s.subrange(pos + a.len(), pos + a.len() + b.len()) =~= (a + b).subrange(
        a.len() as int,
        (a.len() + b.len()) as int,
    ));
    assert((a + b).subrange(a.len() as int, (a.len() + b.len()) as int) =~= b);
}

/// A varint encoding is never empty.
pub proof fn lemma_varint_encoding_len(v: nat)
    ensures
        varint_encoding(v).len() >= 1,
    decreases v,
{
    if v >= 128 {
        lemma_varint_encoding_len(v / 128);
    }
}

/// Decoding the encoding of a value that fits gives the value back, and stops
/// right after the encoding.
pub proof fn lemma_varint_roundtrip(s: Seq<u8>, pos: int, v: nat, k: nat, last_max: nat)
    requires
        holds_at(s, pos, varint_encoding(v)),
        k >= 1,
        last_max < 128,
        v < varint_bound(k, last_max),
    ensures
        parse_varint(s, pos, k, last_max) == Ok::<(nat, int), DecodeError>((v, pos + varint_encoding(v).len())),
    decreases v,
{
    assert(s[pos] == varint_encoding(v)[0]) by {
        assert(s.subrange(pos, pos + varint_encoding(v).len())[0] == s[pos]);
    }
    if v < 128 {
    } else {
        if k == 1 {
            assert(false);
        }
        let rest = varint_encoding(v / 128);
        assert(varint_encoding(v) == seq![(v % 128 + 128) as u8] + rest);
        lemma_holds_at_concat(s, pos, seq![(v % 128 + 128) as u8], rest);
        assert(v / 128 < varint_bound((k - 1) as nat, last_max));
        lemma_varint_roundtrip(s, pos + 1, v / 128, (k - 1) as nat, last_max);
    }
}

/// The little-endian encoding on `n` bytes has `n` bytes.
pub proof fn lemma_le_bytes_len(v: nat, n: nat)
    ensures
        le_bytes(v, n).len() == n,
    decreases n,
{
    if n > 0 {
        lemma_le_bytes_len(v / 256, (n - 1) as nat);
    }
}

/// The value of the little-endian encoding of `v` on `n` bytes is `v`
/// modulo `256^n`.
pub proof fn lemma_le_value_of_bytes(v: nat, n: nat)
    requires
        v < byte_bound(n),
    ensures
        le_value(le_bytes(v, n)) == v,
    decreases n,
{
    if n > 0 {
        let t = le_bytes(v / 256, (n - 1) as nat);
        assert(le_bytes(v, n).drop_first() =~= t);
        lemma_le_value_of_bytes(v / 256, (n - 1) as nat);
    }
}

/// The value of `n` little-endian bytes is below `256^n`.
pub proof fn lemma_le_value_bound(s: Seq<u8>)
    ensures
        le_value(s) < byte_bound(s.len()),
    decreases s.len(),
{
    if s.len() > 0 {
        lemma_le_value_bound(s.drop_first());
    }
}

/// Decoding a little-endian encoding gives the value back.
pub proof fn lemma_le_roundtrip(s: Seq<u8>, pos: int, v: nat, n: nat)
    requires
        holds_at(s, pos, le_bytes(v, n)),
        v < byte_bound(n),
    ensures
        parse_le(s, pos, n) == Ok::<(nat, int), DecodeError>((v, pos + n)),
{
    lemma_le_bytes_len(v, n);
    lemma_le_value_of_bytes(v, n);
}

/// `256^4` and `256^8`.
pub proof fn lemma_byte_bounds()
    ensures
        byte_bound(4) == 0x1_0000_0000,
        byte_bound(8) == 0x1_0000_0000_0000_0000,
{
    reveal_with_fuel(byte_bound, 9);
}

/// Reads a varint of at most `k` bytes at `pos` of `s`.
pub fn read_varint(s: &[u8], pos: usize, k: usize, last_max: u8) -> (r: Result<(u64, usize), DecodeError>)
    requires
        1 <= k,
        last_max < 128,
        varint_bound(k as nat, last_max as nat) <= 0x1_0000_0000_0000_0000,
    ensures
        match parse_varint(s@, pos as int, k as nat, last_max as nat) {
            Ok((v, p)) => r == Ok::<(u64, usize), DecodeError>((v as u64, p as usize))
                && v < varint_bound(k as nat, last_max as nat) && pos < p <= s@.len() && p <= s.len(),
            Err(e) => r == Err::<(u64, usize), DecodeError>(e),
        },
    decreases k,
{
    if pos >= s.len() {
        return Err(DecodeError::UnexpectedEnd);
    }
    let b = s[pos];
    if b < 128 {
        if k == 1 && b > last_max {
            Err(DecodeError::BadVarint)
        } else {
            proof {
                if k > 1 {
                    assert(varint_bound(k as nat, last_max as nat) == 128 * varint_bound((k - 1) as nat, last_max as nat));
                    lemma_varint_bound_positive((k - 1) as nat, last_max as nat);
                }
            }
            Ok((b as u64, pos + 1))
        }
    } else if k == 1 {
        Err(DecodeError::BadVarint)
    } else {
        proof {
            assert(varint_bound(k as nat, last_max as nat) == 128 * varint_bound((k - 1) as nat, last_max as nat));
        }
        match read_varint(s, pos + 1, k - 1, last_max) {
            Ok((v, p)) => {
                let low = (b - 128) as u64;
                Ok((low + 128 * v, p))
            },
            Err(e) => Err(e),
        }
    }
}

/// Every varint bound is positive.
pub proof fn lemma_varint_bound_positive(k: nat, last_max: nat)
    ensures
        varint_bound(k, last_max) >= 1,
    decreases k,
{
    if k > 1 {
        lemma_varint_bound_positive((k - 1) as nat, last_max);
    }
}

/// Reads an `n`-byte little-endian integer at `pos` of `s`.
pub fn read_le(s: &[u8], pos: usize, n: usize) -> (r: Result<(u64, usize), DecodeError>)
    requires
        n <= 8,
    ensures
        match parse_le(s@, pos as int, n as nat) {
            Ok((v, p)) => r == Ok::<(u64, usize), DecodeError>((v as u64, p as usize)) && v < byte_bound(n as nat) && p <= s.len(),
            Err(e) => r == Err::<(u64, usize), DecodeError>(e),
        },
{
    if pos > s.len() || s.len() - pos < n {
        return Err(DecodeError::UnexpectedEnd);
    }
    let mut v: u64 = 0;
    let mut i: usize = n;
    proof {
        assert(s@.subrange(pos + n, pos + n) =~= Seq::<u8>::empty());
    }
    while i > 0
        invariant
            i <= n <= 8,
            pos + n <= s@.len(),
            pos + n <= s.len(),
            v == le_value(s@.subrange(pos + i, pos + n)),
            v < byte_bound((n - i) as nat),
        decreases i,
    {
        let ghost old_i = i;
        i = i - 1;
        proof {
            let t = s@.subrange(pos + i, pos + n);
            assert(t.drop_first() =~= s@.subrange(pos + old_i, pos + n));
            assert(t[0] == s@[pos + i]);
            assert(byte_bound((n - i) as nat) == 256 * byte_bound((n - old_i) as nat));
            lemma_byte_bound_mono((n - i) as nat, 8);
            lemma_byte_bounds();
        }
        v = s[pos + i] as u64 + 256 * v;
    }
    Ok((v, pos + n))
}

/// `256^a <= 256^b` when `a <= b`.
pub proof fn lemma_byte_bound_mono(a: nat, b: nat)
    requires
        a <= b,
    ensures
        byte_bound(a) <= byte_bound(b),
        byte_bound(a) >= 1,
    decreases b,
{
    if a < b {
        lemma_byte_bound_mono(a, (b - 1) as nat);
    } else if a > 0 {
        lemma_byte_bound_mono((a - 1) as nat, (a - 1) as nat);
    }
}

/// Appends the canonical varint encoding of `v`.
pub fn write_varint(out: &mut Vec<u8>, v: u64)
    ensures
        final(out)@ == old(out)@ + varint_encoding(v as nat),
    decreases v,
{
    if v < 128 {
        out.push(v as u8);
        proof {
            assert(final(out)@ =~= old(out)@ + varint_encoding(v as nat));
        }
    } else {
        out.push((v % 128 + 128) as u8);
        write_varint(out, v / 128);
        proof {
            assert(final(out)@ =~= old(out)@ + varint_encoding(v as nat));
        }
    }
}

/// Appends the `n`-byte little-endian encoding of `v`.
pub fn write_le(out: &mut Vec<u8>, v: u64, n: usize)
    ensures
        final(out)@ == old(out)@ + le_bytes(v as nat, n as nat),
    decreases n,
{
    if n > 0 {
        out.push((v % 256) as u8);
        write_le(out, v / 256, n - 1);
        proof {
            assert(final(out)@ =~= old(out)@ + le_bytes(v as nat, n as nat));
        }
    } else {
        proof {
            assert(final(out)@ =~= old(out)@ + le_bytes(v as nat, n as nat));
        }
    }
}

} // verus!
