//! Conversions between integer samples and their little-endian bytes.

use vstd::prelude::*;
use crate::format::SampleType;
use crate::codec::{byte_bound, le_bytes, le_value, lemma_byte_bound_mono, lemma_le_bytes_len, lemma_le_value_bound, lemma_le_value_of_bytes};

verus! {

/// The number of bytes of one sample of a type.
pub trait SampleSize {
    /// Number of bytes of one sample (never zero).
    spec fn spec_size() -> nat;

    /// Number of bytes of one sample.
    fn size() -> (r: u8)
        ensures
            r as nat == Self::spec_size(),
            0 < r <= 8,
    ;
}

/// Reading a sample from its little-endian bytes.
pub trait SampleFromBytes: SampleSize + Sized {
    /// The sample that `bytes` (of the sample's size) encode.
    spec fn spec_from_le(bytes: Seq<u8>) -> Self;

    /// Reads a sample; `slice` holds exactly one sample's bytes.
    fn from_bytes(slice: &[u8]) -> (r: Self)
        requires
            slice@.len() == Self::spec_size(),
        ensures
            r == Self::spec_from_le(slice@),
    ;
}

/// Writing a sample as its little-endian bytes.
pub trait SampleToBytes: SampleSize + Sized {
    /// The little-endian bytes of a sample.
    spec fn spec_to_le(self) -> Seq<u8>;

    /// Writes the sample into `slice`, which holds exactly one sample's bytes.
    fn to_bytes(self, slice: &mut [u8])
        requires
            old(slice)@.len() == Self::spec_size(),
        ensures
            final(slice)@ == self.spec_to_le(),
    ;
}

/// The value of silence for a sample type.
pub trait SampleTypeSilence: Sized {
    spec fn spec_silence() -> Self;

    fn silence() -> (r: Self)
        ensures
            r == Self::spec_silence(),
    ;
}

/// Reads the little-endian value of the first `n` bytes of `slice`.
fn le_from_slice(slice: &[u8], n: usize) -> (r: u64)
    requires
        n <= 8,
        slice@.len() == n,
    ensures
        r as nat == le_value(slice@),
        (r as nat) < byte_bound(n as nat),
{
    let mut v: u64 = 0;
    let mut i: usize = n;
    proof {
        assert(slice@.subrange(n as int, n as int) =~= Seq::<u8>::empty());
        lemma_byte_bound_mono(0, 8);
    }
    while i > 0
        invariant
            i <= n <= 8,
            slice@.len() == n,
            v == le_value(slice@.subrange(i as int, n as int)),
            v < byte_bound((n - i) as nat),
        decreases i,
    {
        let ghost old_i = i;
        i = i - 1;
        proof {
            let t = slice@.subrange(i as int, n as int);
            assert(t.drop_first() =~= slice@.subrange(old_i as int, n as int));
            assert(byte_bound((n - i) as nat) == 256 * byte_bound((n - old_i) as nat));
            lemma_byte_bound_mono((n - i) as nat, 8);
            crate::codec::lemma_byte_bounds();
        }
        v = slice[i] as u64 + 256 * v;
    }
    proof {
        assert(slice@.subrange(0, n as int) =~= slice@);
    }
    v
}

/// Writes the `n`-byte little-endian encoding of `v` into `slice`.
fn le_to_slice(v: u64, slice: &mut [u8], n: usize)
    requires
        old(slice)@.len() == n,
    ensures
        final(slice)@ == le_bytes(v as nat, n as nat),
{
    let mut i: usize = 0;
    let mut rest: u64 = v;
    proof {
        lemma_le_bytes_len(v as nat, n as nat);
    }
    while i < n
        invariant
            i <= n,
            slice@.len() == n,
            le_bytes(v as nat, n as nat) == slice@.subrange(0, i as int) + le_bytes(rest as nat, (n - i) as nat),
        decreases n - i,
    {
        proof {
            let t = le_bytes(rest as nat, (n - i) as nat);
            assert(t == seq![(rest % 256) as u8] + le_bytes((rest / 256) as nat, (n - i - 1) as nat));
        }
        slice[i] = (rest % 256) as u8;
        proof {
            assert(slice@.subrange(0, i + 1) =~= slice@.subrange(0, i as int).push((rest % 256) as u8));
        }
        rest = rest / 256;
        i = i + 1;
        proof {
            assert(le_bytes(v as nat, n as nat) =~= slice@.subrange(0, i as int) + le_bytes(rest as nat, (n - i) as nat));
        }
    }
    proof {
        assert(slice@.subrange(0, n as int) =~= slice@);
        assert(le_bytes(rest as nat, 0) =~= Seq::<u8>::empty());
        assert(slice@ =~= le_bytes(v as nat, n as nat));
    }
}

impl SampleSize for u8 {
    open spec fn spec_size() -> nat {
        1
    }

    fn size() -> (r: u8) {
        1
    }
}

impl SampleFromBytes for u8 {
    open spec fn spec_from_le(bytes: Seq<u8>) -> u8 {
        le_value(bytes) as u8
    }

    fn from_bytes(slice: &[u8]) -> (r: u8) {
        le_from_slice(slice, 1) as u8
    }
}

impl SampleToBytes for u8 {
    open spec fn spec_to_le(self) -> Seq<u8> {
        le_bytes(self as nat, 1)
    }

    fn to_bytes(self, slice: &mut [u8]) {
        le_to_slice(self as u64, slice, 1)
    }
}

impl SampleTypeSilence for u8 {
    open spec fn spec_silence() -> u8 {
        0x80
    }

    fn silence() -> (r: u8) {
        0x80
    }
}


impl SampleSize for u16 {
    open spec fn spec_size() -> nat {
        2
    }

    fn size() -> (r: u8) {
        2
    }
}

impl SampleFromBytes for u16 {
    open spec fn spec_from_le(bytes: Seq<u8>) -> u16 {
        le_value(bytes) as u16
    }

    fn from_bytes(slice: &[u8]) -> (r: u16) {
        proof {
            crate::codec::lemma_byte_bounds();
            reveal_with_fuel(byte_bound, 3);
        }
        le_from_slice(slice, 2) as u16
    }
}

impl SampleToBytes for u16 {
    open spec fn spec_to_le(self) -> Seq<u8> {
        le_bytes(self as nat, 2)
    }

    fn to_bytes(self, slice: &mut [u8]) {
        le_to_slice(self as u64, slice, 2)
    }
}

impl SampleTypeSilence for u16 {
    open spec fn spec_silence() -> u16 {
        0x8000
    }

    fn silence() -> (r: u16) {
        0x8000
    }
}

impl SampleSize for u32 {
    open spec fn spec_size() -> nat {
        4
    }

    fn size() -> (r: u8) {
        4
    }
}

impl SampleFromBytes for u32 {
    open spec fn spec_from_le(bytes: Seq<u8>) -> u32 {
        le_value(bytes) as u32
    }

    fn from_bytes(slice: &[u8]) -> (r: u32) {
        proof {
            crate::codec::lemma_byte_bounds();
            reveal_with_fuel(byte_bound, 3);
        }
        le_from_slice(slice, 4) as u32
    }
}

impl SampleToBytes for u32 {
    open spec fn spec_to_le(self) -> Seq<u8> {
        le_bytes(self as nat, 4)
    }

    fn to_bytes(self, slice: &mut [u8]) {
        le_to_slice(self as u64, slice, 4)
    }
}

impl SampleTypeSilence for u32 {
    open spec fn spec_silence() -> u32 {
        0x8000_0000
    }

    fn silence() -> (r: u32) {
        0x8000_0000
    }
}

impl SampleSize for u64 {
    open spec fn spec_size() -> nat {
        8
    }

    fn size() -> (r: u8) {
        8
    }
}

impl SampleFromBytes for u64 {
    open spec fn spec_from_le(bytes: Seq<u8>) -> u64 {
        le_value(bytes) as u64
    }

    fn from_bytes(slice: &[u8]) -> (r: u64) {
        proof {
            crate::codec::lemma_byte_bounds();
            reveal_with_fuel(byte_bound, 3);
        }
        le_from_slice(slice, 8) as u64
    }
}

impl SampleToBytes for u64 {
    open spec fn spec_to_le(self) -> Seq<u8> {
        le_bytes(self as nat, 8)
    }

    fn to_bytes(self, slice: &mut [u8]) {
        le_to_slice(self as u64, slice, 8)
    }
}

impl SampleTypeSilence for u64 {
    open spec fn spec_silence() -> u64 {
        0x8000_0000_0000_0000
    }

    fn silence() -> (r: u64) {
        0x8000_0000_0000_0000
    }
}

/// The two's complement reading of an unsigned 1-byte value.
pub open spec fn i8_of_unsigned(u: nat) -> i8 {
    if u < 0x80 {
        u as i8
    } else {
        (u - 0x100) as i8
    }
}

/// The unsigned 1-byte value with the same two's complement bits.
pub open spec fn i8_to_unsigned(x: i8) -> nat {
    if x >= 0 {
        x as nat
    } else {
        (x + 0x100) as nat
    }
}

impl SampleSize for i8 {
    open spec fn spec_size() -> nat {
        1
    }

    fn size() -> (r: u8) {
        1
    }
}

impl SampleFromBytes for i8 {
    open spec fn spec_from_le(bytes: Seq<u8>) -> i8 {
        i8_of_unsigned(le_value(bytes))
    }

    fn from_bytes(slice: &[u8]) -> (r: i8) {
        proof {
            crate::codec::lemma_byte_bounds();
            reveal_with_fuel(byte_bound, 3);
        }
        let u = le_from_slice(slice, 1);
        if u < 0x80 {
            u as i8
        } else {
            (u as i64 - 0x100) as i8
        }
    }
}

impl SampleToBytes for i8 {
    open spec fn spec_to_le(self) -> Seq<u8> {
        le_bytes(i8_to_unsigned(self), 1)
    }

    fn to_bytes(self, slice: &mut [u8]) {
        let u: u64 = if self >= 0 {
            self as u64
        } else {
            (self as i64 + 0x100) as u64
        };
        le_to_slice(u, slice, 1)
    }
}

impl SampleTypeSilence for i8 {
    open spec fn spec_silence() -> i8 {
        0
    }

    fn silence() -> (r: i8) {
        0
    }
}

/// The two's complement reading of an unsigned 2-byte value.
pub open spec fn i16_of_unsigned(u: nat) -> i16 {
    if u < 0x8000 {
        u as i16
    } else {
        (u - 0x1_0000) as i16
    }
}

/// The unsigned 2-byte value with the same two's complement bits.
pub open spec fn i16_to_unsigned(x: i16) -> nat {
    if x >= 0 {
        x as nat
    } else {
        (x + 0x1_0000) as nat
    }
}

impl SampleSize for i16 {
    open spec fn spec_size() -> nat {
        2
    }

    fn size() -> (r: u8) {
        2
    }
}

impl SampleFromBytes for i16 {
    open spec fn spec_from_le(bytes: Seq<u8>) -> i16 {
        i16_of_unsigned(le_value(bytes))
    }

    fn from_bytes(slice: &[u8]) -> (r: i16) {
        proof {
            crate::codec::lemma_byte_bounds();
            reveal_with_fuel(byte_bound, 3);
        }
        let u = le_from_slice(slice, 2);
        if u < 0x8000 {
            u as i16
        } else {
            (u as i64 - 0x1_0000) as i16
        }
    }
}

impl SampleToBytes for i16 {
    open spec fn spec_to_le(self) -> Seq<u8> {
        le_bytes(i16_to_unsigned(self), 2)
    }

    fn to_bytes(self, slice: &mut [u8]) {
        let u: u64 = if self >= 0 {
            self as u64
        } else {
            (self as i64 + 0x1_0000) as u64
        };
        le_to_slice(u, slice, 2)
    }
}

impl SampleTypeSilence for i16 {
    open spec fn spec_silence() -> i16 {
        0
    }

    fn silence() -> (r: i16) {
        0
    }
}

/// The two's complement reading of an unsigned 4-byte value.
pub open spec fn i32_of_unsigned(u: nat) -> i32 {
    if u < 0x8000_0000 {
        u as i32
    } else {
        (u - 0x1_0000_0000) as i32
    }
}

/// The unsigned 4-byte value with the same two's complement bits.
pub open spec fn i32_to_unsigned(x: i32) -> nat {
    if x >= 0 {
        x as nat
    } else {
        (x + 0x1_0000_0000) as nat
    }
}

impl SampleSize for i32 {
    open spec fn spec_size() -> nat {
        4
    }

    fn size() -> (r: u8) {
        4
    }
}

impl SampleFromBytes for i32 {
    open spec fn spec_from_le(bytes: Seq<u8>) -> i32 {
        i32_of_unsigned(le_value(bytes))
    }

    fn from_bytes(slice: &[u8]) -> (r: i32) {
        proof {
            crate::codec::lemma_byte_bounds();
            reveal_with_fuel(byte_bound, 3);
        }
        let u = le_from_slice(slice, 4);
        if u < 0x8000_0000 {
            u as i32
        } else {
            (u as i64 - 0x1_0000_0000) as i32
        }
    }
}

impl SampleToBytes for i32 {
    open spec fn spec_to_le(self) -> Seq<u8> {
        le_bytes(i32_to_unsigned(self), 4)
    }

    fn to_bytes(self, slice: &mut [u8]) {
        let u: u64 = if self >= 0 {
            self as u64
        } else {
            (self as i64 + 0x1_0000_0000) as u64
        };
        le_to_slice(u, slice, 4)
    }
}

impl SampleTypeSilence for i32 {
    open spec fn spec_silence() -> i32 {
        0
    }

    fn silence() -> (r: i32) {
        0
    }
}

/// The two's complement reading of an unsigned 8-byte value.
pub open spec fn i64_of_unsigned(u: nat) -> i64 {
    if u < 0x8000_0000_0000_0000 {
        u as i64
    } else {
        (u - 0x1_0000_0000_0000_0000) as i64
    }
}

/// The unsigned 8-byte value with the same two's complement bits.
pub open spec fn i64_to_unsigned(x: i64) -> nat {
    if x >= 0 {
        x as nat
    } else {
        (x + 0x1_0000_0000_0000_0000) as nat
    }
}

impl SampleSize for i64 {
    open spec fn spec_size() -> nat {
        8
    }

    fn size() -> (r: u8) {
        8
    }
}

impl SampleFromBytes for i64 {
    open spec fn spec_from_le(bytes: Seq<u8>) -> i64 {
        i64_of_unsigned(le_value(bytes))
    }

    fn from_bytes(slice: &[u8]) -> (r: i64) {
        proof {
            crate::codec::lemma_byte_bounds();
            reveal_with_fuel(byte_bound, 3);
        }
        let u = le_from_slice(slice, 8);
        if u < 0x8000_0000_0000_0000 {
            u as i64
        } else {
            i64::MIN + (u - 0x8000_0000_0000_0000) as i64
        }
    }
}

impl SampleToBytes for i64 {
    open spec fn spec_to_le(self) -> Seq<u8> {
        le_bytes(i64_to_unsigned(self), 8)
    }

    fn to_bytes(self, slice: &mut [u8]) {
        let u: u64 = if self >= 0 {
            self as u64
        } else {
            (self - i64::MIN) as u64 + 0x8000_0000_0000_0000
        };
        le_to_slice(u, slice, 8)
    }
}

impl SampleTypeSilence for i64 {
    open spec fn spec_silence() -> i64 {
        0
    }

    fn silence() -> (r: i64) {
        0
    }
}

/// Writing an unsigned sample and reading the bytes back gives the sample.
pub proof fn lemma_unsigned_sample_roundtrip(a: u8, b: u16, c: u32, d: u64)
    ensures
        <u8 as SampleFromBytes>::spec_from_le(a.spec_to_le()) == a,
        <u16 as SampleFromBytes>::spec_from_le(b.spec_to_le()) == b,
        <u32 as SampleFromBytes>::spec_from_le(c.spec_to_le()) == c,
        <u64 as SampleFromBytes>::spec_from_le(d.spec_to_le()) == d,
{
    crate::codec::lemma_byte_bounds();
    reveal_with_fuel(byte_bound, 3);
    lemma_le_value_of_bytes(a as nat, 1);
    lemma_le_value_of_bytes(b as nat, 2);
    lemma_le_value_of_bytes(c as nat, 4);
    lemma_le_value_of_bytes(d as nat, 8);
}

/// Writing a signed sample and reading the bytes back gives the sample.
pub proof fn lemma_signed_sample_roundtrip(a: i8, b: i16, c: i32, d: i64)
    ensures
        <i8 as SampleFromBytes>::spec_from_le(a.spec_to_le()) == a,
        <i16 as SampleFromBytes>::spec_from_le(b.spec_to_le()) == b,
        <i32 as SampleFromBytes>::spec_from_le(c.spec_to_le()) == c,
        <i64 as SampleFromBytes>::spec_from_le(d.spec_to_le()) == d,
{
    crate::codec::lemma_byte_bounds();
    reveal_with_fuel(byte_bound, 3);
    lemma_le_value_of_bytes(i8_to_unsigned(a), 1);
    lemma_le_value_of_bytes(i16_to_unsigned(b), 2);
    lemma_le_value_of_bytes(i32_to_unsigned(c), 4);
    lemma_le_value_of_bytes(i64_to_unsigned(d), 8);
}

/// Silence is the middle of each sample type's range: it lies as far above
/// the lowest value as the highest value lies above it, plus one. For an
/// unsigned type that is `MAX / 2 + 1`; for a signed type, zero.
pub proof fn law_silence_is_midpoint()
    ensures
        <u8 as SampleTypeSilence>::spec_silence() - u8::MIN == u8::MAX - <u8 as SampleTypeSilence>::spec_silence() + 1,
        <u16 as SampleTypeSilence>::spec_silence() - u16::MIN == u16::MAX - <u16 as SampleTypeSilence>::spec_silence() + 1,
        <u32 as SampleTypeSilence>::spec_silence() - u32::MIN == u32::MAX - <u32 as SampleTypeSilence>::spec_silence() + 1,
        <u64 as SampleTypeSilence>::spec_silence() - u64::MIN == u64::MAX - <u64 as SampleTypeSilence>::spec_silence() + 1,
        <i8 as SampleTypeSilence>::spec_silence() - i8::MIN == i8::MAX - <i8 as SampleTypeSilence>::spec_silence() + 1,
        <i16 as SampleTypeSilence>::spec_silence() - i16::MIN == i16::MAX - <i16 as SampleTypeSilence>::spec_silence() + 1,
        <i32 as SampleTypeSilence>::spec_silence() - i32::MIN == i32::MAX - <i32 as SampleTypeSilence>::spec_silence() + 1,
        <i64 as SampleTypeSilence>::spec_silence() - i64::MIN == i64::MAX - <i64 as SampleTypeSilence>::spec_silence() + 1,
        <u8 as SampleTypeSilence>::spec_silence() == u8::MAX / 2 + 1,
        <u16 as SampleTypeSilence>::spec_silence() == u16::MAX / 2 + 1,
        <u32 as SampleTypeSilence>::spec_silence() == u32::MAX / 2 + 1,
        <u64 as SampleTypeSilence>::spec_silence() == u64::MAX / 2 + 1,
        <i8 as SampleTypeSilence>::spec_silence() == 0,
        <i16 as SampleTypeSilence>::spec_silence() == 0,
        <i32 as SampleTypeSilence>::spec_silence() == 0,
        <i64 as SampleTypeSilence>::spec_silence() == 0,
{
}

/// A sample type's size is the width in bytes of its samples: the number of
/// little-endian bytes that a sample of the integer type carrying it is
/// written as, the same for the signed and unsigned types of a width, and
/// for floats that of the integers of their width. In numbers: 1, 2, 3, 4
/// and 8 bytes for 8, 16, 24, 32 and 64-bit samples.
pub proof fn law_sample_size_is_byte_width(a: u8, b: u16, c: u32, d: u64, e: i8, f: i16, g: i32, h: i64)
    ensures
        SampleType::U8.spec_sample_size() == a.spec_to_le().len(),
        SampleType::U16.spec_sample_size() == b.spec_to_le().len(),
        SampleType::U32.spec_sample_size() == c.spec_to_le().len(),
        SampleType::U64.spec_sample_size() == d.spec_to_le().len(),
        SampleType::I8.spec_sample_size() == e.spec_to_le().len(),
        SampleType::I16.spec_sample_size() == f.spec_to_le().len(),
        SampleType::I32.spec_sample_size() == g.spec_to_le().len(),
        SampleType::I64.spec_sample_size() == h.spec_to_le().len(),
        SampleType::U8.spec_sample_size() == <u8 as SampleSize>::spec_size(),
        SampleType::U16.spec_sample_size() == <u16 as SampleSize>::spec_size(),
        SampleType::U32.spec_sample_size() == <u32 as SampleSize>::spec_size(),
        SampleType::U64.spec_sample_size() == <u64 as SampleSize>::spec_size(),
        SampleType::I8.spec_sample_size() == <i8 as SampleSize>::spec_size(),
        SampleType::I16.spec_sample_size() == <i16 as SampleSize>::spec_size(),
        SampleType::I32.spec_sample_size() == <i32 as SampleSize>::spec_size(),
        SampleType::I64.spec_sample_size() == <i64 as SampleSize>::spec_size(),
        SampleType::U24.spec_sample_size() == SampleType::I24.spec_sample_size(),
        SampleType::IEEF32.spec_sample_size() == SampleType::I32.spec_sample_size(),
        SampleType::IEEF64.spec_sample_size() == SampleType::I64.spec_sample_size(),
        SampleType::U8.spec_sample_size() == 1 && SampleType::I8.spec_sample_size() == 1,
        SampleType::U16.spec_sample_size() == 2 && SampleType::I16.spec_sample_size() == 2,
        SampleType::U24.spec_sample_size() == 3 && SampleType::I24.spec_sample_size() == 3,
        SampleType::U32.spec_sample_size() == 4 && SampleType::I32.spec_sample_size() == 4,
        SampleType::IEEF32.spec_sample_size() == 4,
        SampleType::U64.spec_sample_size() == 8 && SampleType::I64.spec_sample_size() == 8,
        SampleType::IEEF64.spec_sample_size() == 8,
{
    lemma_le_bytes_len(a as nat, 1);
    lemma_le_bytes_len(b as nat, 2);
    lemma_le_bytes_len(c as nat, 4);
    lemma_le_bytes_len(d as nat, 8);
    lemma_le_bytes_len(i8_to_unsigned(e), 1);
    lemma_le_bytes_len(i16_to_unsigned(f), 2);
    lemma_le_bytes_len(i32_to_unsigned(g), 4);
    lemma_le_bytes_len(i64_to_unsigned(h), 8);
}

} // verus!
