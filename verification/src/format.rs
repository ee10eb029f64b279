//! Audio stream formats.

use vstd::prelude::*;

verus! {

/// All sample formats supported by the protocol (little-endian, interleaved,
/// uncompressed).
#[derive(Clone, Copy, Debug, PartialEq, Eq, Structural)]
pub enum SampleType {
    U8,
    U16,
    U24,
    U32,
    U64,
    I8,
    I16,
    I24,
    I32,
    I64,
    IEEF32,
    IEEF64,
}

impl SampleType {
    /// Whether the format is signed (floats included).
    pub open spec fn spec_is_signed(self) -> bool {
        match self {
            SampleType::I8 | SampleType::I16 | SampleType::I24 | SampleType::I32
            | SampleType::I64 | SampleType::IEEF32 | SampleType::IEEF64 => true,
            _ => false,
        }
    }

    /// Whether the format is a floating point format.
    pub open spec fn spec_is_float(self) -> bool {
        match self {
            SampleType::IEEF32 | SampleType::IEEF64 => true,
            _ => false,
        }
    }

    /// Number of bytes of one sample.
    pub open spec fn spec_sample_size(self) -> u8 {
        match self {
            SampleType::U8 | SampleType::I8 => 1,
            SampleType::U16 | SampleType::I16 => 2,
            SampleType::U24 | SampleType::I24 => 3,
            SampleType::U32 | SampleType::I32 | SampleType::IEEF32 => 4,
            SampleType::U64 | SampleType::I64 | SampleType::IEEF64 => 8,
        }
    }

    /// Returns whether this is a signed format (includes floats).
    pub fn is_signed(self) -> (r: bool)
        ensures
            r == self.spec_is_signed(),
    {
        match self {
            SampleType::I8 | SampleType::I16 | SampleType::I24 | SampleType::I32
            | SampleType::I64 | SampleType::IEEF32 | SampleType::IEEF64 => true,
            _ => false,
        }
    }

    /// Returns whether this is a floating point format.
    pub fn is_float(self) -> (r: bool)
        ensures
            r == self.spec_is_float(),
    {
        match self {
            SampleType::IEEF32 | SampleType::IEEF64 => true,
            _ => false,
        }
    }

    /// Returns the number of bytes occupied by a sample in this format (never zero).
    pub fn sample_size(self) -> (r: u8)
        ensures
            r == self.spec_sample_size(),
            r > 0,
    {
        match self {
            SampleType::U8 | SampleType::I8 => 1,
            SampleType::U16 | SampleType::I16 => 2,
            SampleType::U24 | SampleType::I24 => 3,
            SampleType::U32 | SampleType::I32 | SampleType::IEEF32 => 4,
            SampleType::U64 | SampleType::I64 | SampleType::IEEF64 => 8,
        }
    }
}

/// Weight of the exponent field in the bit pattern of an IEEE-754 binary64 value.
pub const F64_EXPONENT_UNIT: u64 = 0x10_0000_0000_0000;

/// Smallest bit pattern of a binary64 value with the sign bit set.
pub const F64_SIGN_BIT: u64 = 0x8000_0000_0000_0000;

/// The bit pattern `bits` encodes a binary64 value that is normal (neither zero,
/// subnormal, infinite nor NaN) and whose sign is positive.
pub open spec fn sample_rate_bits_valid(bits: u64) -> bool {
    &&& bits < F64_SIGN_BIT
    &&& bits / F64_EXPONENT_UNIT != 0
    &&& bits / F64_EXPONENT_UNIT != 0x7FF
}

/// A sample rate, held as the bit pattern of a binary64 (`f64`) value.
///
/// The value is always positive and normal.
#[derive(Clone, Copy, Debug, PartialEq, Eq, Structural)]
pub struct SampleRate {
    pub(crate) bits: u64,
}

/// The error returned when creating an invalid sample rate.
#[derive(Clone, Copy, Debug, PartialEq, Eq, Structural)]
pub struct SampleRateError;

impl SampleRate {
    /// The binary64 bit pattern of this sample rate.
    pub closed spec fn spec_bits(self) -> u64 {
        self.bits
    }

    /// The sample rate with the binary64 bit pattern `bits`.
    pub closed spec fn from_bits_spec(bits: u64) -> SampleRate {
        SampleRate { bits }
    }

    /// A sample rate is determined by its bit pattern.
    pub proof fn lemma_bits(self, bits: u64)
        ensures
            Self::from_bits_spec(bits).spec_bits() == bits,
            Self::from_bits_spec(self.spec_bits()) == self,
    {
    }

    /// Every sample rate holds a positive, normal value.
    pub open spec fn wf(self) -> bool {
        sample_rate_bits_valid(self.spec_bits())
    }

    /// Returns the binary64 bit pattern of the sample rate (`f64::from_bits` gives its value).
    pub fn get(&self) -> (r: u64)
        ensures
            r == self.spec_bits(),
    {
        self.bits
    }

    /// Returns `Some` when `bits` is the pattern of a normal, positive `f64`,
    /// `None` otherwise.
    pub fn new(bits: u64) -> (r: Option<SampleRate>)
        ensures
            r is Some <==> sample_rate_bits_valid(bits),
            r matches Some(s) ==> s.spec_bits() == bits && s.wf() && s == Self::from_bits_spec(bits),
    {
        let exponent = bits / F64_EXPONENT_UNIT;
        if bits < F64_SIGN_BIT && exponent != 0 && exponent != 0x7FF {
            Some(SampleRate { bits })
        } else {
            None
        }
    }

    /// The conversion used when a sample rate is read from its `f64` representation.
    pub fn try_from_bits(bits: u64) -> (r: Result<SampleRate, SampleRateError>)
        ensures
            r is Ok <==> sample_rate_bits_valid(bits),
            r matches Ok(s) ==> s.spec_bits() == bits,
    {
        match SampleRate::new(bits) {
            Some(s) => Ok(s),
            None => Err(SampleRateError),
        }
    }
}

impl SampleRateError {
    /// The human readable description of this error.
    pub fn message(&self) -> (r: &'static str)
        ensures
            r@ == "Sample rate must be normal and positive"@,
    {
        "Sample rate must be normal and positive"
    }
}

/// A non-zero channel count.
#[derive(Clone, Copy, Debug, PartialEq, Eq, Structural)]
pub struct ChannelCount {
    pub count: u32,
}

impl ChannelCount {
    pub open spec fn spec_get(self) -> u32 {
        self.count
    }

    /// A channel count is never zero.
    pub open spec fn wf(self) -> bool {
        self.spec_get() > 0
    }

    /// Returns `Some` exactly when `count` is non-zero.
    pub fn new(count: u32) -> (r: Option<ChannelCount>)
        ensures
            r is Some <==> count > 0,
            r matches Some(c) ==> c.spec_get() == count,
    {
        if count > 0 {
            Some(ChannelCount { count })
        } else {
            None
        }
    }

    pub fn get(&self) -> (r: u32)
        ensures
            r == self.spec_get(),
    {
        self.count
    }
}

/// A non-zero buffer size, in frames.
#[derive(Clone, Copy, Debug, PartialEq, Eq, Structural)]
pub struct BufferSize {
    pub frames: u32,
}

impl BufferSize {
    pub open spec fn spec_get(self) -> u32 {
        self.frames
    }

    /// A buffer size is never zero.
    pub open spec fn wf(self) -> bool {
        self.spec_get() > 0
    }

    /// Returns `Some` exactly when `frames` is non-zero.
    pub fn new(frames: u32) -> (r: Option<BufferSize>)
        ensures
            r is Some <==> frames > 0,
            r matches Some(b) ==> b.spec_get() == frames,
    {
        if frames > 0 {
            Some(BufferSize { frames })
        } else {
            None
        }
    }

    pub fn get(&self) -> (r: u32)
        ensures
            r == self.spec_get(),
    {
        self.frames
    }
}

/// An audio stream configuration.
#[derive(Clone, Copy, Debug, PartialEq, Eq, Structural)]
pub struct Format {
    pub sample_rate: SampleRate,
    pub channel_count: ChannelCount,
    /// In frames. Only a hint of how fast to send/play data, in no way a
    /// constraint on packet contents or sizes.
    pub buffer_size: Option<BufferSize>,
    pub sample_type: SampleType,
}

/// The bit pattern of the `f64` value 48000.0.
pub const SAMPLE_RATE_48K_BITS: u64 = 0x40E7_7000_0000_0000;

/// `a * b` when it fits in 32 bits and is non-zero.
pub open spec fn checked_mul_nonzero(a: int, b: int) -> Option<u32> {
    if 0 < a * b && a * b <= u32::MAX {
        Some((a * b) as u32)
    } else {
        None
    }
}

impl Format {
    /// All the values a format holds are valid.
    pub open spec fn wf(self) -> bool {
        &&& self.sample_rate.wf()
        &&& self.channel_count.wf()
        &&& (self.buffer_size matches Some(b) ==> b.wf())
    }

    /// Samples per buffer: `buffer_size * channel_count`, if a buffer size is
    /// given and the product fits in a non-zero `u32`.
    pub open spec fn spec_chunk_size_samples(self) -> Option<u32> {
        match self.buffer_size {
            Some(b) => checked_mul_nonzero(b.spec_get() as int, self.channel_count.spec_get() as int),
            None => None,
        }
    }

    /// Bytes per buffer: `chunk_size_samples * sample_size`, when it fits.
    pub open spec fn spec_chunk_size_bytes(self) -> Option<u32> {
        match self.spec_chunk_size_samples() {
            Some(n) => checked_mul_nonzero(n as int, self.sample_type.spec_sample_size() as int),
            None => None,
        }
    }

    /// The default format: IEEF32, 48kHz, 1 channel, 32-frame buffering.
    pub fn standard() -> (r: Format)
        ensures
            r.sample_rate.spec_bits() == SAMPLE_RATE_48K_BITS,
            r.channel_count.spec_get() == 1,
            r.buffer_size matches Some(b) && b.spec_get() == 32,
            r.sample_type == SampleType::IEEF32,
            r.wf(),
            r == Format::standard_spec(),
    {
        Format {
            sample_rate: SampleRate { bits: SAMPLE_RATE_48K_BITS },
            channel_count: ChannelCount { count: 1 },
            buffer_size: Some(BufferSize { frames: 32 }),
            sample_type: SampleType::IEEF32,
        }
    }

    /// The format that `standard` gives.
    pub closed spec fn standard_spec() -> Format {
        Format {
            sample_rate: SampleRate { bits: SAMPLE_RATE_48K_BITS },
            channel_count: ChannelCount { count: 1 },
            buffer_size: Some(BufferSize { frames: 32 }),
            sample_type: SampleType::IEEF32,
        }
    }

    /// `buffer_size * channel_count`, or `None` when there is no buffer size or
    /// the product overflows.
    pub fn chunk_size_samples(&self) -> (r: Option<u32>)
        ensures
            r == self.spec_chunk_size_samples(),
    {
        match self.buffer_size {
            Some(b) => {
                let frames = b.get();
                let channels = self.channel_count.get();
                match frames.checked_mul(channels) {
                    Some(n) => {
                        if n > 0 {
                            Some(n)
                        } else {
                            None
                        }
                    },
                    None => None,
                }
            },
            None => None,
        }
    }

    /// `chunk_size_samples * sample_size`, or `None` when either is missing or
    /// the product overflows.
    pub fn chunk_size_bytes(&self) -> (r: Option<u32>)
        ensures
            r == self.spec_chunk_size_bytes(),
    {
        match self.chunk_size_samples() {
            Some(n) => {
                let size = self.sample_type.sample_size() as u32;
                match n.checked_mul(size) {
                    Some(m) => {
                        if m > 0 {
                            Some(m)
                        } else {
                            None
                        }
                    },
                    None => None,
                }
            },
            None => None,
        }
    }
}

/// All the stream formats of a server.
///
/// Servers send audio in the formats of their `inputs` and expect audio in
/// the formats of their `outputs`; clients do the converse.
#[derive(Clone, Debug)]
pub struct StreamFormats {
    pub inputs: Vec<Format>,
    pub outputs: Vec<Format>,
}

impl StreamFormats {
    /// Every format of both lists is valid.
    pub open spec fn wf(self) -> bool {
        &&& forall|i: int| 0 <= i < self.inputs@.len() ==> (#[trigger] self.inputs@[i]).wf()
        &&& forall|i: int| 0 <= i < self.outputs@.len() ==> (#[trigger] self.outputs@[i]).wf()
    }

}

impl Default for Format {
    /// The default format is [`Format::standard`].
    fn default() -> (r: Format)
        ensures
            r == Format::standard_spec(),
    {
        Format::standard()
    }
}

impl Default for StreamFormats {
    /// No inputs and no outputs.
    fn default() -> (r: StreamFormats)
        ensures
            r.inputs@.len() == 0,
            r.outputs@.len() == 0,
    {
        StreamFormats { inputs: Vec::new(), outputs: Vec::new() }
    }
}

} // verus!
