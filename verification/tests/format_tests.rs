use syfala::format::{BufferSize, ChannelCount, Format, SampleRate, SampleType, StreamFormats};

fn rate(hz: f64) -> SampleRate {
    SampleRate::new(hz.to_bits()).unwrap()
}

#[test]
fn sample_type_signedness() {
    assert!(!SampleType::U8.is_signed());
    assert!(!SampleType::U64.is_signed());
    assert!(SampleType::I8.is_signed());
    assert!(SampleType::I24.is_signed());
    assert!(SampleType::I64.is_signed());
    assert!(SampleType::IEEF32.is_signed());
    assert!(SampleType::IEEF64.is_signed());
}

#[test]
fn sample_type_floats() {
    assert!(SampleType::IEEF32.is_float());
    assert!(SampleType::IEEF64.is_float());
    assert!(!SampleType::I32.is_float());
    assert!(!SampleType::U16.is_float());
}

#[test]
fn sample_type_sizes() {
    assert_eq!(SampleType::U8.sample_size(), 1);
    assert_eq!(SampleType::I16.sample_size(), 2);
    assert_eq!(SampleType::U24.sample_size(), 3);
    assert_eq!(SampleType::I32.sample_size(), 4);
    assert_eq!(SampleType::IEEF32.sample_size(), 4);
    assert_eq!(SampleType::U64.sample_size(), 8);
    assert_eq!(SampleType::IEEF64.sample_size(), 8);
}

#[test]
fn sample_rate_accepts_positive_normal_values() {
    let r = rate(48000.0);
    assert_eq!(f64::from_bits(r.get()), 48000.0);
    assert_eq!(rate(44100.0).get(), 44100.0f64.to_bits());
}

#[test]
fn sample_rate_refuses_invalid_values() {
    assert!(SampleRate::new(0.0f64.to_bits()).is_none());
    assert!(SampleRate::new((-48000.0f64).to_bits()).is_none());
    assert!(SampleRate::new(f64::NAN.to_bits()).is_none());
    assert!(SampleRate::new(f64::INFINITY.to_bits()).is_none());
    assert!(SampleRate::new(f64::MIN_POSITIVE.to_bits() / 2).is_none());
    assert!(SampleRate::try_from_bits(f64::NAN.to_bits()).is_err());
    assert!(SampleRate::try_from_bits(96000.0f64.to_bits()).is_ok());
}

#[test]
fn sample_rate_error_message() {
    let e = SampleRate::try_from_bits(0).unwrap_err();
    assert_eq!(e.message(), "Sample rate must be normal and positive");
}

#[test]
fn counts_must_be_positive() {
    assert!(ChannelCount::new(0).is_none());
    assert_eq!(ChannelCount::new(2).unwrap().get(), 2);
    assert!(BufferSize::new(0).is_none());
    assert_eq!(BufferSize::new(256).unwrap().get(), 256);
}

#[test]
fn standard_format() {
    let f = Format::standard();
    assert_eq!(f64::from_bits(f.sample_rate.get()), 48000.0);
    assert_eq!(f.channel_count.get(), 1);
    assert_eq!(f.buffer_size.unwrap().get(), 32);
    assert_eq!(f.sample_type, SampleType::IEEF32);
    assert_eq!(Format::default(), f);
}

#[test]
fn chunk_sizes() {
    let f = Format {
        sample_rate: rate(48000.0),
        channel_count: ChannelCount::new(2).unwrap(),
        buffer_size: Some(BufferSize::new(512).unwrap()),
        sample_type: SampleType::I24,
    };
    assert_eq!(f.chunk_size_samples(), Some(1024));
    assert_eq!(f.chunk_size_bytes(), Some(3072));
    assert_eq!(Format::standard().chunk_size_samples(), Some(32));
    assert_eq!(Format::standard().chunk_size_bytes(), Some(128));
}

#[test]
fn chunk_sizes_without_buffer_size_or_overflowing() {
    let none = Format { buffer_size: None, ..Format::standard() };
    assert_eq!(none.chunk_size_samples(), None);
    assert_eq!(none.chunk_size_bytes(), None);
    let big = Format {
        channel_count: ChannelCount::new(1 << 20).unwrap(),
        buffer_size: Some(BufferSize::new(1 << 12).unwrap()),
        ..Format::standard()
    };
    assert_eq!(big.chunk_size_samples(), None);
    let almost = Format {
        channel_count: ChannelCount::new(1 << 20).unwrap(),
        buffer_size: Some(BufferSize::new(1 << 11).unwrap()),
        sample_type: SampleType::IEEF64,
        ..Format::standard()
    };
    assert_eq!(almost.chunk_size_samples(), Some(1 << 31));
    assert_eq!(almost.chunk_size_bytes(), None);
}

#[test]
fn default_stream_formats_are_empty() {
    let s = StreamFormats::default();
    assert!(s.inputs.is_empty());
    assert!(s.outputs.is_empty());
}
