//! The byte encoding of protocol messages.
//!
//! A message is its flat form: the variant index as a varint, followed by the
//! variant's fields. Audio header fields are fixed-size little-endian integers;
//! counts are varints; a sample rate is the 8-byte little-endian bit pattern
//! of its `f64` value; an optional buffer size is a 0/1 tag byte followed by
//! the value; a list of formats is its length followed by its elements.

use vstd::prelude::*;
use crate::codec::{
    DecodeError, EncodeError, U32_VARINT_BYTES, U32_VARINT_LAST_MAX, U64_VARINT_BYTES,
    U64_VARINT_LAST_MAX, byte_bound, holds_at, le_bytes, le_value, lemma_byte_bounds,
    lemma_holds_at_concat, lemma_le_bytes_len, lemma_le_roundtrip, lemma_varint_bounds,
    lemma_varint_roundtrip, parse_le, parse_varint, read_le, read_varint, varint_bound,
    varint_encoding, write_le, write_varint,
};
use crate::format::{BufferSize, ChannelCount, Format, SampleRate, SampleType, StreamFormats, sample_rate_bits_valid};
use crate::message::{Client, Server};
use crate::io::{ByteWrite, write_all};
use crate::wire::{ClientMessageFlat, ServerMessageFlat, client_from_flat, client_to_flat, server_from_flat, server_to_flat};

verus! {

/// The content of a flat server message, with format lists as sequences.
pub ghost enum ServerFlatView {
    Connect(Seq<Format>, Seq<Format>),
    StartIOFailed,
    StartIORefused,
    StartIOSuccess,
    StopIOFailed,
    StopIORefused,
    StopIOSuccess,
    AudioHeader { stream_idx: u32, byte_idx: u64, n_bytes: u32 },
    Disconnect,
}

impl View for ServerMessageFlat {
    type V = ServerFlatView;

    open spec fn view(&self) -> ServerFlatView {
        match *self {
            ServerMessageFlat::Connect(f) => ServerFlatView::Connect(f.inputs@, f.outputs@),
            ServerMessageFlat::StartIOFailed => ServerFlatView::StartIOFailed,
            ServerMessageFlat::StartIORefused => ServerFlatView::StartIORefused,
            ServerMessageFlat::StartIOSuccess => ServerFlatView::StartIOSuccess,
            ServerMessageFlat::StopIOFailed => ServerFlatView::StopIOFailed,
            ServerMessageFlat::StopIORefused => ServerFlatView::StopIORefused,
            ServerMessageFlat::StopIOSuccess => ServerFlatView::StopIOSuccess,
            ServerMessageFlat::AudioHeader { stream_idx, byte_idx, n_bytes } =>
                ServerFlatView::AudioHeader { stream_idx, byte_idx, n_bytes },
            ServerMessageFlat::Disconnect => ServerFlatView::Disconnect,
        }
    }
}

/// Every format of the list is valid.
pub open spec fn formats_wf(l: Seq<Format>) -> bool {
    forall|i: int| 0 <= i < l.len() ==> (#[trigger] l[i]).wf()
}

impl ServerFlatView {
    /// Every format it carries is valid.
    pub open spec fn wf(self) -> bool {
        self matches ServerFlatView::Connect(i, o) ==> formats_wf(i) && formats_wf(o)
    }
}

// ---------------------------------------------------------------- specification

/// The index of a sample type on the wire (its declaration order).
pub open spec fn sample_type_index(t: SampleType) -> nat {
    match t {
        SampleType::U8 => 0,
        SampleType::U16 => 1,
        SampleType::U24 => 2,
        SampleType::U32 => 3,
        SampleType::U64 => 4,
        SampleType::I8 => 5,
        SampleType::I16 => 6,
        SampleType::I24 => 7,
        SampleType::I32 => 8,
        SampleType::I64 => 9,
        SampleType::IEEF32 => 10,
        SampleType::IEEF64 => 11,
    }
}

/// The sample type with a given wire index.
pub open spec fn sample_type_of_index(i: nat) -> Option<SampleType> {
    if i == 0 { Some(SampleType::U8) }
    else if i == 1 { Some(SampleType::U16) }
    else if i == 2 { Some(SampleType::U24) }
    else if i == 3 { Some(SampleType::U32) }
    else if i == 4 { Some(SampleType::U64) }
    else if i == 5 { Some(SampleType::I8) }
    else if i == 6 { Some(SampleType::I16) }
    else if i == 7 { Some(SampleType::I24) }
    else if i == 8 { Some(SampleType::I32) }
    else if i == 9 { Some(SampleType::I64) }
    else if i == 10 { Some(SampleType::IEEF32) }
    else if i == 11 { Some(SampleType::IEEF64) }
    else { None }
}

/// The bytes of an optional buffer size: a tag, then the size as a varint.
pub open spec fn ser_buffer_size(b: Option<BufferSize>) -> Seq<u8> {
    match b {
        None => seq![0u8],
        Some(b) => seq![1u8] + varint_encoding(b.spec_get() as nat),
    }
}

/// The bytes of a format: the sample rate's eight little-endian bytes, the
/// channel count, the buffer size, and the sample type's index.
pub open spec fn ser_format(f: Format) -> Seq<u8> {
    le_bytes(f.sample_rate.spec_bits() as nat, 8)
        + varint_encoding(f.channel_count.spec_get() as nat)
        + ser_buffer_size(f.buffer_size)
        + varint_encoding(sample_type_index(f.sample_type))
}

/// The bytes of a list of formats, one after the other.
pub open spec fn ser_format_list(l: Seq<Format>) -> Seq<u8>
    decreases l.len(),
{
    if l.len() == 0 {
        Seq::empty()
    } else {
        ser_format(l[0]) + ser_format_list(l.drop_first())
    }
}

/// The bytes of stream formats: each list preceded by its length.
pub open spec fn ser_stream_formats(inputs: Seq<Format>, outputs: Seq<Format>) -> Seq<u8> {
    varint_encoding(inputs.len()) + ser_format_list(inputs) + varint_encoding(outputs.len())
        + ser_format_list(outputs)
}

/// The bytes of an audio header: fixed-width little-endian fields.
pub open spec fn ser_audio_header(stream_idx: u32, byte_idx: u64, n_bytes: u32) -> Seq<u8> {
    le_bytes(stream_idx as nat, 4) + le_bytes(byte_idx as nat, 8) + le_bytes(n_bytes as nat, 4)
}

/// The bytes of a flat client message.
pub open spec fn ser_client_flat(m: ClientMessageFlat) -> Seq<u8> {
    match m {
        ClientMessageFlat::Discovery => varint_encoding(0),
        ClientMessageFlat::ConnectionSuccess => varint_encoding(1),
        ClientMessageFlat::ConnectionFailed => varint_encoding(2),
        ClientMessageFlat::ConnectionRefused => varint_encoding(3),
        ClientMessageFlat::StartIO => varint_encoding(4),
        ClientMessageFlat::StopIO => varint_encoding(5),
        ClientMessageFlat::AudioHeader { stream_idx, byte_idx, n_bytes } =>
            varint_encoding(6) + ser_audio_header(stream_idx, byte_idx, n_bytes),
        ClientMessageFlat::Disconnect => varint_encoding(7),
    }
}

/// The bytes of a flat server message.
pub open spec fn ser_server_flat(m: ServerFlatView) -> Seq<u8> {
    match m {
        ServerFlatView::Connect(i, o) => varint_encoding(0) + ser_stream_formats(i, o),
        ServerFlatView::StartIOFailed => varint_encoding(1),
        ServerFlatView::StartIORefused => varint_encoding(2),
        ServerFlatView::StartIOSuccess => varint_encoding(3),
        ServerFlatView::StopIOFailed => varint_encoding(4),
        ServerFlatView::StopIORefused => varint_encoding(5),
        ServerFlatView::StopIOSuccess => varint_encoding(6),
        ServerFlatView::AudioHeader { stream_idx, byte_idx, n_bytes } =>
            varint_encoding(7) + ser_audio_header(stream_idx, byte_idx, n_bytes),
        ServerFlatView::Disconnect => varint_encoding(8),
    }
}

/// Reads a `u32` varint at `pos`.
pub open spec fn parse_u32_varint(s: Seq<u8>, pos: int) -> Result<(nat, int), DecodeError> {
    parse_varint(s, pos, U32_VARINT_BYTES as nat, U32_VARINT_LAST_MAX as nat)
}

/// Reads a length (a `u64` varint) at `pos`.
pub open spec fn parse_len_varint(s: Seq<u8>, pos: int) -> Result<(nat, int), DecodeError> {
    parse_varint(s, pos, U64_VARINT_BYTES as nat, U64_VARINT_LAST_MAX as nat)
}

/// Reads an optional buffer size at `pos`.
pub open spec fn parse_buffer_size(s: Seq<u8>, pos: int) -> Result<(Option<BufferSize>, int), DecodeError> {
    if pos < 0 || pos >= s.len() {
        Err(DecodeError::UnexpectedEnd)
    } else if s[pos] == 0 {
        Ok((None, pos + 1))
    } else if s[pos] == 1 {
        match parse_u32_varint(s, pos + 1) {
            Err(e) => Err(e),
            Ok((v, p)) => if v == 0 {
                Err(DecodeError::BadValue)
            } else {
                Ok((Some(BufferSize { frames: v as u32 }), p))
            },
        }
    } else {
        Err(DecodeError::BadOption)
    }
}

/// Reads a format at `pos`.
pub open spec fn parse_format(s: Seq<u8>, pos: int) -> Result<(Format, int), DecodeError> {
    match parse_le(s, pos, 8) {
        Err(e) => Err(e),
        Ok((bits, p1)) => if !sample_rate_bits_valid(bits as u64) {
            Err(DecodeError::BadValue)
        } else {
            match parse_u32_varint(s, p1) {
                Err(e) => Err(e),
                Ok((ch, p2)) => if ch == 0 {
                    Err(DecodeError::BadValue)
                } else {
                    match parse_buffer_size(s, p2) {
                        Err(e) => Err(e),
                        Ok((bs, p3)) => match parse_u32_varint(s, p3) {
                            Err(e) => Err(e),
                            Ok((ti, p4)) => match sample_type_of_index(ti) {
                                None => Err(DecodeError::BadVariant),
                                Some(t) => Ok((
                                    Format {
                                        sample_rate: SampleRate::from_bits_spec(bits as u64),
                                        channel_count: ChannelCount { count: ch as u32 },
                                        buffer_size: bs,
                                        sample_type: t,
                                    },
                                    p4,
                                )),
                            },
                        },
                    }
                },
            }
        },
    }
}

/// Reads `n` more formats, appending them to `acc`.
pub open spec fn parse_format_list(s: Seq<u8>, pos: int, n: nat, acc: Seq<Format>) -> Result<(Seq<Format>, int), DecodeError>
    decreases n,
{
    if n == 0 {
        Ok((acc, pos))
    } else {
        match parse_format(s, pos) {
            Err(e) => Err(e),
            Ok((f, p)) => parse_format_list(s, p, (n - 1) as nat, acc.push(f)),
        }
    }
}

/// Reads stream formats at `pos`.
pub open spec fn parse_stream_formats(s: Seq<u8>, pos: int) -> Result<((Seq<Format>, Seq<Format>), int), DecodeError> {
    match parse_len_varint(s, pos) {
        Err(e) => Err(e),
        Ok((ni, p1)) => match parse_format_list(s, p1, ni, Seq::empty()) {
            Err(e) => Err(e),
            Ok((inputs, p2)) => match parse_len_varint(s, p2) {
                Err(e) => Err(e),
                Ok((no, p3)) => match parse_format_list(s, p3, no, Seq::empty()) {
                    Err(e) => Err(e),
                    Ok((outputs, p4)) => Ok(((inputs, outputs), p4)),
                },
            },
        },
    }
}

/// Reads an audio header at `pos`.
pub open spec fn parse_audio_header(s: Seq<u8>, pos: int) -> Result<((u32, u64, u32), int), DecodeError> {
    match parse_le(s, pos, 4) {
        Err(e) => Err(e),
        Ok((a, p1)) => match parse_le(s, p1, 8) {
            Err(e) => Err(e),
            Ok((b, p2)) => match parse_le(s, p2, 4) {
                Err(e) => Err(e),
                Ok((c, p3)) => Ok(((a as u32, b as u64, c as u32), p3)),
            },
        },
    }
}

/// Reads a flat client message at `pos`: the message and the position after it.
pub open spec fn parse_client_flat(s: Seq<u8>, pos: int) -> Result<(ClientMessageFlat, int), DecodeError> {
    match parse_u32_varint(s, pos) {
        Err(e) => Err(e),
        Ok((i, p)) => if i == 0 {
            Ok((ClientMessageFlat::Discovery, p))
        } else if i == 1 {
            Ok((ClientMessageFlat::ConnectionSuccess, p))
        } else if i == 2 {
            Ok((ClientMessageFlat::ConnectionFailed, p))
        } else if i == 3 {
            Ok((ClientMessageFlat::ConnectionRefused, p))
        } else if i == 4 {
            Ok((ClientMessageFlat::StartIO, p))
        } else if i == 5 {
            Ok((ClientMessageFlat::StopIO, p))
        } else if i == 6 {
            match parse_audio_header(s, p) {
                Err(e) => Err(e),
                Ok(((a, b, c), q)) => Ok((
                    ClientMessageFlat::AudioHeader { stream_idx: a, byte_idx: b, n_bytes: c },
                    q,
                )),
            }
        } else if i == 7 {
            Ok((ClientMessageFlat::Disconnect, p))
        } else {
            Err(DecodeError::BadVariant)
        }
    }
}

/// Reads a flat server message at `pos`: the message and the position after it.
pub open spec fn parse_server_flat(s: Seq<u8>, pos: int) -> Result<(ServerFlatView, int), DecodeError> {
    match parse_u32_varint(s, pos) {
        Err(e) => Err(e),
        Ok((i, p)) => if i == 0 {
            match parse_stream_formats(s, p) {
                Err(e) => Err(e),
                Ok(((inputs, outputs), q)) => Ok((ServerFlatView::Connect(inputs, outputs), q)),
            }
        } else if i == 1 {
            Ok((ServerFlatView::StartIOFailed, p))
        } else if i == 2 {
            Ok((ServerFlatView::StartIORefused, p))
        } else if i == 3 {
            Ok((ServerFlatView::StartIOSuccess, p))
        } else if i == 4 {
            Ok((ServerFlatView::StopIOFailed, p))
        } else if i == 5 {
            Ok((ServerFlatView::StopIORefused, p))
        } else if i == 6 {
            Ok((ServerFlatView::StopIOSuccess, p))
        } else if i == 7 {
            match parse_audio_header(s, p) {
                Err(e) => Err(e),
                Ok(((a, b, c), q)) => Ok((
                    ServerFlatView::AudioHeader { stream_idx: a, byte_idx: b, n_bytes: c },
                    q,
                )),
            }
        } else if i == 8 {
            Ok((ServerFlatView::Disconnect, p))
        } else {
            Err(DecodeError::BadVariant)
        }
    }
}


// ---------------------------------------------------------------- laws

/// Splits a four-part concatenation held at `pos` into its parts.
pub proof fn lemma_holds_at_concat4(s: Seq<u8>, pos: int, a: Seq<u8>, b: Seq<u8>, c: Seq<u8>, d: Seq<u8>)
    requires
        holds_at(s, pos, a + b + c + d),
    ensures
        holds_at(s, pos, a),
        holds_at(s, pos + a.len(), b),
        holds_at(s, pos + a.len() + b.len(), c),
        holds_at(s, pos + a.len() + b.len() + c.len(), d),
{
    lemma_holds_at_concat(s, pos, a + b + c, d);
    lemma_holds_at_concat(s, pos, a + b, c);
    lemma_holds_at_concat(s, pos, a, b);
}

/// A sample type's index names it back.
pub proof fn lemma_sample_type_index(t: SampleType)
    ensures
        sample_type_of_index(sample_type_index(t)) == Some(t),
        sample_type_index(t) < 128,
{
}

/// The sample types in the order in which they are declared.
pub open spec fn sample_types_in_declaration_order() -> Seq<SampleType> {
    seq![
        SampleType::U8, SampleType::U16, SampleType::U24, SampleType::U32, SampleType::U64,
        SampleType::I8, SampleType::I16, SampleType::I24, SampleType::I32, SampleType::I64,
        SampleType::IEEF32, SampleType::IEEF64,
    ]
}

/// On the wire a sample type is its position in the declaration: each type's
/// index is the position where it is declared, each position decodes to the
/// type declared there, and no index past the last position decodes.
pub proof fn law_sample_type_wire_index(t: SampleType, i: nat)
    ensures
        sample_type_index(t) < sample_types_in_declaration_order().len(),
        sample_types_in_declaration_order()[sample_type_index(t) as int] == t,
        i < sample_types_in_declaration_order().len() ==> sample_type_of_index(i) == Some(sample_types_in_declaration_order()[i as int]),
        i >= sample_types_in_declaration_order().len() ==> sample_type_of_index(i) is None,
{
    assert(sample_types_in_declaration_order().len() == 12);
}

/// A format's bytes end with one byte: the position at which its sample
/// type is declared.
pub proof fn law_format_ends_with_sample_type(f: Format)
    ensures
        ser_format(f).len() > 0,
        ser_format(f).last() < sample_types_in_declaration_order().len(),
        sample_types_in_declaration_order()[ser_format(f).last() as int] == f.sample_type,
{
    law_sample_type_wire_index(f.sample_type, 0);
    let k = sample_type_index(f.sample_type);
    assert(varint_encoding(k) == seq![k as u8]);
    let pre = le_bytes(f.sample_rate.spec_bits() as nat, 8)
        + varint_encoding(f.channel_count.spec_get() as nat)
        + ser_buffer_size(f.buffer_size);
    assert(ser_format(f) == pre + seq![k as u8]);
    assert(ser_format(f).last() == k as u8);
}

/// An optional buffer size reads back from its bytes.
pub proof fn lemma_buffer_size_roundtrip(s: Seq<u8>, pos: int, b: Option<BufferSize>)
    requires
        holds_at(s, pos, ser_buffer_size(b)),
        b matches Some(x) ==> x.wf(),
    ensures
        parse_buffer_size(s, pos) == Ok::<(Option<BufferSize>, int), DecodeError>((b, pos + ser_buffer_size(b).len())),
{
    lemma_varint_bounds();
    match b {
        None => {
            assert(s.subrange(pos, pos + 1)[0] == s[pos]);
        },
        Some(x) => {
            let t = varint_encoding(x.spec_get() as nat);
            lemma_holds_at_concat(s, pos, seq![1u8], t);
            assert(s.subrange(pos, pos + 1)[0] == s[pos]);
            lemma_varint_roundtrip(s, pos + 1, x.spec_get() as nat, U32_VARINT_BYTES as nat, U32_VARINT_LAST_MAX as nat);
        },
    }
}

/// Decoding the encoding of a valid format gives the format back.
pub proof fn lemma_format_roundtrip(s: Seq<u8>, pos: int, f: Format)
    requires
        holds_at(s, pos, ser_format(f)),
        f.wf(),
    ensures
        parse_format(s, pos) == Ok::<(Format, int), DecodeError>((f, pos + ser_format(f).len())),
{
    let a = le_bytes(f.sample_rate.spec_bits() as nat, 8);
    let b = varint_encoding(f.channel_count.spec_get() as nat);
    let c = ser_buffer_size(f.buffer_size);
    let d = varint_encoding(sample_type_index(f.sample_type));
    lemma_holds_at_concat4(s, pos, a, b, c, d);
    lemma_byte_bounds();
    lemma_varint_bounds();
    lemma_le_roundtrip(s, pos, f.sample_rate.spec_bits() as nat, 8);
    lemma_le_bytes_len(f.sample_rate.spec_bits() as nat, 8);
    f.sample_rate.lemma_bits(f.sample_rate.spec_bits());
    lemma_varint_roundtrip(s, pos + 8, f.channel_count.spec_get() as nat, U32_VARINT_BYTES as nat, U32_VARINT_LAST_MAX as nat);
    lemma_buffer_size_roundtrip(s, pos + a.len() + b.len(), f.buffer_size);
    lemma_sample_type_index(f.sample_type);
    lemma_varint_roundtrip(s, pos + a.len() + b.len() + c.len(), sample_type_index(f.sample_type), U32_VARINT_BYTES as nat, U32_VARINT_LAST_MAX as nat);
}

/// The bytes of a list with one more format end with that format's bytes.
pub proof fn lemma_ser_format_list_push(l: Seq<Format>, f: Format)
    ensures
        ser_format_list(l.push(f)) == ser_format_list(l) + ser_format(f),
    decreases l.len(),
{
    if l.len() == 0 {
        assert(l.push(f).drop_first() =~= Seq::<Format>::empty());
        assert(l.push(f)[0] == f);
        assert(ser_format_list(Seq::<Format>::empty()) == Seq::<u8>::empty());
        assert(ser_format_list(l.push(f)) == ser_format(f) + ser_format_list(Seq::<Format>::empty()));
        assert(ser_format_list(l.push(f)) =~= ser_format_list(l) + ser_format(f));
    } else {
        assert(l.push(f).drop_first() =~= l.drop_first().push(f));
        assert(l.push(f)[0] == l[0]);
        lemma_ser_format_list_push(l.drop_first(), f);
        assert(ser_format_list(l.push(f)) == ser_format(l[0]) + ser_format_list(l.drop_first().push(f)));
        assert(ser_format_list(l.push(f)) =~= ser_format_list(l) + ser_format(f));
    }
}

/// A list of formats reads back from its bytes.
pub proof fn lemma_format_list_roundtrip(s: Seq<u8>, pos: int, l: Seq<Format>, acc: Seq<Format>)
    requires
        holds_at(s, pos, ser_format_list(l)),
        formats_wf(l),
    ensures
        parse_format_list(s, pos, l.len(), acc) == Ok::<(Seq<Format>, int), DecodeError>((acc + l, pos + ser_format_list(l).len())),
    decreases l.len(),
{
    if l.len() == 0 {
        assert(acc + l =~= acc);
    } else {
        let rest = l.drop_first();
        lemma_holds_at_concat(s, pos, ser_format(l[0]), ser_format_list(rest));
        lemma_format_roundtrip(s, pos, l[0]);
        assert forall|i: int| 0 <= i < rest.len() implies (#[trigger] rest[i]).wf() by {
            assert(rest[i] == l[i + 1]);
        }
        lemma_format_list_roundtrip(s, pos + ser_format(l[0]).len(), rest, acc.push(l[0]));
        assert(acc.push(l[0]) + rest =~= acc + l);
    }
}

/// Stream formats read back from their bytes.
pub proof fn lemma_stream_formats_roundtrip(s: Seq<u8>, pos: int, i: Seq<Format>, o: Seq<Format>)
    requires
        holds_at(s, pos, ser_stream_formats(i, o)),
        formats_wf(i),
        formats_wf(o),
        i.len() <= u64::MAX,
        o.len() <= u64::MAX,
    ensures
        parse_stream_formats(s, pos) == Ok::<((Seq<Format>, Seq<Format>), int), DecodeError>(((i, o), pos + ser_stream_formats(i, o).len())),
{
    let a = varint_encoding(i.len());
    let b = ser_format_list(i);
    let c = varint_encoding(o.len());
    let d = ser_format_list(o);
    lemma_holds_at_concat4(s, pos, a, b, c, d);
    lemma_varint_bounds();
    lemma_varint_roundtrip(s, pos, i.len(), U64_VARINT_BYTES as nat, U64_VARINT_LAST_MAX as nat);
    lemma_format_list_roundtrip(s, pos + a.len(), i, Seq::empty());
    assert(Seq::<Format>::empty() + i =~= i);
    lemma_varint_roundtrip(s, pos + a.len() + b.len(), o.len(), U64_VARINT_BYTES as nat, U64_VARINT_LAST_MAX as nat);
    lemma_format_list_roundtrip(s, pos + a.len() + b.len() + c.len(), o, Seq::empty());
    assert(Seq::<Format>::empty() + o =~= o);
}

/// An audio header reads back from its bytes.
pub proof fn lemma_audio_header_roundtrip(s: Seq<u8>, pos: int, a: u32, b: u64, c: u32)
    requires
        holds_at(s, pos, ser_audio_header(a, b, c)),
    ensures
        parse_audio_header(s, pos) == Ok::<((u32, u64, u32), int), DecodeError>(((a, b, c), pos + 16)),
        ser_audio_header(a, b, c).len() == 16,
{
    let x = le_bytes(a as nat, 4);
    let y = le_bytes(b as nat, 8);
    let z = le_bytes(c as nat, 4);
    lemma_holds_at_concat(s, pos, x + y, z);
    lemma_holds_at_concat(s, pos, x, y);
    lemma_le_bytes_len(a as nat, 4);
    lemma_le_bytes_len(b as nat, 8);
    lemma_le_bytes_len(c as nat, 4);
    lemma_byte_bounds();
    lemma_le_roundtrip(s, pos, a as nat, 4);
    lemma_le_roundtrip(s, pos + 4, b as nat, 8);
    lemma_le_roundtrip(s, pos + 12, c as nat, 4);
}

/// Decoding the bytes of a flat client message gives the message back and
/// stops right after it, whatever follows.
pub proof fn lemma_client_flat_wire_roundtrip(s: Seq<u8>, pos: int, m: ClientMessageFlat)
    requires
        holds_at(s, pos, ser_client_flat(m)),
    ensures
        parse_client_flat(s, pos) == Ok::<(ClientMessageFlat, int), DecodeError>((m, pos + ser_client_flat(m).len())),
{
    lemma_varint_bounds();
    match m {
        ClientMessageFlat::AudioHeader { stream_idx, byte_idx, n_bytes } => {
            lemma_holds_at_concat(s, pos, varint_encoding(6), ser_audio_header(stream_idx, byte_idx, n_bytes));
            lemma_varint_roundtrip(s, pos, 6, U32_VARINT_BYTES as nat, U32_VARINT_LAST_MAX as nat);
            lemma_audio_header_roundtrip(s, pos + 1, stream_idx, byte_idx, n_bytes);
        },
        _ => {
            let i: nat = match m {
                ClientMessageFlat::Discovery => 0,
                ClientMessageFlat::ConnectionSuccess => 1,
                ClientMessageFlat::ConnectionFailed => 2,
                ClientMessageFlat::ConnectionRefused => 3,
                ClientMessageFlat::StartIO => 4,
                ClientMessageFlat::StopIO => 5,
                _ => 7,
            };
            lemma_varint_roundtrip(s, pos, i, U32_VARINT_BYTES as nat, U32_VARINT_LAST_MAX as nat);
        },
    }
}

/// Decoding the bytes of a valid flat server message gives the message back
/// and stops right after it, whatever follows.
pub proof fn lemma_server_flat_wire_roundtrip(s: Seq<u8>, pos: int, m: ServerFlatView)
    requires
        holds_at(s, pos, ser_server_flat(m)),
        m.wf(),
        m matches ServerFlatView::Connect(i, o) ==> i.len() <= u64::MAX && o.len() <= u64::MAX,
    ensures
        parse_server_flat(s, pos) == Ok::<(ServerFlatView, int), DecodeError>((m, pos + ser_server_flat(m).len())),
{
    lemma_varint_bounds();
    match m {
        ServerFlatView::Connect(i, o) => {
            lemma_holds_at_concat(s, pos, varint_encoding(0), ser_stream_formats(i, o));
            lemma_varint_roundtrip(s, pos, 0, U32_VARINT_BYTES as nat, U32_VARINT_LAST_MAX as nat);
            lemma_stream_formats_roundtrip(s, pos + 1, i, o);
        },
        ServerFlatView::AudioHeader { stream_idx, byte_idx, n_bytes } => {
            lemma_holds_at_concat(s, pos, varint_encoding(7), ser_audio_header(stream_idx, byte_idx, n_bytes));
            lemma_varint_roundtrip(s, pos, 7, U32_VARINT_BYTES as nat, U32_VARINT_LAST_MAX as nat);
            lemma_audio_header_roundtrip(s, pos + 1, stream_idx, byte_idx, n_bytes);
        },
        _ => {
            let i: nat = match m {
                ServerFlatView::StartIOFailed => 1,
                ServerFlatView::StartIORefused => 2,
                ServerFlatView::StartIOSuccess => 3,
                ServerFlatView::StopIOFailed => 4,
                ServerFlatView::StopIORefused => 5,
                ServerFlatView::StopIOSuccess => 6,
                _ => 8,
            };
            lemma_varint_roundtrip(s, pos, i, U32_VARINT_BYTES as nat, U32_VARINT_LAST_MAX as nat);
        },
    }
}


// ---------------------------------------------------------------- encoders and decoders

fn sample_type_to_index(t: SampleType) -> (r: u64)
    ensures
        r == sample_type_index(t),
{
    match t {
        SampleType::U8 => 0,
        SampleType::U16 => 1,
        SampleType::U24 => 2,
        SampleType::U32 => 3,
        SampleType::U64 => 4,
        SampleType::I8 => 5,
        SampleType::I16 => 6,
        SampleType::I24 => 7,
        SampleType::I32 => 8,
        SampleType::I64 => 9,
        SampleType::IEEF32 => 10,
        SampleType::IEEF64 => 11,
    }
}

fn sample_type_from_index(i: u64) -> (r: Option<SampleType>)
    ensures
        r == sample_type_of_index(i as nat),
{
    if i == 0 { Some(SampleType::U8) }
    else if i == 1 { Some(SampleType::U16) }
    else if i == 2 { Some(SampleType::U24) }
    else if i == 3 { Some(SampleType::U32) }
    else if i == 4 { Some(SampleType::U64) }
    else if i == 5 { Some(SampleType::I8) }
    else if i == 6 { Some(SampleType::I16) }
    else if i == 7 { Some(SampleType::I24) }
    else if i == 8 { Some(SampleType::I32) }
    else if i == 9 { Some(SampleType::I64) }
    else if i == 10 { Some(SampleType::IEEF32) }
    else if i == 11 { Some(SampleType::IEEF64) }
    else { None }
}

/// Appends the bytes of a format.
pub fn encode_format(f: &Format, out: &mut Vec<u8>)
    ensures
        final(out)@ == old(out)@ + ser_format(*f),
{
    write_le(out, f.sample_rate.get(), 8);
    write_varint(out, f.channel_count.get() as u64);
    match f.buffer_size {
        None => {
            out.push(0u8);
        },
        Some(b) => {
            out.push(1u8);
            write_varint(out, b.get() as u64);
        },
    }
    write_varint(out, sample_type_to_index(f.sample_type));
    proof {
        assert(final(out)@ =~= old(out)@ + ser_format(*f));
    }
}

/// Appends the bytes of a list of formats (without its length).
pub fn encode_format_list(l: &Vec<Format>, out: &mut Vec<u8>)
    ensures
        final(out)@ == old(out)@ + ser_format_list(l@),
{
    let mut i: usize = 0;
    proof {
        assert(l@.subrange(0, 0) =~= Seq::<Format>::empty());
        assert(out@ =~= old(out)@ + ser_format_list(l@.subrange(0, 0)));
    }
    while i < l.len()
        invariant
            i <= l@.len(),
            out@ == old(out)@ + ser_format_list(l@.subrange(0, i as int)),
        decreases l@.len() - i,
    {
        encode_format(&l[i], out);
        proof {
            assert(l@.subrange(0, i + 1) =~= l@.subrange(0, i as int).push(l@[i as int]));
            lemma_ser_format_list_push(l@.subrange(0, i as int), l@[i as int]);
            assert(out@ =~= old(out)@ + ser_format_list(l@.subrange(0, i + 1)));
        }
        i = i + 1;
    }
    proof {
        assert(l@.subrange(0, l@.len() as int) =~= l@);
    }
}

/// Appends the bytes of a server's stream formats.
pub fn encode_stream_formats(f: &StreamFormats, out: &mut Vec<u8>)
    ensures
        final(out)@ == old(out)@ + ser_stream_formats(f.inputs@, f.outputs@),
{
    write_varint(out, f.inputs.len() as u64);
    encode_format_list(&f.inputs, out);
    write_varint(out, f.outputs.len() as u64);
    encode_format_list(&f.outputs, out);
    proof {
        assert(final(out)@ =~= old(out)@ + ser_stream_formats(f.inputs@, f.outputs@));
    }
}

fn encode_audio_header(stream_idx: u32, byte_idx: u64, n_bytes: u32, out: &mut Vec<u8>)
    ensures
        final(out)@ == old(out)@ + ser_audio_header(stream_idx, byte_idx, n_bytes),
{
    write_le(out, stream_idx as u64, 4);
    write_le(out, byte_idx, 8);
    write_le(out, n_bytes as u64, 4);
    proof {
        assert(final(out)@ =~= old(out)@ + ser_audio_header(stream_idx, byte_idx, n_bytes));
    }
}

/// Appends the bytes of a flat client message.
pub fn encode_client_flat(m: &ClientMessageFlat, out: &mut Vec<u8>)
    ensures
        final(out)@ == old(out)@ + ser_client_flat(*m),
{
    match *m {
        ClientMessageFlat::Discovery => write_varint(out, 0),
        ClientMessageFlat::ConnectionSuccess => write_varint(out, 1),
        ClientMessageFlat::ConnectionFailed => write_varint(out, 2),
        ClientMessageFlat::ConnectionRefused => write_varint(out, 3),
        ClientMessageFlat::StartIO => write_varint(out, 4),
        ClientMessageFlat::StopIO => write_varint(out, 5),
        ClientMessageFlat::AudioHeader { stream_idx, byte_idx, n_bytes } => {
            write_varint(out, 6);
            encode_audio_header(stream_idx, byte_idx, n_bytes, out);
            proof {
                assert(final(out)@ =~= old(out)@ + ser_client_flat(*m));
            }
        },
        ClientMessageFlat::Disconnect => write_varint(out, 7),
    }
}

/// Appends the bytes of a flat server message.
pub fn encode_server_flat(m: &ServerMessageFlat, out: &mut Vec<u8>)
    ensures
        final(out)@ == old(out)@ + ser_server_flat(m@),
{
    match m {
        ServerMessageFlat::Connect(f) => {
            write_varint(out, 0);
            encode_stream_formats(f, out);
            proof {
                assert(final(out)@ =~= old(out)@ + ser_server_flat(m@));
            }
        },
        ServerMessageFlat::StartIOFailed => write_varint(out, 1),
        ServerMessageFlat::StartIORefused => write_varint(out, 2),
        ServerMessageFlat::StartIOSuccess => write_varint(out, 3),
        ServerMessageFlat::StopIOFailed => write_varint(out, 4),
        ServerMessageFlat::StopIORefused => write_varint(out, 5),
        ServerMessageFlat::StopIOSuccess => write_varint(out, 6),
        ServerMessageFlat::AudioHeader { stream_idx, byte_idx, n_bytes } => {
            write_varint(out, 7);
            encode_audio_header(*stream_idx, *byte_idx, *n_bytes, out);
            proof {
                assert(final(out)@ =~= old(out)@ + ser_server_flat(m@));
            }
        },
        ServerMessageFlat::Disconnect => write_varint(out, 8),
    }
}

/// Reads a `u32` varint.
fn read_u32_varint(s: &[u8], pos: usize) -> (r: Result<(u64, usize), DecodeError>)
    ensures
        match parse_u32_varint(s@, pos as int) {
            Ok((v, p)) => r == Ok::<(u64, usize), DecodeError>((v as u64, p as usize)) && v <= u32::MAX && pos < p <= s.len(),
            Err(e) => r == Err::<(u64, usize), DecodeError>(e),
        },
{
    proof {
        lemma_varint_bounds();
    }
    read_varint(s, pos, U32_VARINT_BYTES, U32_VARINT_LAST_MAX)
}

/// Reads a length varint.
fn read_len_varint(s: &[u8], pos: usize) -> (r: Result<(u64, usize), DecodeError>)
    ensures
        match parse_len_varint(s@, pos as int) {
            Ok((v, p)) => r == Ok::<(u64, usize), DecodeError>((v as u64, p as usize)) && v <= u64::MAX && pos < p <= s.len(),
            Err(e) => r == Err::<(u64, usize), DecodeError>(e),
        },
{
    proof {
        lemma_varint_bounds();
    }
    read_varint(s, pos, U64_VARINT_BYTES, U64_VARINT_LAST_MAX)
}

fn read_buffer_size(s: &[u8], pos: usize) -> (r: Result<(Option<BufferSize>, usize), DecodeError>)
    ensures
        match parse_buffer_size(s@, pos as int) {
            Ok((b, p)) => r == Ok::<(Option<BufferSize>, usize), DecodeError>((b, p as usize)) && pos < p <= s.len(),
            Err(e) => r == Err::<(Option<BufferSize>, usize), DecodeError>(e),
        },
{
    if pos >= s.len() {
        return Err(DecodeError::UnexpectedEnd);
    }
    let tag = s[pos];
    if tag == 0 {
        Ok((None, pos + 1))
    } else if tag == 1 {
        match read_u32_varint(s, pos + 1) {
            Err(e) => Err(e),
            Ok((v, p)) => {
                if v == 0 {
                    Err(DecodeError::BadValue)
                } else {
                    Ok((Some(BufferSize { frames: v as u32 }), p))
                }
            },
        }
    } else {
        Err(DecodeError::BadOption)
    }
}

/// Reads a format at `pos`.
pub fn decode_format(s: &[u8], pos: usize) -> (r: Result<(Format, usize), DecodeError>)
    ensures
        match parse_format(s@, pos as int) {
            Ok((f, p)) => r == Ok::<(Format, usize), DecodeError>((f, p as usize)) && pos < p <= s.len(),
            Err(e) => r == Err::<(Format, usize), DecodeError>(e),
        },
{
    match read_le(s, pos, 8) {
        Err(e) => Err(e),
        Ok((bits, p1)) => match SampleRate::new(bits) {
            None => Err(DecodeError::BadValue),
            Some(rate) => match read_u32_varint(s, p1) {
                Err(e) => Err(e),
                Ok((ch, p2)) => {
                    if ch == 0 {
                        Err(DecodeError::BadValue)
                    } else {
                        match read_buffer_size(s, p2) {
                            Err(e) => Err(e),
                            Ok((bs, p3)) => match read_u32_varint(s, p3) {
                                Err(e) => Err(e),
                                Ok((ti, p4)) => match sample_type_from_index(ti) {
                                    None => Err(DecodeError::BadVariant),
                                    Some(t) => {
                                    Ok((
                                        Format {
                                            sample_rate: rate,
                                            channel_count: ChannelCount { count: ch as u32 },
                                            buffer_size: bs,
                                            sample_type: t,
                                        },
                                        p4,
                                    ))},
                                },
                            },
                        }
                    }
                },
            },
        },
    }
}

/// Reads `n` formats at `pos`.
pub fn decode_format_list(s: &[u8], pos: usize, n: u64) -> (r: Result<(Vec<Format>, usize), DecodeError>)
    ensures
        match parse_format_list(s@, pos as int, n as nat, Seq::empty()) {
            Ok((l, p)) => r matches Ok((v, q)) && v@ == l && q == p && pos <= q && (n > 0 ==> q <= s.len()),
            Err(e) => r == Err::<(Vec<Format>, usize), DecodeError>(e),
        },
{
    let mut acc: Vec<Format> = Vec::new();
    let mut p = pos;
    let mut k = n;
    proof {
        assert(acc@ =~= Seq::<Format>::empty());
    }
    while k > 0
        invariant
            parse_format_list(s@, pos as int, n as nat, Seq::empty()) == parse_format_list(s@, p as int, k as nat, acc@),
            k <= n,
            pos <= p,
            k < n ==> p <= s.len(),
        decreases k,
    {
        match decode_format(s, p) {
            Err(e) => {
                return Err(e);
            },
            Ok((f, q)) => {
                acc.push(f);
                p = q;
                k = k - 1;
            },
        }
    }
    Ok((acc, p))
}


/// Reads a server's stream formats at `pos`.
pub fn decode_stream_formats(s: &[u8], pos: usize) -> (r: Result<(StreamFormats, usize), DecodeError>)
    ensures
        match parse_stream_formats(s@, pos as int) {
            Ok(((i, o), p)) => r matches Ok((f, q)) && f.inputs@ == i && f.outputs@ == o && q == p
                && pos < q <= s.len(),
            Err(e) => r matches Err(x) && x == e,
        },
{
    match read_len_varint(s, pos) {
        Err(e) => Err(e),
        Ok((ni, p1)) => match decode_format_list(s, p1, ni) {
            Err(e) => Err(e),
            Ok((inputs, p2)) => match read_len_varint(s, p2) {
                Err(e) => Err(e),
                Ok((no, p3)) => match decode_format_list(s, p3, no) {
                    Err(e) => Err(e),
                    Ok((outputs, p4)) => Ok((StreamFormats { inputs, outputs }, p4)),
                },
            },
        },
    }
}

fn decode_audio_header(s: &[u8], pos: usize) -> (r: Result<((u32, u64, u32), usize), DecodeError>)
    ensures
        match parse_audio_header(s@, pos as int) {
            Ok((h, p)) => r == Ok::<((u32, u64, u32), usize), DecodeError>((h, p as usize)) && pos < p <= s.len(),
            Err(e) => r == Err::<((u32, u64, u32), usize), DecodeError>(e),
        },
{
    proof {
        lemma_byte_bounds();
    }
    match read_le(s, pos, 4) {
        Err(e) => Err(e),
        Ok((a, p1)) => match read_le(s, p1, 8) {
            Err(e) => Err(e),
            Ok((b, p2)) => match read_le(s, p2, 4) {
                Err(e) => Err(e),
                Ok((c, p3)) => Ok(((a as u32, b, c as u32), p3)),
            },
        },
    }
}

/// Reads a flat client message at `pos`: the message and the position after it.
pub fn decode_client_flat(s: &[u8], pos: usize) -> (r: Result<(ClientMessageFlat, usize), DecodeError>)
    ensures
        match parse_client_flat(s@, pos as int) {
            Ok((m, p)) => r == Ok::<(ClientMessageFlat, usize), DecodeError>((m, p as usize)) && pos < p <= s.len(),
            Err(e) => r == Err::<(ClientMessageFlat, usize), DecodeError>(e),
        },
{
    match read_u32_varint(s, pos) {
        Err(e) => Err(e),
        Ok((i, p)) => {
            if i == 0 {
                Ok((ClientMessageFlat::Discovery, p))
            } else if i == 1 {
                Ok((ClientMessageFlat::ConnectionSuccess, p))
            } else if i == 2 {
                Ok((ClientMessageFlat::ConnectionFailed, p))
            } else if i == 3 {
                Ok((ClientMessageFlat::ConnectionRefused, p))
            } else if i == 4 {
                Ok((ClientMessageFlat::StartIO, p))
            } else if i == 5 {
                Ok((ClientMessageFlat::StopIO, p))
            } else if i == 6 {
                match decode_audio_header(s, p) {
                    Err(e) => Err(e),
                    Ok(((a, b, c), q)) => Ok((
                        ClientMessageFlat::AudioHeader { stream_idx: a, byte_idx: b, n_bytes: c },
                        q,
                    )),
                }
            } else if i == 7 {
                Ok((ClientMessageFlat::Disconnect, p))
            } else {
                Err(DecodeError::BadVariant)
            }
        },
    }
}

/// Reads a flat server message at `pos`: the message and the position after it.
pub fn decode_server_flat(s: &[u8], pos: usize) -> (r: Result<(ServerMessageFlat, usize), DecodeError>)
    ensures
        match parse_server_flat(s@, pos as int) {
            Ok((m, p)) => r matches Ok((x, q)) && x@ == m && q == p && pos < q <= s.len(),
            Err(e) => r matches Err(x) && x == e,
        },
{
    match read_u32_varint(s, pos) {
        Err(e) => Err(e),
        Ok((i, p)) => {
            if i == 0 {
                match decode_stream_formats(s, p) {
                    Err(e) => Err(e),
                    Ok((f, q)) => Ok((ServerMessageFlat::Connect(f), q)),
                }
            } else if i == 1 {
                Ok((ServerMessageFlat::StartIOFailed, p))
            } else if i == 2 {
                Ok((ServerMessageFlat::StartIORefused, p))
            } else if i == 3 {
                Ok((ServerMessageFlat::StartIOSuccess, p))
            } else if i == 4 {
                Ok((ServerMessageFlat::StopIOFailed, p))
            } else if i == 5 {
                Ok((ServerMessageFlat::StopIORefused, p))
            } else if i == 6 {
                Ok((ServerMessageFlat::StopIOSuccess, p))
            } else if i == 7 {
                match decode_audio_header(s, p) {
                    Err(e) => Err(e),
                    Ok(((a, b, c), q)) => Ok((
                        ServerMessageFlat::AudioHeader { stream_idx: a, byte_idx: b, n_bytes: c },
                        q,
                    )),
                }
            } else if i == 8 {
                Ok((ServerMessageFlat::Disconnect, p))
            } else {
                Err(DecodeError::BadVariant)
            }
        },
    }
}

/// Copies `bytes` to the front of `buf` when it fits.
fn copy_to_front(bytes: &Vec<u8>, buf: &mut [u8]) -> (r: Result<usize, EncodeError>)
    ensures
        r is Ok <==> bytes@.len() <= old(buf)@.len(),
        r matches Ok(n) ==> n == bytes@.len()
            && final(buf)@ == bytes@ + old(buf)@.subrange(n as int, old(buf)@.len() as int),
        r is Err ==> final(buf)@ == old(buf)@,
{
    if bytes.len() > buf.len() {
        return Err(EncodeError::BufferFull);
    }
    let mut i: usize = 0;
    while i < bytes.len()
        invariant
            i <= bytes@.len() <= buf@.len(),
            buf@.len() == old(buf)@.len(),
            forall|j: int| 0 <= j < i ==> buf@[j] == bytes@[j],
            forall|j: int| i <= j < buf@.len() ==> buf@[j] == old(buf)@[j],
        decreases bytes@.len() - i,
    {
        buf[i] = bytes[i];
        i = i + 1;
    }
    proof {
        assert(buf@ =~= bytes@ + old(buf)@.subrange(bytes@.len() as int, old(buf)@.len() as int));
    }
    Ok(bytes.len())
}

/// Encodes a client message at the front of `buf`: the number of bytes written,
/// or an error (with `buf` untouched) when they do not fit.
pub fn client_message_to_slice(m: Client, buf: &mut [u8]) -> (r: Result<usize, EncodeError>)
    ensures
        r is Ok <==> ser_client_flat(client_to_flat(m)).len() <= old(buf)@.len(),
        r matches Ok(n) ==> n == ser_client_flat(client_to_flat(m)).len()
            && final(buf)@ == ser_client_flat(client_to_flat(m)) + old(buf)@.subrange(n as int, old(buf)@.len() as int),
        r is Err ==> final(buf)@ == old(buf)@,
{
    let flat = ClientMessageFlat::from(m);
    let mut bytes: Vec<u8> = Vec::new();
    encode_client_flat(&flat, &mut bytes);
    proof {
        assert(bytes@ =~= ser_client_flat(client_to_flat(m)));
    }
    copy_to_front(&bytes, buf)
}

/// Encodes a client message into a writer, then flushes it: the writer
/// back when every byte went in, an error when the writer took no more.
pub fn client_message_encode<W: ByteWrite>(m: Client, w: W) -> (r: Result<W, EncodeError>)
    requires
        w.inv(),
    ensures
        r matches Ok(w2) ==> w2.inv() && w2.written() == w.written() + ser_client_flat(client_to_flat(m)),
        r matches Err(e) ==> e == EncodeError::BufferFull,
        w.room() matches Some(k) ==> (r is Ok <==> ser_client_flat(client_to_flat(m)).len() <= k),
{
    let flat = ClientMessageFlat::from(m);
    let mut bytes: Vec<u8> = Vec::new();
    encode_client_flat(&flat, &mut bytes);
    proof {
        assert(bytes@ =~= ser_client_flat(client_to_flat(m)));
    }
    let mut w = w;
    match write_all(&mut w, bytes.as_slice()) {
        Err(_) => Err(EncodeError::BufferFull),
        Ok(()) => match w.flush() {
            Err(_) => Err(EncodeError::BufferFull),
            Ok(()) => Ok(w),
        },
    }
}

/// Decodes a client message at the front of `s`: the message and the bytes
/// that follow it (an audio message's payload).
pub fn client_message_decode(s: &[u8]) -> (r: Result<(Client, &[u8]), DecodeError>)
    ensures
        match parse_client_flat(s@, 0) {
            Ok((f, p)) => r matches Ok((m, rest)) && m == client_from_flat(f)
                && rest@ == s@.subrange(p, s@.len() as int),
            Err(e) => r matches Err(x) && x == e,
        },
{
    match decode_client_flat(s, 0) {
        Err(e) => Err(e),
        Ok((f, p)) => {
            let rest = &s[p..s.len()];
            Ok((Client::from(f), rest))
        },
    }
}

/// Encodes a server message at the front of `buf`: the number of bytes written,
/// or an error (with `buf` untouched) when they do not fit.
pub fn server_message_to_slice(m: Server, buf: &mut [u8]) -> (r: Result<usize, EncodeError>)
    ensures
        r is Ok <==> ser_server_flat(server_to_flat(m)@).len() <= old(buf)@.len(),
        r matches Ok(n) ==> n == ser_server_flat(server_to_flat(m)@).len()
            && final(buf)@ == ser_server_flat(server_to_flat(m)@) + old(buf)@.subrange(n as int, old(buf)@.len() as int),
        r is Err ==> final(buf)@ == old(buf)@,
{
    let flat = ServerMessageFlat::from(m);
    let mut bytes: Vec<u8> = Vec::new();
    encode_server_flat(&flat, &mut bytes);
    proof {
        assert(bytes@ =~= ser_server_flat(server_to_flat(m)@));
    }
    copy_to_front(&bytes, buf)
}

/// Encodes a server message into a writer, then flushes it: the writer
/// back when every byte went in, an error when the writer took no more.
pub fn server_message_encode<W: ByteWrite>(m: Server, w: W) -> (r: Result<W, EncodeError>)
    requires
        w.inv(),
    ensures
        r matches Ok(w2) ==> w2.inv() && w2.written() == w.written() + ser_server_flat(server_to_flat(m)@),
        r matches Err(e) ==> e == EncodeError::BufferFull,
        w.room() matches Some(k) ==> (r is Ok <==> ser_server_flat(server_to_flat(m)@).len() <= k),
{
    let flat = ServerMessageFlat::from(m);
    let mut bytes: Vec<u8> = Vec::new();
    encode_server_flat(&flat, &mut bytes);
    proof {
        assert(bytes@ =~= ser_server_flat(server_to_flat(m)@));
    }
    let mut w = w;
    match write_all(&mut w, bytes.as_slice()) {
        Err(_) => Err(EncodeError::BufferFull),
        Ok(()) => match w.flush() {
            Err(_) => Err(EncodeError::BufferFull),
            Ok(()) => Ok(w),
        },
    }
}

/// Decodes a server message at the front of `s`: the message and the bytes
/// that follow it (an audio message's payload).
pub fn server_message_decode(s: &[u8]) -> (r: Result<(Server, &[u8]), DecodeError>)
    ensures
        match parse_server_flat(s@, 0) {
            Ok((f, p)) => r matches Ok((m, rest)) && server_to_flat(m)@ == f
                && rest@ == s@.subrange(p, s@.len() as int),
            Err(e) => r matches Err(x) && x == e,
        },
{
    match decode_server_flat(s, 0) {
        Err(e) => Err(e),
        Ok((f, p)) => {
            let rest = &s[p..s.len()];
            let m = Server::from(f);
            proof {
                crate::wire::lemma_server_unflat_roundtrip(f);
            }
            Ok((m, rest))
        },
    }
}

/// Encoding a client message and decoding the bytes gives the message back,
/// followed by exactly the bytes that came after it.
pub proof fn lemma_client_message_roundtrip(m: Client, rest: Seq<u8>)
    ensures
        parse_client_flat(ser_client_flat(client_to_flat(m)) + rest, 0) matches Ok((f, p))
            && client_from_flat(f) == m
            && p == ser_client_flat(client_to_flat(m)).len(),
{
    let b = ser_client_flat(client_to_flat(m));
    let s = b + rest;
    assert(s.subrange(0, b.len() as int) =~= b);
    lemma_client_flat_wire_roundtrip(s, 0, client_to_flat(m));
    crate::wire::lemma_client_flat_roundtrip(m);
}

/// Encoding a valid server message and decoding the bytes gives a message
/// with the same content back, followed by exactly the bytes that came after it.
pub proof fn lemma_server_message_roundtrip(m: Server, rest: Seq<u8>)
    requires
        m.wf(),
        m matches Server::Connect(f) ==> f.inputs@.len() <= u64::MAX && f.outputs@.len() <= u64::MAX,
    ensures
        parse_server_flat(ser_server_flat(server_to_flat(m)@) + rest, 0) matches Ok((f, p))
            && f == server_to_flat(m)@
            && p == ser_server_flat(server_to_flat(m)@).len(),
{
    let v = server_to_flat(m)@;
    let b = ser_server_flat(v);
    let s = b + rest;
    assert(s.subrange(0, b.len() as int) =~= b);
    match m {
        Server::Connect(f) => {
            assert(formats_wf(f.inputs@));
            assert(formats_wf(f.outputs@));
        },
        _ => {},
    }
    lemma_server_flat_wire_roundtrip(s, 0, v);
}

} // verus!
