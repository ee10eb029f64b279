use syfala::codec::{DecodeError, EncodeError};
use syfala::io::{
    decode_error_kind, encode_error_kind, io_err_is_timeout, sent_all, write_all, ByteWrite, ChainedWriter, IoErrorKind,
    UninitCursor, AUDIO_MESSAGE_HEADER_SIZE, AUDIO_STREAM_MESSAGE_HEADER_SIZE,
};

#[test]
fn cursor_writes_what_fits() {
    let mut storage = [0u8; 5];
    let mut c = UninitCursor::new(&mut storage);
    assert_eq!(c.write(&[1, 2, 3]), Ok(3));
    assert_eq!(c.write(&[]), Ok(0));
    assert_eq!(c.write(&[4, 5, 6, 7]), Ok(2));
    assert_eq!(c.write(&[8]), Ok(0));
    assert_eq!(c.flush(), Ok(()));
    let (init, rest) = c.split();
    assert_eq!(init, &[1, 2, 3, 4, 5]);
    assert!(rest.is_empty());
}

#[test]
fn cursor_split_before_full() {
    let mut storage = [9u8; 4];
    let mut c = UninitCursor::new(&mut storage);
    c.write(&[1]).unwrap();
    let (init, rest) = c.split();
    assert_eq!(init, &[1]);
    assert_eq!(rest.len(), 3);
}

#[test]
fn chained_writer_is_contiguous() {
    let mut a = [0u8; 3];
    let mut b = [0u8; 4];
    {
        let mut w = ChainedWriter::new(UninitCursor::new(&mut a), UninitCursor::new(&mut b));
        assert_eq!(w.write(&[1, 2]), Ok(2));
        assert_eq!(w.write(&[3, 4, 5]), Ok(3));
        assert_eq!(w.write(&[6, 7, 8, 9]), Ok(2));
        assert_eq!(w.write(&[10]), Ok(0));
        assert_eq!(w.flush(), Ok(()));
        let (first, second) = w.into_inner();
        assert_eq!(first.split().0, &[1, 2, 3]);
        assert_eq!(second.split().0, &[4, 5, 6, 7]);
    }
    assert_eq!(a, [1, 2, 3]);
    assert_eq!(b, [4, 5, 6, 7]);
}

#[test]
fn timeout_kinds() {
    assert!(io_err_is_timeout(IoErrorKind::WouldBlock));
    assert!(io_err_is_timeout(IoErrorKind::TimedOut));
    assert!(!io_err_is_timeout(IoErrorKind::UnexpectedEof));
    assert!(!io_err_is_timeout(IoErrorKind::Other));
}

#[test]
fn error_kinds_of_codec_errors() {
    assert_eq!(decode_error_kind(DecodeError::UnexpectedEnd), IoErrorKind::UnexpectedEof);
    assert_eq!(decode_error_kind(DecodeError::BadVariant), IoErrorKind::Other);
    assert_eq!(decode_error_kind(DecodeError::BadVarint), IoErrorKind::Other);
    assert_eq!(encode_error_kind(EncodeError::BufferFull), IoErrorKind::Other);
}

#[test]
fn whole_datagrams() {
    assert_eq!(sent_all(10, 10), Ok(()));
    assert_eq!(sent_all(9, 10), Err(IoErrorKind::FileTooLarge));
}

#[test]
fn header_sizes() {
    assert_eq!(AUDIO_STREAM_MESSAGE_HEADER_SIZE, 12);
    assert_eq!(AUDIO_MESSAGE_HEADER_SIZE, 16);
}

#[test]
fn write_all_until_full() {
    let mut storage = [0u8; 4];
    let mut c = UninitCursor::new(&mut storage);
    assert_eq!(write_all(&mut c, &[1, 2, 3]), Ok(()));
    assert_eq!(write_all(&mut c, &[4, 5]), Err(IoErrorKind::WriteZero));
    assert_eq!(c.split().0, &[1, 2, 3, 4]);
}

#[test]
fn chained_writer_switches_for_good() {
    let mut a = [0u8; 1];
    let mut b = [0u8; 2];
    let mut w = ChainedWriter::new(UninitCursor::new(&mut a), UninitCursor::new(&mut b));
    assert_eq!(w.write(&[1, 2]), Ok(2));
    assert_eq!(w.write(&[]), Ok(0));
    assert_eq!(w.write(&[3]), Ok(1));
    let (first, second) = w.into_inner();
    assert_eq!(first.split().0, &[1]);
    assert_eq!(second.split().0, &[2, 3]);
}

#[test]
fn cursor_split_lengths() {
    let mut storage = [0u8; 4];
    let mut c = UninitCursor::new(&mut storage);
    assert_eq!(c.split().0.len(), 0);
    assert_eq!(c.split().1.len(), 4);
    assert_eq!(c.write(b"abc"), Ok(3));
    assert_eq!(c.write(b"xyz"), Ok(1));
    assert_eq!(c.split().0, b"abcx");
    assert_eq!(c.split().1.len(), 0);
}

#[test]
fn chained_cursors_act_as_one() {
    let mut a = [0u8; 2];
    let mut b = [0u8; 3];
    let mut w = ChainedWriter::new(UninitCursor::new(&mut a), UninitCursor::new(&mut b));
    assert_eq!(w.write(b"abcd"), Ok(4));
    assert_eq!(w.write(b"efg"), Ok(1));
    assert_eq!(w.write(b"h"), Ok(0));
    assert_eq!(w.flush(), Ok(()));
    let (first, second) = w.into_inner();
    assert_eq!(first.split().0, b"ab");
    assert_eq!(second.split().0, b"cde");
}
