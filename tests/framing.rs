use sonicd::error::Error;
use sonicd::framing::{frame, header_length};
use sonicd::reader::{ReadEvent, ReadExact, ReadProgress};

#[test]
fn frame_prefixes_big_endian_length() {
    let f = frame(&b"{\"e\":\"A\"}".to_vec()).unwrap();
    assert_eq!(&f[..4], &[0, 0, 0, 9]);
    assert_eq!(&f[4..], b"{\"e\":\"A\"}");
}

#[test]
fn frame_of_empty_payload() {
    assert_eq!(frame(&Vec::new()).unwrap(), vec![0, 0, 0, 0]);
}

#[test]
fn header_values() {
    assert_eq!(header_length(&[0, 1, 0, 2]), Ok(65538));
    assert_eq!(header_length(&[0x7f, 0xff, 0xff, 0xff]), Ok(0x7fff_ffff));
    assert!(matches!(header_length(&[0xff, 0xff, 0xff, 0xff]), Err(Error::ProtocolError(_))));
}

fn read_all(wanted: usize, chunks: &[&[u8]]) -> (Vec<u8>, ReadProgress) {
    let mut r = ReadExact::new(wanted);
    let mut last = if wanted == 0 { ReadProgress::Complete } else { ReadProgress::Pending(wanted) };
    for c in chunks {
        last = r.feed(ReadEvent::Data(c.to_vec())).unwrap();
        if last != ReadProgress::Pending(r.remaining()) {
            break;
        }
    }
    (r.into_bytes(), last)
}

#[test]
fn read_exact_single_chunk() {
    assert_eq!(read_all(3, &[b"abc"]), (b"abc".to_vec(), ReadProgress::Complete));
}

#[test]
fn read_exact_two_and_many_chunks() {
    assert_eq!(read_all(3, &[b"a", b"bc"]), (b"abc".to_vec(), ReadProgress::Complete));
    assert_eq!(read_all(4, &[b"a", b"b", b"c", b"d"]), (b"abcd".to_vec(), ReadProgress::Complete));
}

#[test]
fn read_exact_pending_counts() {
    let mut r = ReadExact::new(5);
    assert_eq!(r.feed(ReadEvent::Data(b"ab".to_vec())), Ok(ReadProgress::Pending(3)));
    assert_eq!(r.feed(ReadEvent::Interrupted), Ok(ReadProgress::Pending(3)));
    assert_eq!(r.feed(ReadEvent::WouldBlock), Ok(ReadProgress::Pending(3)));
    assert_eq!(r.feed(ReadEvent::Data(b"cde".to_vec())), Ok(ReadProgress::Complete));
    assert!(r.is_complete());
    assert_eq!(r.into_bytes(), b"abcde".to_vec());
}

#[test]
fn read_exact_eof_with_nothing() {
    assert_eq!(read_all(4, &[b""]), (Vec::new(), ReadProgress::Eof));
}

#[test]
fn read_exact_eof_after_partial_reports_error() {
    let mut r = ReadExact::new(3);
    r.feed(ReadEvent::Data(b"a".to_vec())).unwrap();
    assert_eq!(r.feed(ReadEvent::Data(Vec::new())), Err(Error::ProtocolError("stream closed before every byte came".to_string())));
}

#[test]
fn read_exact_failure_is_io_error() {
    let mut r = ReadExact::new(2);
    assert_eq!(r.feed(ReadEvent::Failed(9)), Err(Error::Io(9)));
}

#[test]
fn large_frame_read_back_in_chunks() {
    let payload: Vec<u8> = (0..70_000u32).map(|i| (i % 251) as u8).collect();
    let f = frame(&payload).unwrap();
    let header = read_all(4, &[&f[..1], &f[1..4]]);
    assert_eq!(header.1, ReadProgress::Complete);
    let len = header_length(&header.0).unwrap();
    assert_eq!(len, 70_000);
    let body = &f[4..];
    let chunks: Vec<&[u8]> = body.chunks(4096).collect();
    let (got, p) = read_all(len, &chunks);
    assert_eq!(p, ReadProgress::Complete);
    assert_eq!(got, payload);
}

#[test]
fn empty_frame_read_back() {
    let f = frame(&Vec::new()).unwrap();
    let len = header_length(&f[..4]).unwrap();
    assert_eq!(len, 0);
    assert!(ReadExact::new(len).is_complete());
}

use sonicd::reader::{FrameProgress, FrameReader};

fn read_frame(chunks: &[&[u8]]) -> Result<FrameProgress, Error> {
    let mut r = FrameReader::new();
    let mut last = Ok(FrameProgress::Pending(r.remaining()));
    for c in chunks {
        last = r.feed(ReadEvent::Data(c.to_vec()));
        match last {
            Ok(FrameProgress::Pending(_)) => {}
            _ => break,
        }
    }
    last
}

#[test]
fn frame_reader_reads_split_frame() {
    let f = frame(&b"hello".to_vec()).unwrap();
    let got = read_frame(&[&f[..2], &f[2..4], &f[4..6], &f[6..]]);
    assert_eq!(got, Ok(FrameProgress::Frame(b"hello".to_vec())));
}

#[test]
fn frame_reader_pending_counts_and_retries() {
    let mut r = FrameReader::new();
    assert_eq!(r.feed(ReadEvent::Data(vec![0, 0])), Ok(FrameProgress::Pending(2)));
    assert_eq!(r.feed(ReadEvent::Interrupted), Ok(FrameProgress::Pending(2)));
    assert_eq!(r.feed(ReadEvent::Data(vec![0, 3])), Ok(FrameProgress::Pending(3)));
    assert_eq!(r.remaining(), 3);
    assert_eq!(r.feed(ReadEvent::Data(b"abc".to_vec())), Ok(FrameProgress::Frame(b"abc".to_vec())));
}

#[test]
fn frame_reader_clean_close() {
    assert_eq!(read_frame(&[b""]), Ok(FrameProgress::Closed));
}

#[test]
fn frame_reader_close_inside_header_or_body() {
    assert!(matches!(read_frame(&[&[0, 0], b""]), Err(Error::ProtocolError(_))));
    assert!(matches!(read_frame(&[&[0, 0, 0, 5], b"ab", b""]), Err(Error::ProtocolError(_))));
}

#[test]
fn frame_reader_negative_length() {
    assert!(matches!(read_frame(&[&[0x80, 0, 0, 0]]), Err(Error::ProtocolError(_))));
}

#[test]
fn frame_reader_empty_payload() {
    assert_eq!(read_frame(&[&[0, 0, 0, 0]]), Ok(FrameProgress::Frame(Vec::new())));
}

#[test]
fn frame_reader_failure() {
    let mut r = FrameReader::new();
    assert_eq!(r.feed(ReadEvent::Failed(104)), Err(Error::Io(104)));
}

use sonicd::reader::read_chunks;

#[test]
fn read_chunks_in_one_two_and_many_pieces() {
    let bytes = b"0123456789".to_vec();
    assert_eq!(read_chunks(10, &vec![bytes.clone()]), (bytes.clone(), ReadProgress::Complete));
    assert_eq!(read_chunks(10, &vec![bytes[..3].to_vec(), bytes[3..].to_vec()]), (bytes.clone(), ReadProgress::Complete));
    let many: Vec<Vec<u8>> = bytes.chunks(1).map(|c| c.to_vec()).collect();
    assert_eq!(read_chunks(10, &many), (bytes.clone(), ReadProgress::Complete));
    assert_eq!(read_chunks(10, &vec![bytes[..4].to_vec()]), (bytes[..4].to_vec(), ReadProgress::Pending(6)));
}

#[test]
fn read_exact_close_after_partial_is_error() {
    let mut r = ReadExact::new(4);
    assert_eq!(r.feed(ReadEvent::Data(b"ab".to_vec())), Ok(ReadProgress::Pending(2)));
    assert!(matches!(r.feed(ReadEvent::Data(Vec::new())), Err(Error::ProtocolError(_))));
}
