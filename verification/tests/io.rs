use std::io::{Read, Write};
use vbus_core::wire::{StreamHeader, WireRecord, CURRENT_VERSION, MAGIC};
use vbus_core::{
    ByteSink, ByteSource, EmptyPayload, Error, InputStream, IoErrorKind, Message, OutputStream,
    Payload, TestPayload,
};

/// Sends what the stream has written through the pipe and hands what
/// arrives at the other end to the source.
fn carry<T: Payload>(
    ostream: &mut OutputStream<T>,
    writer: &mut os_pipe::PipeWriter,
    reader: &mut os_pipe::PipeReader,
) -> Vec<u8> {
    let bytes = ostream.take_bytes();
    writer.write_all(&bytes).unwrap();
    let mut arrived = vec![0u8; bytes.len()];
    reader.read_exact(&mut arrived).unwrap();
    arrived
}

/// Reads the pipe to its end, after the writer was dropped.
fn drain(reader: &mut os_pipe::PipeReader) -> Vec<u8> {
    let mut arrived = Vec::new();
    reader.read_to_end(&mut arrived).unwrap();
    arrived
}

#[test]
fn test_default_stream_header() {
    let h = StreamHeader::default();
    assert_eq!(h.magic, MAGIC);
    assert_eq!(h.version, CURRENT_VERSION);
    assert_eq!(h.magic, [b'V', b'B', b'U', b'S']);
    assert_eq!(h.version, 1);
}

#[test]
fn io_test_default_stream_header() {
    let h = StreamHeader::default();
    assert_eq!(h.magic, MAGIC);
    assert_eq!(h.version, CURRENT_VERSION);
}

#[test]
fn io_test_stream_header() {
    let (mut reader, mut writer) = os_pipe::pipe().unwrap();
    let mut ostream = OutputStream::<TestPayload>::new(ByteSink::new()).unwrap();
    let mut source = ByteSource::new();
    source.feed(&carry(&mut ostream, &mut writer, &mut reader));
    InputStream::<TestPayload>::new(source).unwrap();
}

#[test]
fn io_test_closed_before_stream_header() {
    let (mut reader, writer) = os_pipe::pipe().unwrap();
    drop(writer);
    let source = ByteSource::from_bytes(drain(&mut reader));
    match InputStream::<TestPayload>::new(source) {
        Err(Error::StdIo(_)) => {}
        Ok(_) => panic!("Shouldn't succeed"),
        Err(e) => panic!("Unexpected error: {:?}", e),
    }
}

#[test]
fn io_test_stream_header_error_magic() {
    let (mut reader, mut writer) = os_pipe::pipe().unwrap();
    let mut bad_header = StreamHeader::default();
    *bad_header.magic.last_mut().unwrap() = bad_header.magic.last().unwrap() - 1;
    assert_ne!(bad_header.magic, MAGIC);

    writer.write_all(&bad_header.to_bytes()).unwrap();
    drop(writer);

    match InputStream::<TestPayload>::new(ByteSource::from_bytes(drain(&mut reader))) {
        Err(Error::BadHeader) => {}
        _ => panic!("Expected BadHeader error"),
    }
}

#[test]
fn io_test_stream_header_error_version() {
    let (mut reader, mut writer) = os_pipe::pipe().unwrap();
    let mut bad_header = StreamHeader::default();
    bad_header.version += 1;
    assert_ne!(bad_header.version, CURRENT_VERSION);

    writer.write_all(&bad_header.to_bytes()).unwrap();
    drop(writer);

    match InputStream::<TestPayload>::new(ByteSource::from_bytes(drain(&mut reader))) {
        Err(Error::BadVersion(v)) => {
            if v != bad_header.version {
                panic!("Wrong version in BadVersion error: {}", v);
            }
        }
        _ => panic!("Expected BadVersion error"),
    }
}

#[test]
fn io_test_stream_header_error_format() {
    assert_ne!(TestPayload::format_name(), EmptyPayload::format_name());

    let (mut reader, mut writer) = os_pipe::pipe().unwrap();
    let mut ostream = OutputStream::<EmptyPayload>::new(ByteSink::new()).unwrap();
    let mut source = ByteSource::new();
    source.feed(&carry(&mut ostream, &mut writer, &mut reader));
    match InputStream::<TestPayload>::new(source) {
        Err(Error::BadFormat(format)) => {
            if format != EmptyPayload::format_name() {
                panic!("Wrong format in BadFormat error: {}", format);
            }
        }
        _ => panic!("Expected BadFormat error"),
    }
}

#[test]
fn io_test_stream_close() {
    let (mut reader, mut writer) = os_pipe::pipe().unwrap();
    let mut ostream = OutputStream::<TestPayload>::new(ByteSink::new()).unwrap();
    writer.write_all(&ostream.take_bytes()).unwrap();
    drop(ostream);
    drop(writer);
    let mut istream =
        InputStream::<TestPayload>::new(ByteSource::from_bytes(drain(&mut reader))).unwrap();
    match istream.get() {
        Err(Error::RegularEof) => {}
        _ => panic!("Expected RegularEof error"),
    }
}

#[test]
fn io_test_stream_transfer() {
    let (mut reader, mut writer) = os_pipe::pipe().unwrap();
    let mut ostream = OutputStream::<TestPayload>::new(ByteSink::new()).unwrap();
    let mut source = ByteSource::new();
    source.feed(&carry(&mut ostream, &mut writer, &mut reader));
    let mut istream = InputStream::<TestPayload>::new(source).unwrap();

    let now: u64 = 1_700_000_000_000_000_000;

    for i in 0..100usize {
        let time_stamp = now + 1_000_000_000 * i as u64;
        let m = Message::new(time_stamp, TestPayload::new(i));
        ostream.append(&m).unwrap();
        istream.feed(&carry(&mut ostream, &mut writer, &mut reader));
        let read = istream.get().unwrap();
        assert_eq!(read.get_type_stamp(), time_stamp);
        assert!(read.get_payload().check(i));
    }

    drop(ostream);
    drop(writer);
    istream.feed(&drain(&mut reader));
    istream.close();

    // Check eof
    match istream.get() {
        Err(Error::RegularEof) => {}
        _ => {
            panic!("Expected RegularEof error");
        }
    }
}

#[test]
fn stream_slow_header_arrives_byte_by_byte() {
    const PAYLOAD_VALUE: usize = 42;

    let mut ostream = OutputStream::<TestPayload>::new(ByteSink::new()).unwrap();
    let mut source = ByteSource::new();
    source.feed(&ostream.take_bytes());
    let mut istream = InputStream::<TestPayload>::new(source).unwrap();

    ostream.append(&Message::new(5, TestPayload::new(PAYLOAD_VALUE))).unwrap();
    let chunk = ostream.take_bytes();
    assert_eq!(chunk.len(), 17);

    // Nothing has arrived: the reader has to wait for a whole header.
    assert_eq!(istream.demand(), 16);
    for (i, byte) in chunk.iter().enumerate() {
        match istream.get() {
            Err(Error::StdIo(IoErrorKind::WouldBlock)) => {}
            other => panic!("Expected WouldBlock, got {:?}", other.map(|m| m.get_type_stamp())),
        }
        assert_eq!(istream.demand(), if i < 16 { 16 - i as u64 } else { 1 });
        istream.feed(&[*byte]);
    }
    assert_eq!(istream.demand(), 0);
    let message = istream.get().unwrap();
    assert!(message.get_payload().check(PAYLOAD_VALUE));
    assert_eq!(message.get_type_stamp(), 5);
    assert_eq!(istream.demand(), 16);
}

#[test]
fn stream_prefix_has_the_documented_layout() {
    let mut ostream = OutputStream::<EmptyPayload>::new(ByteSink::new()).unwrap();
    let bytes = ostream.take_bytes();
    let name = "vbus_core::test_payload::EmptyPayload";
    let mut expected = vec![0x56, 0x42, 0x55, 0x53, 0x01, 0x00];
    expected.extend_from_slice(&(name.len() as u64).to_le_bytes());
    expected.extend_from_slice(&0u64.to_le_bytes());
    expected.extend_from_slice(name.as_bytes());
    assert_eq!(bytes, expected);
    assert_eq!(&bytes[0..4], b"VBUS");
}

#[test]
fn chunk_has_the_documented_layout() {
    let mut ostream = OutputStream::<TestPayload>::new(ByteSink::new()).unwrap();
    ostream.take_bytes();
    ostream.append(&Message::new(0x0102030405060708, TestPayload::new(123456789))).unwrap();
    let bytes = ostream.take_bytes();
    assert_eq!(
        bytes,
        vec![
            5, 0, 0, 0, 0, 0, 0, 0, // length
            8, 7, 6, 5, 4, 3, 2, 1, // time stamp
            252, 0x15, 0xcd, 0x5b, 0x07, // payload
        ]
    );
}

#[test]
fn truncated_chunk_is_an_io_failure_not_an_eof() {
    let mut ostream = OutputStream::<TestPayload>::new(ByteSink::new()).unwrap();
    ostream.append(&Message::new(1, TestPayload::new(300))).unwrap();
    let mut bytes = ostream.take_bytes();
    bytes.pop();
    let mut istream = InputStream::<TestPayload>::new(ByteSource::from_bytes(bytes)).unwrap();
    for _ in 0..2 {
        match istream.get() {
            Err(Error::StdIo(IoErrorKind::UnexpectedEof)) => {}
            _ => panic!("Expected UnexpectedEof"),
        }
    }

    let mut ostream = OutputStream::<TestPayload>::new(ByteSink::new()).unwrap();
    let mut bytes = ostream.take_bytes();
    bytes.extend_from_slice(&[1, 2, 3]);
    let mut istream = InputStream::<TestPayload>::new(ByteSource::from_bytes(bytes)).unwrap();
    match istream.get() {
        Err(Error::StdIo(IoErrorKind::UnexpectedEof)) => {}
        _ => panic!("Expected UnexpectedEof"),
    }
}

#[test]
fn open_source_without_a_whole_header_would_block() {
    let mut source = ByteSource::new();
    source.feed(&[0x56, 0x42, 0x55]);
    match InputStream::<TestPayload>::new(source) {
        Err(Error::StdIo(IoErrorKind::WouldBlock)) => {}
        _ => panic!("Expected WouldBlock"),
    }
    let mut source = ByteSource::new();
    source.feed(&[0x56, 0x42, 0x55]);
    source.close();
    match InputStream::<TestPayload>::new(source) {
        Err(Error::StdIo(IoErrorKind::UnexpectedEof)) => {}
        _ => panic!("Expected UnexpectedEof"),
    }
}

#[test]
fn header_without_a_format_chunk_ends_cleanly() {
    let bytes = StreamHeader::default().to_bytes();
    assert_eq!(bytes, vec![0x56, 0x42, 0x55, 0x53, 1, 0]);
    match InputStream::<TestPayload>::new(ByteSource::from_bytes(bytes)) {
        Err(Error::RegularEof) => {}
        _ => panic!("Expected RegularEof"),
    }
}

#[test]
fn undecodable_payload_is_consumed_and_reported() {
    let mut ostream = OutputStream::<TestPayload>::new(ByteSink::new()).unwrap();
    // A chunk whose payload is the marker of a 128-bit integer.
    ostream.append_bytes(vbus_core::wire::ChunkData(vec![254], 9)).unwrap();
    ostream.append(&Message::new(10, TestPayload::new(7))).unwrap();
    let mut istream =
        InputStream::<TestPayload>::new(ByteSource::from_bytes(ostream.take_bytes())).unwrap();
    match istream.get() {
        Err(Error::BincodeDecode) => {}
        _ => panic!("Expected BincodeDecode"),
    }
    let next = istream.get().unwrap();
    assert_eq!(next.get_type_stamp(), 10);
    assert_eq!(next.get_payload().value(), 7);
}

#[test]
fn full_sink_keeps_the_torn_record() {
    let prefix = OutputStream::<TestPayload>::new(ByteSink::new()).unwrap().take_bytes().len();
    match OutputStream::<TestPayload>::new(ByteSink::with_capacity(prefix - 1)) {
        Err(Error::StdIo(IoErrorKind::WriteZero)) => {}
        _ => panic!("Expected WriteZero"),
    }

    let mut ostream = OutputStream::<TestPayload>::new(ByteSink::with_capacity(prefix + 20)).unwrap();
    ostream.append(&Message::new(1, TestPayload::new(2))).unwrap();
    match ostream.append(&Message::new(3, TestPayload::new(4))) {
        Err(Error::StdIo(IoErrorKind::WriteZero)) => {}
        _ => panic!("Expected WriteZero"),
    }
    let bytes = ostream.take_bytes();
    assert_eq!(bytes.len(), prefix + 20);
    assert_eq!(&bytes[prefix + 17..], &[1, 0, 0]);

    // The reader sees one whole message, then the torn record.
    let mut istream = InputStream::<TestPayload>::new(ByteSource::from_bytes(bytes)).unwrap();
    assert_eq!(istream.get().unwrap().get_payload().value(), 2);
    match istream.get() {
        Err(Error::StdIo(IoErrorKind::UnexpectedEof)) => {}
        _ => panic!("Expected UnexpectedEof"),
    }
}

#[test]
fn sink_and_source_on_their_own() {
    let mut sink = ByteSink::with_capacity(4);
    assert!(sink.write_all(&[1, 2, 3]).is_ok());
    match sink.write_all(&[4, 5]) {
        Err(Error::StdIo(IoErrorKind::WriteZero)) => {}
        _ => panic!("Expected WriteZero"),
    }
    assert_eq!(sink.as_slice(), &[1, 2, 3, 4]);
    assert_eq!(sink.len(), 4);
    assert_eq!(sink.take(), vec![1, 2, 3, 4]);
    assert!(sink.write_all(&[9]).is_ok());
    assert_eq!(sink.take(), vec![9]);

    let mut source = ByteSource::new();
    source.feed(&[1, 2, 3]);
    assert_eq!(source.peek(2), Some(&[1u8, 2][..]));
    assert_eq!(source.peek(4), None);
    match source.read_exact(4) {
        Err(Error::StdIo(IoErrorKind::WouldBlock)) => {}
        _ => panic!("Expected WouldBlock"),
    }
    assert_eq!(source.read_exact(2).unwrap(), vec![1, 2]);
    assert_eq!(source.available(), 1);
    source.close();
    assert!(source.is_closed());
    source.feed(&[7]);
    assert_eq!(source.available(), 1);
    match source.read_exact(2) {
        Err(Error::StdIo(IoErrorKind::UnexpectedEof)) => {}
        _ => panic!("Expected UnexpectedEof"),
    }
    assert_eq!(source.read_exact(1).unwrap(), vec![3]);
}

#[test]
fn error_from_an_io_failure() {
    match Error::from(IoErrorKind::WriteZero) {
        Error::StdIo(IoErrorKind::WriteZero) => {}
        _ => panic!("Expected StdIo"),
    }
}

#[test]
fn opening_demand_asks_for_what_is_missing_and_no_more() {
    let mut ostream = OutputStream::<TestPayload>::new(ByteSink::new()).unwrap();
    let prefix = ostream.take_bytes();
    let name_len = "vbus_core::test_payload::TestPayload".len() as u64;
    assert_eq!(prefix.len() as u64, 6 + 16 + name_len);

    let mut source = ByteSource::new();
    assert_eq!(InputStream::<TestPayload>::opening_demand(&source), 6);
    source.feed(&prefix[..4]);
    assert_eq!(InputStream::<TestPayload>::opening_demand(&source), 2);
    source.feed(&prefix[4..6]);
    assert_eq!(InputStream::<TestPayload>::opening_demand(&source), 16);
    source.feed(&prefix[6..10]);
    assert_eq!(InputStream::<TestPayload>::opening_demand(&source), 12);
    source.feed(&prefix[10..22]);
    assert_eq!(InputStream::<TestPayload>::opening_demand(&source), name_len);
    source.feed(&prefix[22..]);
    assert_eq!(InputStream::<TestPayload>::opening_demand(&source), 0);
    assert!(InputStream::<TestPayload>::new(source).is_ok());

    // A header that is refused needs nothing more.
    let mut bad = ByteSource::new();
    bad.feed(&[0x56, 0x42, 0x55, 0x54, 1, 0]);
    assert_eq!(InputStream::<TestPayload>::opening_demand(&bad), 0);
    assert!(matches!(InputStream::<TestPayload>::new(bad), Err(Error::BadHeader)));
}

#[test]
fn append_all_writes_every_chunk_in_order() {
    let mut ostream = OutputStream::<TestPayload>::new(ByteSink::new()).unwrap();
    ostream.take_bytes();
    let batch = vec![Message::new(1, TestPayload::new(10)), Message::new(2, TestPayload::new(20))];
    ostream.append_all(&batch).unwrap();
    let together = ostream.take_bytes();
    ostream.append(&batch[0]).unwrap();
    ostream.append(&batch[1]).unwrap();
    assert_eq!(together, ostream.take_bytes());
    assert_eq!(together.len(), 34);
}
