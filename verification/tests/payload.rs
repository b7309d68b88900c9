use vbus_core::{ByteSink, EmptyPayload, Error, Message, OutputStream, Payload, TestPayload};

#[test]
fn message_test_payload_format_name() {
    assert_eq!(
        TestPayload::format_name(),
        "vbus_core::test_payload::TestPayload"
    );
    assert_eq!(
        EmptyPayload::format_name(),
        "vbus_core::test_payload::EmptyPayload"
    );
}

#[test]
fn payload_test_payload_format_name() {
    assert_eq!(
        TestPayload::format_name(),
        "vbus_core::test_payload::TestPayload"
    );
    assert_eq!(
        EmptyPayload::format_name(),
        "vbus_core::test_payload::EmptyPayload"
    );
}

#[test]
fn test_payload_bytes_are_the_variable_length_integer() {
    assert_eq!(TestPayload::new(0).encode().unwrap(), vec![0]);
    assert_eq!(TestPayload::new(42).encode().unwrap(), vec![42]);
    assert_eq!(TestPayload::new(250).encode().unwrap(), vec![250]);
    assert_eq!(TestPayload::new(251).encode().unwrap(), vec![251, 251, 0]);
    assert_eq!(TestPayload::new(65535).encode().unwrap(), vec![251, 255, 255]);
    assert_eq!(TestPayload::new(65536).encode().unwrap(), vec![252, 0, 0, 1, 0]);
    assert_eq!(
        TestPayload::new(123456789).encode().unwrap(),
        vec![252, 0x15, 0xcd, 0x5b, 0x07]
    );
    assert_eq!(
        TestPayload::new(1 << 32).encode().unwrap(),
        vec![253, 0, 0, 0, 0, 1, 0, 0, 0]
    );
}

#[test]
fn test_payload_bytes_agree_with_the_codec_called_directly() {
    for value in [0usize, 1, 250, 251, 70000, 123456789, usize::MAX] {
        let direct =
            bincode::encode_to_vec(value as u64, bincode::config::standard()).unwrap();
        assert_eq!(TestPayload::new(value).encode().unwrap(), direct);
        let as_usize = bincode::encode_to_vec(value, bincode::config::standard()).unwrap();
        assert_eq!(direct, as_usize);
    }
}

#[test]
fn test_payload_decodes_what_it_encodes() {
    for value in [0usize, 42, 250, 251, 65535, 65536, 123456789, usize::MAX] {
        let bytes = TestPayload::new(value).encode().unwrap();
        assert_eq!(TestPayload::decode(&bytes), Some(TestPayload::new(value)));
    }
}

#[test]
fn test_payload_decode_reads_the_front_and_rejects_the_rest() {
    assert_eq!(TestPayload::decode(&[252, 0x15, 0xcd, 0x5b, 0x07]).unwrap().value(), 123456789);
    assert_eq!(TestPayload::decode(&[7, 99, 99]).unwrap().value(), 7);
    assert_eq!(TestPayload::decode(&[251, 5, 0]).unwrap().value(), 5);
    assert_eq!(TestPayload::decode(&[]), None);
    assert_eq!(TestPayload::decode(&[251, 5]), None);
    assert_eq!(TestPayload::decode(&[252, 1, 2, 3]), None);
    assert_eq!(TestPayload::decode(&[253, 1, 2, 3, 4, 5, 6, 7]), None);
    assert_eq!(TestPayload::decode(&[254, 0, 0, 0, 0, 0, 0, 0, 0, 0, 0, 0, 0, 0, 0, 0, 0]), None);
    assert_eq!(TestPayload::decode(&[255]), None);
}

#[test]
fn empty_payload_is_no_bytes() {
    assert_eq!(EmptyPayload::default().encode().unwrap(), Vec::<u8>::new());
    assert_eq!(EmptyPayload::decode(&[]), Some(EmptyPayload {}));
    assert_eq!(EmptyPayload::decode(&[1, 2]), Some(EmptyPayload {}));
}

#[test]
fn test_payload_accessors() {
    let payload = TestPayload::new(5);
    assert_eq!(payload.value(), 5);
    assert!(payload.check(5));
    assert!(!payload.check(6));
    assert_eq!(TestPayload::default().value(), 0);
}

/// A payload whose codec always refuses.
struct Stubborn;

impl Payload for Stubborn {
    fn format_name() -> &'static str {
        "stubborn"
    }

    fn encode(&self) -> Option<Vec<u8>> {
        None
    }

    fn decode(_bytes: &[u8]) -> Option<Self> {
        None
    }
}

#[test]
fn a_payload_that_cannot_be_encoded_writes_nothing() {
    let mut ostream = OutputStream::<Stubborn>::new(ByteSink::new()).unwrap();
    let before = ostream.take_bytes();
    assert_eq!(&before[22..], b"stubborn");
    match ostream.append(&Message::new(1, Stubborn)) {
        Err(Error::BincodeEncode) => {}
        _ => panic!("Expected BincodeEncode"),
    }
    assert!(ostream.take_bytes().is_empty());
}
