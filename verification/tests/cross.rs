use proto::conformance::{
    deserialize_frame, frame_eq, new_frame, serialize_frame, DeserializeError, SerializeError,
};
use proto::frame::Frame;

#[test]
fn serialize() {
    let frame = Frame {
        sender: 100,
        receiver: 253,
        data: b"hell(o w)or\x1bld".to_vec(),
    };

    let serialized = frame.serialize().unwrap();

    let cframe = new_frame(frame.sender, frame.receiver, &frame.data);

    let (result, dst) = serialize_frame(&cframe);

    assert_eq!(result, SerializeError::SerializeOk);
    assert_eq!(serialized, dst);
}

#[test]
fn deserialize() {
    let frame = Frame {
        sender: 100,
        receiver: 253,
        data: b"hell(o w)or\x1bld".to_vec(),
    };

    let serialized = frame.serialize().unwrap();

    let cframe = new_frame(frame.sender, frame.receiver, &frame.data);

    let (result, deserialized) = deserialize_frame(&serialized);

    assert_eq!(result, DeserializeError::DeserializeOk);
    assert_eq!(frame_eq(&cframe, &deserialized.unwrap()), true);
}

#[test]
fn deserialize_result_codes() {
    assert_eq!(
        deserialize_frame(&[]),
        (DeserializeError::InvalidStartByte, None)
    );
    assert_eq!(
        deserialize_frame(&[0x28, 0x00]),
        (DeserializeError::InvalidEndByte, None)
    );
    assert_eq!(
        deserialize_frame(&[0x28, 0x29]),
        (DeserializeError::UnexpectedEOF, None)
    );
    assert_eq!(
        deserialize_frame(&[0x28, 0x1B, 0x44, 0x29]),
        (DeserializeError::InvalidEscapeSequence, None)
    );
    assert_eq!(
        deserialize_frame(&[0x28, 0x85, 0x14, 0x00, 0x00, 0x00, 0xdb, 0x92, 0x4c, 0xb8, 0x29]),
        (DeserializeError::ExpectedEOF, None)
    );
    assert_eq!(
        deserialize_frame(&[0x28, 0x85, 0x14, 0x00, 0x00, 0xdb, 0x92, 0x4c, 0xb9, 0x29]),
        (DeserializeError::CRC32MissMatch, None)
    );
}

#[test]
fn serialize_result_codes() {
    let frame = new_frame(1, 2, &[0x61; 65536]);
    assert_eq!(
        serialize_frame(&frame),
        (SerializeError::FrameTooLongError, Vec::new())
    );
}
