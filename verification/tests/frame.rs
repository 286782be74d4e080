use proto::frame::{CommandTooLongError, DeserializeError, Frame, SerializeError};

#[test]
fn serialize_deserialize() {
    let frame = Frame {
        sender: 133,
        receiver: 20,
        data: Vec::new(),
    };

    let serialized = frame.serialize().unwrap();
    assert_eq!(frame, Frame::deserialize(&serialized).unwrap());

    let frame = Frame {
        sender: 253,
        receiver: 150,
        data: b"hell(o w)or\x1bld".to_vec(),
    };

    let serialized = frame.serialize().unwrap();
    assert_eq!(frame, Frame::deserialize(&serialized).unwrap());
}

#[test]
fn serialized_len() {
    let frame = Frame {
        sender: 0,
        receiver: 0,
        data: Vec::new(),
    };

    assert_eq!(frame.serialized_len(), frame.serialize().unwrap().len());
    assert_eq!(frame.serialized_len(), 10);

    let frame = Frame {
        sender: 0,
        receiver: 0,
        data: vec![0; 10],
    };

    assert_eq!(frame.serialized_len(), frame.serialize().unwrap().len());
    assert_eq!(frame.serialized_len(), 20);
}

#[test]
fn empty_payload_frame_wire_form() {
    let frame = Frame {
        sender: 133,
        receiver: 20,
        data: Vec::new(),
    };

    let serialized = frame.serialize().unwrap();
    assert_eq!(serialized.len(), 10);
    assert_eq!(
        serialized,
        vec![0x28, 0x85, 0x14, 0x00, 0x00, 0xdb, 0x92, 0x4c, 0xb8, 0x29]
    );
    assert_eq!(frame, Frame::deserialize(&serialized).unwrap());
}

#[test]
fn crc32_known_value() {
    let frame = Frame {
        sender: 133,
        receiver: 20,
        data: Vec::new(),
    };
    assert_eq!(frame.calculate_crc32().unwrap(), 0xdb924cb8);

    let frame = Frame {
        sender: 253,
        receiver: 150,
        data: b"hell(o w)or\x1bld".to_vec(),
    };
    assert_eq!(frame.calculate_crc32().unwrap(), 0x4e07e3ac);
}

#[test]
fn reserved_payload_bytes_stay_escaped() {
    let frame = Frame {
        sender: 253,
        receiver: 150,
        data: b"hell(o w)or\x1bld".to_vec(),
    };

    let serialized = frame.serialize().unwrap();
    assert_eq!(frame, Frame::deserialize(&serialized).unwrap());

    // Between the markers (CRC region included, for this frame) there is no
    // literal marker byte, and every escape byte announces a known tag.
    let inner = &serialized[1..serialized.len() - 1];
    let mut i = 0;
    while i < inner.len() {
        assert_ne!(inner[i], 0x28);
        assert_ne!(inner[i], 0x29);
        if inner[i] == 0x1B {
            assert!(matches!(inner[i + 1], 0x41 | 0x42 | 0x43));
            i += 2;
        } else {
            i += 1;
        }
    }
}

#[test]
fn too_long_payload_is_rejected() {
    let frame = Frame {
        sender: 1,
        receiver: 2,
        data: vec![0x61; 65536],
    };

    assert_eq!(
        frame.get_command_len(),
        Err(CommandTooLongError(65536))
    );
    assert_eq!(
        frame.serialize(),
        Err(SerializeError::CommandTooLong(CommandTooLongError(65536)))
    );
    assert_eq!(
        frame.calculate_crc32(),
        Err(SerializeError::CommandTooLong(CommandTooLongError(65536)))
    );

    let frame = Frame {
        sender: 1,
        receiver: 2,
        data: vec![0x61; 65535],
    };
    assert_eq!(frame.get_command_len(), Ok(65535));
    assert!(frame.serialize().is_ok());
}

#[test]
fn single_bit_flips_are_detected() {
    let frame = Frame {
        sender: 253,
        receiver: 150,
        data: b"hell(o w)or\x1bld".to_vec(),
    };

    let serialized = frame.serialize().unwrap();
    // Flip every bit of every non-marker byte in turn: none may deserialize
    // back to a valid frame.
    for pos in 1..serialized.len() - 1 {
        for bit in 0..8 {
            let mut corrupted = serialized.clone();
            corrupted[pos] ^= 1 << bit;
            assert!(Frame::deserialize(&corrupted).is_err());
        }
    }
}

#[test]
fn escape_byte_inside_crc_breaks_round_trip() {
    // The checksum is transmitted unescaped, so the rare frame whose CRC
    // bytes contain the escape byte is misread on the way back. This frame's
    // CRC is 0xfd1bd35a; the 0x1b is taken for an escape announcing 0xd3,
    // which is no known tag.
    let frame = Frame {
        sender: 0,
        receiver: 0,
        data: vec![54],
    };
    let serialized = frame.serialize().unwrap();
    assert!(serialized.contains(&0x1B));
    assert_eq!(
        Frame::deserialize(&serialized),
        Err(DeserializeError::DecodeError(
            proto::encoding::DecodeError::InvalidEscapeSequence(0x1B, 0xd3)
        ))
    );
}

#[test]
fn deserialize_error_conditions() {
    assert_eq!(
        Frame::deserialize(&[]),
        Err(DeserializeError::InvalidFrameBeginByte)
    );
    assert_eq!(
        Frame::deserialize(&[0x00, 0x29]),
        Err(DeserializeError::InvalidFrameBeginByte)
    );
    assert_eq!(
        Frame::deserialize(&[0x28, 0x00]),
        Err(DeserializeError::InvalidFrameEndByte)
    );
    assert_eq!(
        Frame::deserialize(&[0x28]),
        Err(DeserializeError::InvalidFrameEndByte)
    );
    // Nothing between the markers: the fields are cut short.
    assert_eq!(
        Frame::deserialize(&[0x28, 0x29]),
        Err(DeserializeError::UnexpectedEOF)
    );
    // A dangling escape byte between the markers.
    assert_eq!(
        Frame::deserialize(&[0x28, 0x1B, 0x29]),
        Err(DeserializeError::DecodeError(
            proto::encoding::DecodeError::UnexpectedEOF
        ))
    );
    // An unknown escape tag between the markers.
    assert_eq!(
        Frame::deserialize(&[0x28, 0x1B, 0x44, 0x29]),
        Err(DeserializeError::DecodeError(
            proto::encoding::DecodeError::InvalidEscapeSequence(0x1B, 0x44)
        ))
    );
}

#[test]
fn deserialize_rejects_leftover_bytes() {
    // A valid empty-payload frame with one extra zero byte spliced in
    // before the CRC: the decoded buffer holds 9 bytes, one too many.
    let bytes = vec![
        0x28, 0x85, 0x14, 0x00, 0x00, 0x00, 0xdb, 0x92, 0x4c, 0xb8, 0x29,
    ];
    assert_eq!(
        Frame::deserialize(&bytes),
        Err(DeserializeError::ExpectedFrameEnd(8))
    );
}

#[test]
fn deserialize_reports_crc_mismatch() {
    // The empty-payload frame's wire form with the last CRC byte altered.
    let bytes = vec![0x28, 0x85, 0x14, 0x00, 0x00, 0xdb, 0x92, 0x4c, 0xb9, 0x29];
    assert_eq!(
        Frame::deserialize(&bytes),
        Err(DeserializeError::CRC32MissMatch {
            received: 0xdb924cb9,
            calculated: 0xdb924cb8,
        })
    );
}
