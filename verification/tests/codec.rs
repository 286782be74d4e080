use proto::encoding::{decode, encode, DecodeError, Encoding};

#[test]
fn encode_decode_round_trip() {
    let cases: Vec<Vec<u8>> = vec![
        vec![],
        vec![0x00],
        vec![0x1B],
        vec![0x28],
        vec![0x29],
        vec![0x1B, 0x28, 0x29],
        b"hell(o w)or\x1bld".to_vec(),
        vec![0x41, 0x42, 0x43],
        (0u8..=255).collect(),
    ];
    for case in cases {
        let encoded = encode(&case);
        assert_eq!(decode(&encoded).unwrap(), case);
        assert!(encoded.len() >= case.len());
    }
}

#[test]
fn encode_escapes_reserved_bytes() {
    assert_eq!(encode(&[0x1B]), vec![0x1B, 0x41]);
    assert_eq!(encode(&[0x28]), vec![0x1B, 0x42]);
    assert_eq!(encode(&[0x29]), vec![0x1B, 0x43]);
    assert_eq!(
        encode(b"hell(o w)or\x1bld"),
        vec![
            0x68, 0x65, 0x6c, 0x6c, 0x1b, 0x42, 0x6f, 0x20, 0x77, 0x1b, 0x43, 0x6f, 0x72, 0x1b,
            0x41, 0x6c, 0x64
        ]
    );
}

#[test]
fn decode_rejects_dangling_escape() {
    assert_eq!(decode(&[0x1B]), Err(DecodeError::UnexpectedEOF));
    assert_eq!(decode(&[0x61, 0x62, 0x1B]), Err(DecodeError::UnexpectedEOF));
}

#[test]
fn decode_rejects_unknown_tag() {
    assert_eq!(
        decode(&[0x1B, 0x00]),
        Err(DecodeError::InvalidEscapeSequence(0x1B, 0x00))
    );
    assert_eq!(
        decode(&[0x61, 0x1B, 0x44, 0x62]),
        Err(DecodeError::InvalidEscapeSequence(0x1B, 0x44))
    );
}

#[test]
fn encoding_sink_appends() {
    let mut sink: Vec<u8> = vec![0xAA];
    let written = sink.encode(&[0x61, 0x28]);
    assert_eq!(written, 3);
    assert_eq!(sink, vec![0xAA, 0x61, 0x1B, 0x42]);

    let mut out: Vec<u8> = Vec::new();
    let consumed = out.decode(&[0x61, 0x1B, 0x42]).unwrap();
    assert_eq!(consumed, 3);
    assert_eq!(out, vec![0x61, 0x28]);

    let mut out: Vec<u8> = vec![0x01];
    assert_eq!(out.decode(&[0x1B]), Err(DecodeError::UnexpectedEOF));
    assert_eq!(out, vec![0x01]);
}
