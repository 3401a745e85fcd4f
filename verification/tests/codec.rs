use latpr::tunnel::message::{Msg, MsgKind};
use latpr::tunnel::reader::FrameReader;
use latpr::tunnel::wire::{
    decode, encode, read_kind, read_u16_number, read_u32_number, FrameError, HEADER_LEN,
    MSG_MAGIC_BEGIN, MSG_MAGIC_END,
};

const WIRE_KINDS: [(u8, MsgKind); 8] = [
    (0x0, MsgKind::ChannelOk),
    (0x1, MsgKind::ChannelError),
    (0x2, MsgKind::ChannelSubscribe),
    (0x3, MsgKind::ChannelUnsubscribe),
    (0x4, MsgKind::ChannelOpen),
    (0x5, MsgKind::ChannelClose),
    (0x6, MsgKind::ChannelData),
    (0x7, MsgKind::ChannelCtrl),
];

#[test]
fn kind_codes_follow_the_table() {
    for (code, kind) in WIRE_KINDS {
        assert_eq!(MsgKind::to_u8(&kind), code);
        assert_eq!(MsgKind::from_u8(code), kind);
    }
    assert_eq!(MsgKind::to_u8(&MsgKind::ChannelUnsubscribeAll), 0xA);
    assert_eq!(MsgKind::from_u8(0xA), MsgKind::ChannelUnsubscribeAll);
    assert_eq!(MsgKind::to_u8(&MsgKind::Unknown), 0xFF);
    assert_eq!(MsgKind::from_u8(0xFF), MsgKind::Unknown);
}

#[test]
fn bytes_that_name_no_kind_are_unknown() {
    for value in 0u8..=255 {
        let kind = MsgKind::from_u8(value);
        if value <= 7 || value == 0xA {
            assert_ne!(kind, MsgKind::Unknown);
            assert_eq!(MsgKind::to_u8(&kind), value);
        } else {
            assert_eq!(kind, MsgKind::Unknown);
        }
    }
}

#[test]
fn kind_is_shown_as_its_code_in_hex() {
    assert_eq!(MsgKind::ChannelOk.to_string(), "0x0");
    assert_eq!(MsgKind::ChannelError.to_string(), "0x1");
    assert_eq!(MsgKind::ChannelSubscribe.to_string(), "0x2");
    assert_eq!(MsgKind::ChannelUnsubscribe.to_string(), "0x3");
    assert_eq!(MsgKind::ChannelOpen.to_string(), "0x4");
    assert_eq!(MsgKind::ChannelClose.to_string(), "0x5");
    assert_eq!(MsgKind::ChannelData.to_string(), "0x6");
    assert_eq!(MsgKind::ChannelCtrl.to_string(), "0x7");
    assert_eq!(MsgKind::ChannelUnsubscribeAll.to_string(), "0xa");
    assert_eq!(MsgKind::Unknown.to_string(), "0xff");
    for (code, kind) in WIRE_KINDS {
        assert_eq!(kind.to_string(), format!("{:#02x}", code));
    }
}

#[test]
fn create_counts_the_payload() {
    let msg = Msg::create(MsgKind::ChannelData, 3, 9, vec![1, 2, 3, 4, 5]);
    assert_eq!(msg.kind, MsgKind::ChannelData);
    assert_eq!(msg.channel_id, 3);
    assert_eq!(msg.client_id, 9);
    assert_eq!(msg.size, 5);
    assert_eq!(msg.data, vec![1, 2, 3, 4, 5]);
    let empty = Msg::create(MsgKind::ChannelClose, 0, 0, Vec::new());
    assert_eq!(empty.size, 0);
    assert!(empty.data.is_empty());
}

#[test]
fn the_markers_have_their_values() {
    assert_eq!(MSG_MAGIC_BEGIN, 0x414e);
    assert_eq!(MSG_MAGIC_END, 0x5444);
    assert_eq!(HEADER_LEN, 11);
}

#[test]
fn encode_writes_every_field_big_endian() {
    let msg = Msg::create(MsgKind::ChannelData, 0x0102, 0x0304, vec![0xde, 0xad, 0xbe]);
    assert_eq!(
        encode(&msg),
        vec![
            0x41, 0x4e, 0x06, 0x01, 0x02, 0x03, 0x04, 0x00, 0x00, 0x00, 0x03, 0xde, 0xad, 0xbe,
            0x54, 0x44
        ]
    );
}

#[test]
fn encode_writes_the_size_in_four_bytes() {
    let msg = Msg::create(MsgKind::ChannelData, 0, 1, vec![7u8; 0x0001_0203]);
    let bytes = encode(&msg);
    assert_eq!(bytes.len(), 11 + 0x0001_0203 + 2);
    assert_eq!(&bytes[7..11], &[0x00, 0x01, 0x02, 0x03]);
    assert_eq!(&bytes[bytes.len() - 2..], &[0x54, 0x44]);
}

#[test]
fn encode_leaves_an_empty_payload_out() {
    let msg = Msg::create(MsgKind::ChannelClose, 0, 0, Vec::new());
    assert_eq!(
        encode(&msg),
        vec![0x41, 0x4e, 0x05, 0, 0, 0, 0, 0, 0, 0, 0, 0x54, 0x44]
    );
}

#[test]
fn encode_goes_by_the_declared_size() {
    let msg = Msg { kind: MsgKind::ChannelData, channel_id: 0, client_id: 0, size: 0, data: vec![1, 2] };
    assert_eq!(encode(&msg).len(), 13);
    let msg = Msg { kind: MsgKind::ChannelData, channel_id: 0, client_id: 0, size: 9, data: vec![1, 2] };
    let bytes = encode(&msg);
    assert_eq!(bytes.len(), 15);
    assert_eq!(bytes[10], 9);
}

#[test]
fn decode_undoes_encode() {
    for (_, kind) in WIRE_KINDS {
        for payload in [vec![], vec![0u8], vec![1, 2, 3], vec![0xff; 300]] {
            let msg = Msg::create(kind, 0x1234, 0xfffe, payload);
            let bytes = encode(&msg);
            assert_eq!(decode(&bytes), Ok((msg, bytes.len())));
        }
    }
}

#[test]
fn decode_of_an_empty_payload_gives_an_empty_payload() {
    let msg = Msg::create(MsgKind::ChannelOk, 0, 0, Vec::new());
    let (back, used) = decode(&encode(&msg)).unwrap();
    assert_eq!(used, 13);
    assert_eq!(back.size, 0);
    assert_eq!(back.data, Vec::<u8>::new());
    assert_eq!(back, msg);
}

#[test]
fn decode_takes_one_frame_and_leaves_the_rest() {
    let first = Msg::create(MsgKind::ChannelData, 0, 1, vec![9, 9]);
    let second = Msg::create(MsgKind::ChannelCtrl, 0, 2, vec![8]);
    let mut bytes = encode(&first);
    let first_len = bytes.len();
    bytes.extend_from_slice(&encode(&second));
    let (msg, used) = decode(&bytes).unwrap();
    assert_eq!(msg, first);
    assert_eq!(used, first_len);
    assert_eq!(decode(&bytes[used..]), Ok((second, 14)));
}

#[test]
fn a_corrupt_leading_marker_is_refused() {
    let msg = Msg::create(MsgKind::ChannelData, 0, 1, vec![1, 2, 3]);
    let mut bytes = encode(&msg);
    bytes[0] = 0x40;
    assert_eq!(
        decode(&bytes),
        Err(FrameError::BadMarker { expected: 0x414e, found: 0x404e })
    );
    let mut bytes = encode(&msg);
    bytes[1] = 0x00;
    assert_eq!(
        decode(&bytes),
        Err(FrameError::BadMarker { expected: 0x414e, found: 0x4100 })
    );
}

#[test]
fn a_corrupt_trailing_marker_is_refused() {
    let msg = Msg::create(MsgKind::ChannelData, 0, 1, vec![1, 2, 3]);
    let mut bytes = encode(&msg);
    let n = bytes.len();
    bytes[n - 2] = 0x55;
    assert_eq!(
        decode(&bytes),
        Err(FrameError::BadMarker { expected: 0x5444, found: 0x5544 })
    );
    let mut bytes = encode(&msg);
    bytes[n - 1] = 0x45;
    assert_eq!(
        decode(&bytes),
        Err(FrameError::BadMarker { expected: 0x5444, found: 0x5445 })
    );
}

#[test]
fn every_corruption_of_a_marker_byte_is_refused() {
    let msg = Msg::create(MsgKind::ChannelSubscribe, 0, 77, vec![5; 4]);
    let good = encode(&msg);
    let n = good.len();
    for at in [0, 1, n - 2, n - 1] {
        for value in 0u8..=255 {
            if value == good[at] {
                continue;
            }
            let mut bytes = good.clone();
            bytes[at] = value;
            bytes.extend_from_slice(&good);
            match decode(&bytes) {
                Err(FrameError::BadMarker { expected, found }) => {
                    assert_eq!(expected, if at < 2 { 0x414e } else { 0x5444 });
                    assert_ne!(found, expected);
                }
                other => panic!("{:?}", other),
            }
        }
    }
}

#[test]
fn a_kind_above_seven_is_refused() {
    let msg = Msg::create(MsgKind::ChannelData, 0, 1, vec![1]);
    for code in 8u8..=255 {
        let mut bytes = encode(&msg);
        bytes[2] = code;
        assert_eq!(decode(&bytes), Err(FrameError::InvalidKind { code }));
    }
}

#[test]
fn unsubscribe_all_is_written_but_not_read() {
    let msg = Msg::create(MsgKind::ChannelUnsubscribeAll, 0, 0, Vec::new());
    let bytes = encode(&msg);
    assert_eq!(bytes[2], 0x0a);
    assert_eq!(decode(&bytes), Err(FrameError::InvalidKind { code: 0x0a }));
    let msg = Msg::create(MsgKind::Unknown, 0, 0, Vec::new());
    let bytes = encode(&msg);
    assert_eq!(bytes[2], 0xff);
    assert_eq!(decode(&bytes), Err(FrameError::InvalidKind { code: 0xff }));
}

#[test]
fn the_kind_is_judged_before_what_follows_it() {
    assert_eq!(
        decode(&[0x41, 0x4e, 0x0a]),
        Err(FrameError::InvalidKind { code: 0x0a })
    );
    assert_eq!(
        decode(&[0x00, 0x4e]),
        Err(FrameError::BadMarker { expected: 0x414e, found: 0x004e })
    );
}

#[test]
fn every_proper_beginning_of_a_frame_is_truncated() {
    let msg = Msg::create(MsgKind::ChannelData, 1, 2, vec![1, 2, 3, 4]);
    let bytes = encode(&msg);
    for n in 0..bytes.len() {
        assert_eq!(decode(&bytes[..n]), Err(FrameError::Truncated));
    }
}

#[test]
fn field_readers_check_what_they_read() {
    assert_eq!(read_u16_number(&[0x41, 0x4e], 0x414e), Ok(0x414e));
    assert_eq!(read_u16_number(&[0x12, 0x34], 0), Ok(0x1234));
    assert_eq!(read_u16_number(&[0x00, 0x00], 0), Ok(0));
    assert_eq!(
        read_u16_number(&[0x12, 0x34], 0x5444),
        Err(FrameError::BadMarker { expected: 0x5444, found: 0x1234 })
    );
    assert_eq!(read_u16_number(&[0x12], 0), Err(FrameError::Truncated));
    assert_eq!(read_u32_number(&[0x01, 0x02, 0x03, 0x04]), Ok(0x0102_0304));
    assert_eq!(read_u32_number(&[0xff, 0xff, 0xff, 0xff]), Ok(u32::MAX));
    assert_eq!(read_u32_number(&[1, 2, 3]), Err(FrameError::Truncated));
    assert_eq!(read_kind(&[0x06]), Ok(MsgKind::ChannelData));
    assert_eq!(read_kind(&[0x07]), Ok(MsgKind::ChannelCtrl));
    assert_eq!(read_kind(&[0x08]), Err(FrameError::InvalidKind { code: 8 }));
    assert_eq!(read_kind(&[0x0a]), Err(FrameError::InvalidKind { code: 10 }));
    assert_eq!(read_kind(&[]), Err(FrameError::Truncated));
}

fn read_with(reader: &mut FrameReader, stream: &[u8]) -> (Vec<usize>, Result<Option<Msg>, FrameError>) {
    let mut reads = Vec::new();
    let mut at = 0;
    loop {
        let n = reader.needed();
        if n == 0 || at + n > stream.len() {
            return (reads, Ok(None));
        }
        reads.push(n);
        let outcome = reader.feed(&stream[at..at + n]);
        at += n;
        match outcome {
            Ok(None) => {}
            other => return (reads, other),
        }
    }
}

#[test]
fn the_reader_takes_a_frame_field_by_field() {
    let msg = Msg::create(MsgKind::ChannelData, 0, 5, vec![1, 2, 3, 4, 5, 6]);
    let mut reader = FrameReader::new();
    let (reads, outcome) = read_with(&mut reader, &encode(&msg));
    assert_eq!(reads, vec![2, 1, 2, 2, 4, 6, 2]);
    assert_eq!(outcome, Ok(Some(msg)));
    assert_eq!(reader.needed(), 0);
}

#[test]
fn the_reader_asks_for_no_empty_payload() {
    let msg = Msg::create(MsgKind::ChannelOk, 0, 0, Vec::new());
    let mut reader = FrameReader::new();
    let (reads, outcome) = read_with(&mut reader, &encode(&msg));
    assert_eq!(reads, vec![2, 1, 2, 2, 4, 2]);
    assert_eq!(outcome, Ok(Some(msg)));
}

#[test]
fn the_reader_stops_at_a_bad_leading_marker() {
    let msg = Msg::create(MsgKind::ChannelData, 0, 5, vec![1, 2, 3]);
    let mut stream = encode(&msg);
    stream[1] = 0x4f;
    stream.extend_from_slice(&encode(&msg));
    let mut reader = FrameReader::new();
    let (reads, outcome) = read_with(&mut reader, &stream);
    assert_eq!(reads, vec![2]);
    assert_eq!(
        outcome,
        Err(FrameError::BadMarker { expected: 0x414e, found: 0x414f })
    );
    assert_eq!(reader.needed(), 0);
    assert_eq!(
        reader.feed(&encode(&msg)),
        Err(FrameError::BadMarker { expected: 0x414e, found: 0x414f })
    );
}

#[test]
fn the_reader_stops_at_a_bad_kind() {
    let mut reader = FrameReader::new();
    let (reads, outcome) = read_with(&mut reader, &[0x41, 0x4e, 0x0a, 0, 0, 0, 0, 0, 0, 0, 0, 0x54, 0x44]);
    assert_eq!(reads, vec![2, 1]);
    assert_eq!(outcome, Err(FrameError::InvalidKind { code: 0x0a }));
    assert_eq!(reader.needed(), 0);
}

#[test]
fn the_reader_stops_at_a_bad_trailing_marker() {
    let msg = Msg::create(MsgKind::ChannelData, 0, 5, vec![1, 2, 3]);
    let mut stream = encode(&msg);
    let n = stream.len();
    stream[n - 1] = 0;
    let mut reader = FrameReader::new();
    let (reads, outcome) = read_with(&mut reader, &stream);
    assert_eq!(reads, vec![2, 1, 2, 2, 4, 3, 2]);
    assert_eq!(
        outcome,
        Err(FrameError::BadMarker { expected: 0x5444, found: 0x5400 })
    );
}

#[test]
fn the_reader_agrees_with_decode_on_any_split() {
    let msg = Msg::create(MsgKind::ChannelCtrl, 7, 8, vec![3; 5]);
    let bytes = encode(&msg);
    for cut in 0..=bytes.len() {
        let mut reader = FrameReader::new();
        let first = reader.feed(&bytes[..cut]);
        if cut < bytes.len() {
            assert_eq!(first, Ok(None));
            assert!(reader.needed() > 0);
            assert_eq!(reader.feed(&bytes[cut..]), Ok(Some(msg.clone())));
        } else {
            assert_eq!(first, Ok(Some(msg.clone())));
        }
    }
}
