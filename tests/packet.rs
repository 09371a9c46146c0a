use mscg_server::body::{Body, Heartbeat, MsgBody, Timestamp};
use mscg_server::misc::u24;
use mscg_server::packet::{
    build_heartbeat_msg, build_heartbeat_msg_at, try_parse_body, try_parse_head, Msg, MsgHead,
    MsgType, MAGIC, VERSION,
};
use mscg_server::PacketError;

fn fixed_msg(session: u32) -> Msg {
    build_heartbeat_msg_at(
        u24::try_from_u32(session).unwrap(),
        Timestamp { seconds: 1700000000, nanos: 123456789 },
    )
}

#[test]
fn parse_separately() {
    let msg = build_heartbeat_msg(11451_u16.into());
    println!("msg: {:?}", msg);

    let mut buf = bytes::BytesMut::with_capacity(64);

    msg.0.encode(&mut buf).unwrap();
    println!("buf0: {:X?}", &buf[..]);

    let h = MsgHead::decode(&mut buf).unwrap();
    println!("0: {:?}", h);
    println!("buf: {:X?}", buf);

    msg.1.encode(&mut buf);
    println!("buf1: {:X?}", &buf[..]);

    let b = MsgBody::decode(&mut buf).unwrap();
    println!("1: {:?}", b);
    println!("buf: {:X?}", buf);

    assert_eq!(msg, Msg(h, b));
}

#[test]
fn parse_as_a_whole() {
    let msg = build_heartbeat_msg(11451_u16.into());
    println!("msg: {:?}", msg);

    let mut buf = bytes::BytesMut::with_capacity(128);

    msg.0.encode(&mut buf).unwrap();
    println!("buf0: {:X?}", &buf[..]);

    msg.1.encode(&mut buf);
    println!("buf1: {:X?}", &buf[..]);

    let h = try_parse_head(&mut buf).unwrap().unwrap();
    println!("0: {:?}", h);
    println!("buf: {:X?}", buf);

    let b = try_parse_body(&h, &mut buf).unwrap().unwrap();
    println!("1: {:?}", b);
    println!("buf: {:X?}", buf);

    assert_eq!(msg, Msg(h, b));
}

#[test]
fn parse_multi() {
    let msg = build_heartbeat_msg(11451_u16.into());
    println!("{:?}", msg);
    println!("msg: {:X?}", msg.encode_to_vec());

    let mut buf = bytes::BytesMut::with_capacity(128);
    msg.encode(&mut buf).unwrap();
    msg.encode(&mut buf).unwrap();
    println!("init buf: {:X?}", buf.to_vec());

    for _ in 0..2 {
        let h = try_parse_head(&mut buf).unwrap().unwrap();
        println!("{:X?}", buf.to_vec());
        let b = try_parse_body(&h, &mut buf).unwrap().unwrap();
        println!("{:X?}", buf.to_vec());

        assert_eq!(Msg(h, b), msg);
    }

    assert_eq!(buf.len(), 0);
}

#[test]
fn encoded_bytes_are_exact() {
    let ts = Timestamp { seconds: 1, nanos: 2 };
    let msg = build_heartbeat_msg_at(u24::from_u16(0x1234), ts);
    let body = [0x0A, 0x06, 0x0A, 0x04, 0x08, 0x01, 0x10, 0x02];
    assert_eq!(msg.1.encode_to_vec(), body.to_vec());
    assert_eq!(msg.1.encoded_len(), 8);
    let mut expected = vec![0x0D, 0x00, 0x07, 0x21, 0x01, 0x34, 0x12, 0x00, 0x04, 0x08, 0x00, 0x00];
    expected.extend_from_slice(&[0xA3, 0x93, 0x42, 0x98]);
    assert_eq!(msg.0.encode_to_vec(), expected);
    assert_eq!(msg.0.crc32, 0xA3934298);
    assert_eq!(msg.0.len.as_u32(), 8);
    assert_eq!(msg.0.ty, MsgType::HEARTBEAT.as_u8());
    expected.extend_from_slice(&body);
    assert_eq!(msg.encode_to_vec(), expected);
}

#[test]
fn round_trip_fixed_message() {
    let msg = fixed_msg(0xABCDEF);
    let mut buf = bytes::BytesMut::new();
    buf.extend_from_slice(&msg.encode_to_vec());
    buf.extend_from_slice(&[1, 2, 3]);
    let h = try_parse_head(&mut buf).unwrap().unwrap();
    let b = try_parse_body(&h, &mut buf).unwrap().unwrap();
    assert_eq!(Msg(h, b), msg);
    assert_eq!(&buf[..], &[1, 2, 3]);
}

#[test]
fn pipelining_two_different_messages() {
    let m1 = fixed_msg(1);
    let m2 = build_heartbeat_msg_at(u24::from_u8(2), Timestamp { seconds: -5, nanos: 0 });
    let mut buf = bytes::BytesMut::new();
    m1.encode(&mut buf).unwrap();
    m2.encode(&mut buf).unwrap();
    let h1 = try_parse_head(&mut buf).unwrap().unwrap();
    let b1 = try_parse_body(&h1, &mut buf).unwrap().unwrap();
    let h2 = try_parse_head(&mut buf).unwrap().unwrap();
    let b2 = try_parse_body(&h2, &mut buf).unwrap().unwrap();
    assert_eq!(Msg(h1, b1), m1);
    assert_eq!(Msg(h2, b2), m2);
    assert_eq!(buf.len(), 0);
}

#[test]
fn header_validation_outcomes() {
    let msg = fixed_msg(7);
    let good = msg.0.encode_to_vec();

    let mut buf = bytes::BytesMut::new();
    buf.extend_from_slice(&good);
    assert_eq!(try_parse_head(&mut buf), Ok(Some(msg.0)));
    assert_eq!(buf.len(), 0);

    let mut bad_magic = good.clone();
    bad_magic[0] = 0xFF;
    let mut buf = bytes::BytesMut::new();
    buf.extend_from_slice(&bad_magic);
    assert_eq!(
        try_parse_head(&mut buf),
        Err(PacketError::BadMagic { found: 0xFF000721, expected: MAGIC })
    );
    assert_eq!(buf.len(), 16);

    let mut bad_version = good.clone();
    bad_version[4] = 9;
    let mut buf = bytes::BytesMut::new();
    buf.extend_from_slice(&bad_version);
    assert_eq!(
        try_parse_head(&mut buf),
        Err(PacketError::BadVersion { version: 9, compiled: VERSION })
    );
    assert_eq!(buf.len(), 16);
}

#[test]
fn short_buffer_is_not_ready() {
    for n in 0..16 {
        let mut buf = bytes::BytesMut::new();
        buf.extend_from_slice(&vec![0xEE; n]);
        assert_eq!(try_parse_head(&mut buf), Ok(None));
        assert_eq!(buf.len(), n);
    }
}

#[test]
fn zero_buffer_is_not_ready() {
    let mut buf = bytes::BytesMut::new();
    buf.resize(4096, 0);
    assert_eq!(try_parse_head(&mut buf), Ok(None));
    assert_eq!(buf.len(), 4096);
}

#[test]
fn decode_head_too_short() {
    let mut buf = bytes::BytesMut::new();
    buf.extend_from_slice(&[0x0D, 0, 7, 0x21, 1, 0, 0, 0, 4, 0]);
    assert_eq!(
        MsgHead::decode(&mut buf),
        Err(PacketError::TooShort { remaining: 10, required: 16 })
    );
}

#[test]
fn payload_bit_flip_is_integrity_error() {
    let msg = fixed_msg(3);
    let mut bytes_ = msg.encode_to_vec();
    let last = bytes_.len() - 1;
    bytes_[last] ^= 1;
    let mut buf = bytes::BytesMut::new();
    buf.extend_from_slice(&bytes_);
    let h = try_parse_head(&mut buf).unwrap().unwrap();
    match try_parse_body(&h, &mut buf) {
        Err(PacketError::Integrity { computed, declared }) => {
            assert_eq!(declared, msg.0.crc32);
            assert_ne!(computed, declared);
        }
        other => panic!("unexpected {:?}", other),
    }
    assert_eq!(buf.len(), 0);
}

#[test]
fn magic_bit_flip_is_validation_error() {
    let msg = fixed_msg(3);
    for i in 0..4 {
        for bit in 0..8 {
            let mut b = msg.encode_to_vec();
            b[i] ^= 1 << bit;
            let mut buf = bytes::BytesMut::new();
            buf.extend_from_slice(&b);
            assert!(matches!(try_parse_head(&mut buf), Err(PacketError::BadMagic { .. })));
            assert_eq!(buf.len(), b.len());
        }
    }
}

#[test]
fn heartbeat_scenario_and_checksum_corruption() {
    let msg = build_heartbeat_msg(11451_u16.into());
    let mut buf = bytes::BytesMut::new();
    msg.encode(&mut buf).unwrap();
    let mut raw = buf.to_vec();

    let h = try_parse_head(&mut buf).unwrap().unwrap();
    let b = try_parse_body(&h, &mut buf).unwrap().unwrap();
    assert_eq!(h.ty, MsgType::HEARTBEAT.as_u8());
    assert_eq!(h.session_id.as_u32(), 11451);
    assert!(matches!(b.body, Some(Body::Heartbeat(Heartbeat { ts: Some(_) }))));

    raw[15] ^= 0xFF;
    let mut buf = bytes::BytesMut::new();
    buf.extend_from_slice(&raw);
    let h = try_parse_head(&mut buf).unwrap().unwrap();
    match try_parse_body(&h, &mut buf) {
        Err(PacketError::Integrity { computed, declared }) => {
            assert_ne!(computed.to_be_bytes(), declared.to_be_bytes());
            assert_eq!(computed, msg.0.crc32);
        }
        other => panic!("unexpected {:?}", other),
    }
}

#[test]
fn body_not_ready_and_errors() {
    let msg = fixed_msg(5);
    let body = msg.1.encode_to_vec();

    let mut buf = bytes::BytesMut::new();
    buf.extend_from_slice(&body[..body.len() - 1]);
    assert_eq!(try_parse_body(&msg.0, &mut buf), Ok(None));
    assert_eq!(buf.len(), body.len() - 1);

    let mut buf = bytes::BytesMut::new();
    buf.resize(body.len(), 0);
    assert_eq!(try_parse_body(&msg.0, &mut buf), Ok(None));

    let three = MsgHead::build(4, u24::from_u8(5), u24::from_u8(3), 0);
    let mut buf = bytes::BytesMut::new();
    buf.extend_from_slice(&[0x0A, 0x05, 0x01]);
    assert_eq!(try_parse_body(&three, &mut buf), Err(PacketError::Decode));
    assert_eq!(buf.len(), 3);

    let empty = MsgHead::build(4, u24::from_u8(5), u24::from_u8(0), 0);
    let mut buf = bytes::BytesMut::new();
    assert_eq!(try_parse_body(&empty, &mut buf), Err(PacketError::EmptyBody));
}

#[test]
fn build_frames_length_and_checksum() {
    let b = Body::Heartbeat(Heartbeat { ts: None });
    let m = Msg::build(MsgType::REQUEST, u24::from_u8(9), b).unwrap();
    assert_eq!(m.1, MsgBody { body: Some(b) });
    assert_eq!(m.1.encode_to_vec(), vec![0x0A, 0x00]);
    assert_eq!(m.0.len.as_usize(), 2);
    assert_eq!(m.0.crc32, crc32fast::hash(&[0x0A, 0x00]));
    assert_eq!(m.0.ty, 1);
    assert_eq!(m.0.magic, MAGIC);
    assert_eq!(MsgHead::len(), 16);
}

#[test]
fn checksum_decision() {
    let m = MsgBody { body: Some(Body::Heartbeat(Heartbeat { ts: None })) };
    assert_eq!(mscg_server::packet::verify_checksum(7, 7, m), Ok(m));
    assert_eq!(
        mscg_server::packet::verify_checksum(7, 8, m),
        Err(PacketError::Integrity { computed: 7, declared: 8 })
    );
}
