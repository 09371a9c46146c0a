use mscg_server::body::{put_varint, Heartbeat, MsgBody, Timestamp};

#[test]
fn varint_matches_protobuf() {
    for v in [0u64, 1, 127, 128, 300, 16383, 16384, 1700000000, u64::MAX] {
        let mut ours = Vec::new();
        put_varint(&mut ours, v);
        let mut theirs: Vec<u8> = Vec::new();
        prost::encoding::encode_varint(v, &mut theirs);
        assert_eq!(ours, theirs);
    }
}

#[test]
fn timestamp_encoding() {
    assert_eq!(Timestamp { seconds: 0, nanos: 0 }.encode_to_vec(), Vec::<u8>::new());
    assert_eq!(Timestamp { seconds: 300, nanos: 0 }.encode_to_vec(), vec![0x08, 0xAC, 0x02]);
    let neg = Timestamp { seconds: -1, nanos: -1 }.encode_to_vec();
    assert_eq!(neg.len(), 22);
    assert_eq!(Heartbeat { ts: None }.encode_to_vec(), Vec::<u8>::new());
}

#[test]
fn body_decode_round_trip_and_rejects() {
    for ts in [
        Timestamp { seconds: 0, nanos: 0 },
        Timestamp { seconds: -1, nanos: -7 },
        Timestamp { seconds: i64::MAX, nanos: i32::MIN },
        Timestamp { seconds: 1700000000, nanos: 999999999 },
    ] {
        let m = MsgBody { body: Some(mscg_server::body::Body::Heartbeat(Heartbeat { ts: Some(ts) })) };
        assert_eq!(MsgBody::decode_bytes(&m.encode_to_vec()), Some(m));
    }
    assert_eq!(MsgBody::decode_bytes(&[]), Some(MsgBody { body: None }));
    assert_eq!(MsgBody::decode_bytes(&[0x12, 0x00]), None);
    assert_eq!(MsgBody::decode_bytes(&[0x0A, 0x01]), None);
    assert_eq!(MsgBody::decode_bytes(&[0x0A, 0x00, 0x00]), None);
}
