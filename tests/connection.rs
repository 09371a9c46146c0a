use mscg_server::body::Timestamp;
use mscg_server::connection::{AfterRead, Poll, Reader};
use mscg_server::logic::GameState;
use mscg_server::misc::u24;
use mscg_server::packet::build_heartbeat_msg_at;
use mscg_server::PacketError;

#[test]
fn reader_assembles_from_fragments() {
    let msg = build_heartbeat_msg_at(u24::from_u8(42), Timestamp { seconds: 99, nanos: 5 });
    let bytes = msg.encode_to_vec();
    let mut reader = Reader::new();
    let mut buf = bytes::BytesMut::new();
    let mut got = None;
    for b in bytes.iter() {
        buf.extend_from_slice(&[*b]);
        match reader.poll(&mut buf) {
            Poll::Ready(m) => got = Some(m),
            Poll::NeedMore => {}
            Poll::Failed(e) => panic!("unexpected {:?}", e),
        }
    }
    assert_eq!(got, Some(msg));
    assert_eq!(buf.len(), 0);
    assert!(reader.head.is_none());
}

#[test]
fn reader_end_of_stream() {
    let reader = Reader::new();
    assert_eq!(reader.after_read(5, 5), AfterRead::Retry);
    assert_eq!(reader.after_read(0, 0), AfterRead::End);
    assert_eq!(
        reader.after_read(0, 3),
        AfterRead::Closed(PacketError::Stream { buffered: 3 })
    );
}

#[test]
fn world_map_grows_by_chunks() {
    let mut w = GameState::new();
    assert_eq!(w.map.data.len(), 0);
    w.map.create_chunk();
    assert_eq!(w.map.data.len(), 1);
    assert_eq!(w.map.data[0].len(), 32);
    assert_eq!(w.map.data[0][31][31], w.map.data[0][0][0]);
}
