//! Round trips and exact encodings of the wire codecs, identifiers and
//! cursors.

use scewl::codec::{i16_from_bytes, i16_to_bytes, u16_from_bytes, u16_to_bytes, u64_from_bytes,
    u64_to_bytes};
use scewl::cursor::{ReadCursor, WriteCursor};
use scewl::msg::{Id, Message, MessageHeader, SSSMessage, SSSOp};

#[test]
fn u16_known_encoding() {
    assert_eq!(u16_to_bytes(0x1234), vec![0x34, 0x12]);
    assert_eq!(u16_from_bytes(0x34, 0x12), 0x1234);
}

#[test]
fn i16_known_encoding() {
    assert_eq!(i16_to_bytes(-1), vec![0xff, 0xff]);
    assert_eq!(i16_from_bytes(0xff, 0xff), -1);
    assert_eq!(i16_to_bytes(1), vec![0x01, 0x00]);
}

#[test]
fn u64_known_encoding() {
    let b = u64_to_bytes(0x0102030405060708);
    assert_eq!(b, vec![0x08, 0x07, 0x06, 0x05, 0x04, 0x03, 0x02, 0x01]);
    assert_eq!(u64_from_bytes(&b), 0x0102030405060708);
}

#[test]
fn id_u16_roundtrip_all_values() {
    for n in 0..=u16::MAX {
        let id = Id::from_u16(n);
        assert_eq!(id.to_u16(), n);
    }
    assert_eq!(Id::from_u16(0), Id::Broadcast);
    assert_eq!(Id::from_u16(1), Id::SSS);
    assert_eq!(Id::from_u16(2), Id::FAA);
    assert_eq!(Id::from_u16(7), Id::Other(7));
}

#[test]
fn sss_op_roundtrip() {
    assert_eq!(SSSOp::from_i16(-1), SSSOp::Already);
    assert_eq!(SSSOp::from_i16(0), SSSOp::Register);
    assert_eq!(SSSOp::from_i16(1), SSSOp::Deregister);
    assert_eq!(SSSOp::from_i16(17), SSSOp::Unknown);
    assert_eq!(SSSOp::Already.to_i16(), -1);
    assert_eq!(SSSOp::Register.to_i16(), 0);
    assert_eq!(SSSOp::Deregister.to_i16(), 1);
}

#[test]
fn message_header_bytes_roundtrip() {
    let h = MessageHeader { tgt_id: Id::Other(9), src_id: Id::Other(5), len: 300 };
    let b = h.to_bytes();
    assert_eq!(b.len(), 8);
    assert_eq!(&b[..2], &[b'S', b'C']);
    assert_eq!(&b[2..4], &[9, 0]);
    assert_eq!(&b[4..6], &[5, 0]);
    assert_eq!(&b[6..8], &[44, 1]);
    let h2 = MessageHeader::from_bytes(&b[2..]);
    assert_eq!(h2, h);
}

#[test]
fn sss_message_bytes_roundtrip() {
    let m = SSSMessage { dev_id: Id::Other(7), op: SSSOp::Register };
    let b = m.to_bytes();
    assert_eq!(b, vec![7, 0, 0, 0]);
    let m2 = SSSMessage::from_bytes(&b);
    assert_eq!(m2.dev_id, Id::Other(7));
    assert_eq!(m2.op, SSSOp::Register);
    assert_eq!(SSSMessage::size(), 4);
}

#[test]
fn message_to_canonical_truncates_nothing_in_range() {
    let m = Message { tgt_id: Id::Broadcast, src_id: Id::Other(5), len: 104 };
    let h = m.to_canonical();
    assert_eq!(h.len, 104);
    assert_eq!(h.tgt_id, Id::Broadcast);
    assert_eq!(h.src_id, Id::Other(5));
}

#[test]
fn read_cursor_walks_fields() {
    let bytes: Vec<u8> = vec![0x34, 0x12, 0xff, 0xff, 1, 2, 3, 4, 5, 6, 7, 8, 9, 10];
    let mut cur = ReadCursor::new(&bytes);
    assert_eq!(cur.read_u16(), 0x1234);
    assert_eq!(cur.read_i16(), -1);
    assert_eq!(cur.read_u64(), u64::from_le_bytes([1, 2, 3, 4, 5, 6, 7, 8]));
    let tail = cur.read_literal(2);
    assert_eq!(tail, vec![9, 10]);
}

#[test]
fn read_cursor_advance_skips() {
    let bytes: Vec<u8> = vec![0, 0, 7, 0];
    let mut cur = ReadCursor::new(&bytes);
    cur.advance(2);
    assert_eq!(cur.read_u16(), 7);
}

#[test]
fn read_cursor_copy_to_takes_what_fits() {
    let bytes: Vec<u8> = vec![1, 2, 3];
    let mut cur = ReadCursor::new(&bytes);
    let mut dst: Vec<u8> = vec![0; 5];
    let n = cur.copy_to(&mut dst);
    assert_eq!(n, 3);
    assert_eq!(dst, vec![1, 2, 3, 0, 0]);
}

#[test]
fn write_cursor_chains() {
    let buf: Vec<u8> = vec![0; 8];
    let out = WriteCursor::new(buf)
        .write(&[b'S', b'C'])
        .write_u16(9)
        .write_u16(5)
        .write_u16(3)
        .into_inner();
    assert_eq!(out, vec![b'S', b'C', 9, 0, 5, 0, 3, 0]);
}

#[test]
fn write_cursor_u64_and_advance() {
    let buf: Vec<u8> = vec![0xaa; 10];
    let out = WriteCursor::new(buf).advance(1).write_u64(0x0102030405060708).into_inner();
    assert_eq!(out, vec![0xaa, 8, 7, 6, 5, 4, 3, 2, 1, 0xaa]);
}
