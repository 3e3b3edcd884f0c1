//! The secure envelope: seal/open round trips, replay rejection,
//! tampering, counters at their bounds, and the registration wire
//! structures.

use scewl::msg::{Id, Message, SCEWL_MAX_DATA_SZ};
use scewl::msg::SSSOp;
use scewl::secure::{next_counter, ContentHeader, CryptoHandler, SecureSSSMessage,
    SecureSSSResponse, VerificationSegment};

fn keys() -> (Vec<u8>, Vec<u8>, Vec<u8>) {
    let seed = vec![7u8; 32];
    let aes = (0u8..16).collect::<Vec<u8>>();
    let hmac = (0u8..64).collect::<Vec<u8>>();
    (seed, aes, hmac)
}

fn handler() -> CryptoHandler {
    let (seed, aes, hmac) = keys();
    CryptoHandler::new(seed, aes, hmac)
}

fn buf_with(m: &[u8]) -> Vec<u8> {
    let mut b = vec![0u8; SCEWL_MAX_DATA_SZ];
    b[..m.len()].copy_from_slice(m);
    b
}

#[test]
fn direct_roundtrip() {
    let mut tx = handler();
    let mut rx = handler();
    let mut data = buf_with(b"AB!");
    let msg = Message { tgt_id: Id::Other(9), src_id: Id::Other(5), len: 3 };
    let n = tx.encrypt(&mut data, msg).expect("seal");
    assert_eq!(n, 56 + 48);
    // the counter of the first message to this peer is 1
    assert_eq!(&data[16..24], &1u64.to_le_bytes());
    let rmsg = Message { tgt_id: Id::Other(9), src_id: Id::Other(5), len: n };
    assert!(rx.verify(&data, rmsg));
    let got = rx.decrypt(&mut data, rmsg).expect("open");
    assert_eq!(got, 3);
    assert_eq!(&data[..3], b"AB!");
}

#[test]
fn empty_cleartext_roundtrip_is_104_bytes() {
    let mut tx = handler();
    let mut rx = handler();
    let mut data = buf_with(b"");
    let msg = Message { tgt_id: Id::Other(9), src_id: Id::Other(5), len: 0 };
    let n = tx.encrypt(&mut data, msg).expect("seal");
    assert_eq!(n, 104);
    let rmsg = Message { tgt_id: Id::Other(9), src_id: Id::Other(5), len: n };
    assert!(rx.verify(&data, rmsg));
    assert_eq!(rx.decrypt(&mut data, rmsg), Some(0));
}

#[test]
fn block_boundary_cleartext_length() {
    // 24 cleartext bytes put the content segment exactly on a block
    // boundary; the padding still adds one full block.
    let mut tx = handler();
    let mut data = buf_with(&[0x5a; 24]);
    let msg = Message { tgt_id: Id::Other(9), src_id: Id::Other(5), len: 24 };
    let n = tx.encrypt(&mut data, msg).expect("seal");
    assert_eq!(n, 56 + 80);
}

#[test]
fn max_cleartext_roundtrip() {
    // the largest cleartext whose envelope fits the buffer:
    // 56 + pkcs7(40 + len) == 16632 <= 16640
    let len = SCEWL_MAX_DATA_SZ - 105;
    let m: Vec<u8> = (0..len).map(|i| (i % 251) as u8).collect();
    let mut tx = handler();
    let mut rx = handler();
    let mut data = buf_with(&m);
    let msg = Message { tgt_id: Id::Other(9), src_id: Id::Other(5), len };
    let n = tx.encrypt(&mut data, msg).expect("seal");
    assert!(n <= SCEWL_MAX_DATA_SZ);
    let rmsg = Message { tgt_id: Id::Other(9), src_id: Id::Other(5), len: n };
    assert!(rx.verify(&data, rmsg));
    let got = rx.decrypt(&mut data, rmsg).expect("open");
    assert_eq!(got, len);
    assert_eq!(&data[..len], &m[..]);
}

#[test]
fn two_seals_differ_and_count_up() {
    // Fresh IVs make two envelopes of the same cleartext differ, and the
    // per-peer counter advances by one each time.
    let mut tx = handler();
    let msg = Message { tgt_id: Id::Other(9), src_id: Id::Other(5), len: 4 };
    let mut d1 = buf_with(b"ping");
    let n1 = tx.encrypt(&mut d1, msg).expect("seal");
    let mut d2 = buf_with(b"ping");
    let n2 = tx.encrypt(&mut d2, msg).expect("seal");
    assert_eq!(n1, n2);
    assert_eq!(&d1[16..24], &1u64.to_le_bytes());
    assert_eq!(&d2[16..24], &2u64.to_le_bytes());
    assert_ne!(&d1[..16], &d2[..16], "IVs repeat");
    assert_ne!(&d1[56..n1], &d2[56..n2], "ciphertexts repeat");
}

#[test]
fn replay_is_rejected() {
    let mut tx = handler();
    let mut rx = handler();
    let msg = Message { tgt_id: Id::Other(9), src_id: Id::Other(5), len: 4 };
    let mut first = buf_with(b"ping");
    let n = tx.encrypt(&mut first, msg).expect("seal");
    let captured = first.clone();
    let mut second = buf_with(b"pong");
    let n2 = tx.encrypt(&mut second, msg).expect("seal");
    let rmsg = Message { tgt_id: Id::Other(9), src_id: Id::Other(5), len: n2 };
    // the receiver processes the second message (counter 2) first
    assert!(rx.verify(&second, rmsg));
    assert_eq!(rx.decrypt(&mut second, rmsg), Some(4));
    // the captured first message (counter 1) is now a replay
    let rmsg1 = Message { tgt_id: Id::Other(9), src_id: Id::Other(5), len: n };
    let replay = captured;
    assert!(!rx.verify(&replay, rmsg1));
}

#[test]
fn tampered_tag_fails_verification() {
    let mut tx = handler();
    let rx = handler();
    let msg = Message { tgt_id: Id::Other(9), src_id: Id::Other(5), len: 4 };
    let mut data = buf_with(b"ping");
    let n = tx.encrypt(&mut data, msg).expect("seal");
    data[30] ^= 1;
    let rmsg = Message { tgt_id: Id::Other(9), src_id: Id::Other(5), len: n };
    assert!(!rx.verify(&data, rmsg));
}

#[test]
fn tampered_counter_fails_verification() {
    let mut tx = handler();
    let rx = handler();
    let msg = Message { tgt_id: Id::Other(9), src_id: Id::Other(5), len: 4 };
    let mut data = buf_with(b"ping");
    let n = tx.encrypt(&mut data, msg).expect("seal");
    // raising the counter keeps it fresh, so only the MAC can refuse it
    data[23] = 0x7f;
    let rmsg = Message { tgt_id: Id::Other(9), src_id: Id::Other(5), len: n };
    assert!(!rx.verify(&data, rmsg));
}

#[test]
fn tampered_ciphertext_fails_open() {
    let mut tx = handler();
    let mut rx = handler();
    let msg = Message { tgt_id: Id::Other(9), src_id: Id::Other(5), len: 4 };
    let mut data = buf_with(b"ping");
    let n = tx.encrypt(&mut data, msg).expect("seal");
    data[60] ^= 1;
    let rmsg = Message { tgt_id: Id::Other(9), src_id: Id::Other(5), len: n };
    assert_eq!(rx.decrypt(&mut data, rmsg), None);
}

#[test]
fn wrong_length_class_fails_verification() {
    let rx = handler();
    let data = vec![0u8; SCEWL_MAX_DATA_SZ];
    // a body whose length is not 56 plus a multiple of 16 is refused
    let rmsg = Message { tgt_id: Id::Other(9), src_id: Id::Other(5), len: 103 };
    assert!(!rx.verify(&data, rmsg));
    // a body shorter than the verification segment is refused
    let short = Message { tgt_id: Id::Other(9), src_id: Id::Other(5), len: 40 };
    assert!(!rx.verify(&data, short));
}

#[test]
fn reserved_targets_carry_no_envelope() {
    let mut tx = handler();
    let mut data = buf_with(b"ping");
    let sss = Message { tgt_id: Id::SSS, src_id: Id::Other(5), len: 4 };
    assert_eq!(tx.encrypt(&mut data, sss), None);
    let faa = Message { tgt_id: Id::FAA, src_id: Id::Other(5), len: 4 };
    assert_eq!(tx.encrypt(&mut data, faa), None);
}

#[test]
fn counter_at_the_end_of_its_range() {
    assert_eq!(next_counter(u64::MAX - 1), Some(u64::MAX));
    assert_eq!(next_counter(u64::MAX), None);
    assert_eq!(next_counter(0), Some(1));
}

#[test]
fn verification_segment_bytes_roundtrip() {
    let seg = VerificationSegment { iv: vec![3u8; 16], ctr: 513, hmac: vec![9u8; 32] };
    let b = seg.to_bytes();
    assert_eq!(b.len(), 56);
    assert_eq!(VerificationSegment::size(), 56);
    let seg2 = VerificationSegment::from_bytes(&b);
    assert_eq!(seg2.iv, vec![3u8; 16]);
    assert_eq!(seg2.ctr, 513);
    assert_eq!(seg2.hmac, vec![9u8; 32]);
}

#[test]
fn content_header_bytes_roundtrip() {
    let ch = ContentHeader { sha: (0u8..32).collect(), len: 77 };
    let b = ch.to_bytes();
    assert_eq!(b.len(), 40);
    assert_eq!(ContentHeader::size(), 40);
    let ch2 = ContentHeader::from_bytes(&b);
    assert_eq!(ch2.sha, (0u8..32).collect::<Vec<u8>>());
    assert_eq!(ch2.len, 77);
}

#[test]
fn secure_sss_message_layout() {
    let m = SecureSSSMessage {
        dev_id: Id::Other(7),
        op: SSSOp::Register,
        secret: vec![0x61; 64],
    };
    let b = m.to_bytes();
    assert_eq!(b.len(), 68);
    assert_eq!(SecureSSSMessage::size(), 68);
    assert_eq!(&b[..4], &[7, 0, 0, 0]);
    assert_eq!(&b[4..], &[0x61; 64][..]);
}

#[test]
fn secure_sss_response_parsing() {
    // too short to carry even id and operation
    assert!(SecureSSSResponse::from_bytes(&vec![7, 0, 0], 3).is_none());
    // a 4-byte negative acknowledgement carries no keys
    let nak = vec![7, 0, 1, 0];
    let r = SecureSSSResponse::from_bytes(&nak, 4).expect("parse");
    assert_eq!(r.dev_id, Id::Other(7));
    assert!(r.secrets.is_none());
    // a full response carries the keys
    let mut full = vec![7u8, 0, 0, 0];
    full.extend(std::iter::repeat(0xaa).take(16));
    full.extend(std::iter::repeat(0xbb).take(32));
    full.extend(std::iter::repeat(0xcc).take(64));
    assert_eq!(full.len(), 116);
    assert_eq!(SecureSSSResponse::size(), 116);
    let r = SecureSSSResponse::from_bytes(&full, 116).expect("parse");
    let sec = r.secrets.expect("keys");
    assert_eq!(sec.aes_key, vec![0xaa; 16]);
    assert_eq!(sec.seed, vec![0xbb; 32]);
    assert_eq!(sec.hmac_key, vec![0xcc; 64]);
}
