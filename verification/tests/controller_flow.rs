//! End-to-end controller flows over the modelled channels: framing and
//! resynchronisation, registration, encrypted sends and receives, FAA
//! pass-through, and the drops the dispatcher must perform.

use scewl::channel::{Channel, INTF};
use scewl::controller::{read_frame, Controller};
use scewl::msg::{Error, Id, Message, SCEWL_MAX_DATA_SZ};
use scewl::secure::{AuthHandler, CryptoHandler};

fn frame(tgt: u16, src: u16, len: u16) -> Vec<u8> {
    let mut f = vec![b'S', b'C'];
    f.extend_from_slice(&tgt.to_le_bytes());
    f.extend_from_slice(&src.to_le_bytes());
    f.extend_from_slice(&len.to_le_bytes());
    f
}

fn aes_key() -> Vec<u8> {
    (0u8..16).collect()
}

fn hmac_key() -> Vec<u8> {
    (0u8..64).collect()
}

fn success_response(dev: u16) -> Vec<u8> {
    let mut resp = frame(dev, 1, 116);
    resp.extend_from_slice(&dev.to_le_bytes());
    resp.extend_from_slice(&0i16.to_le_bytes());
    resp.extend_from_slice(&aes_key());
    resp.extend_from_slice(&[7u8; 32]);
    resp.extend_from_slice(&hmac_key());
    resp
}

fn register_request(dev: u16) -> Vec<u8> {
    let mut req = frame(1, dev, 4);
    req.extend_from_slice(&dev.to_le_bytes());
    req.extend_from_slice(&0i16.to_le_bytes());
    req
}

fn registered_controller(dev: u16) -> Controller {
    let mut c = Controller::new(Id::Other(dev), AuthHandler::new(vec![0x42; 64]));
    c.cpu.feed(&register_request(dev));
    c.sss.feed(&success_response(dev));
    c.step();
    assert!(c.registered());
    let _drain_sss = c.sss.take_output();
    let _drain_cpu = c.cpu.take_output();
    c
}

fn peer_handler() -> CryptoHandler {
    CryptoHandler::new(vec![9u8; 32], aes_key(), hmac_key())
}

#[test]
fn registration_success() {
    let mut c = Controller::new(Id::Other(7), AuthHandler::new(vec![0x42; 64]));
    assert!(!c.registered());
    assert_eq!(c.id(), Id::Other(7));
    c.cpu.feed(&register_request(7));
    c.sss.feed(&success_response(7));
    c.step();
    assert!(c.registered());
    // the SSS saw the framed 68-byte secure message with the secret
    let mut want_sss = frame(1, 7, 68);
    want_sss.extend_from_slice(&[7, 0, 0, 0]);
    want_sss.extend_from_slice(&[0x42; 64]);
    assert_eq!(c.sss.take_output(), want_sss);
    // the CPU was notified with the 4-byte control message
    let mut want_cpu = frame(7, 1, 4);
    want_cpu.extend_from_slice(&[7, 0, 0, 0]);
    assert_eq!(c.cpu.take_output(), want_cpu);
    // nothing ever went to the radio
    assert!(c.rad.take_output().is_empty());
}

#[test]
fn registration_refused_by_short_response() {
    let mut c = Controller::new(Id::Other(7), AuthHandler::new(vec![0x42; 64]));
    c.cpu.feed(&register_request(7));
    let mut nak = frame(7, 1, 4);
    nak.extend_from_slice(&7u16.to_le_bytes());
    nak.extend_from_slice(&(-1i16).to_le_bytes());
    c.sss.feed(&nak);
    c.step();
    assert!(!c.registered());
    // the CPU still hears the outcome
    let mut want_cpu = frame(7, 1, 4);
    want_cpu.extend_from_slice(&7u16.to_le_bytes());
    want_cpu.extend_from_slice(&(-1i16).to_le_bytes());
    assert_eq!(c.cpu.take_output(), want_cpu);
}

#[test]
fn deregistration_drops_the_crypto_state() {
    let mut c = registered_controller(5);
    let mut req = frame(1, 5, 4);
    req.extend_from_slice(&[5, 0, 1, 0]);
    c.cpu.feed(&req);
    let mut resp = frame(5, 1, 4);
    resp.extend_from_slice(&[5, 0, 1, 0]);
    c.sss.feed(&resp);
    c.step();
    assert!(!c.registered());
}

#[test]
fn direct_send_is_enveloped() {
    let mut a = registered_controller(5);
    let mut send = frame(9, 5, 3);
    send.extend_from_slice(b"AB!");
    a.cpu.feed(&send);
    a.step();
    let out = a.rad.take_output();
    assert_eq!(out.len(), 8 + 104);
    assert_eq!(&out[..8], &frame(9, 5, 104)[..]);
    // the counter of the first direct message to peer 9 is 1
    assert_eq!(&out[8 + 16..8 + 24], &1u64.to_le_bytes());
    // a peer with the session keys recovers the cleartext
    let mut rx = peer_handler();
    let mut buf = vec![0u8; SCEWL_MAX_DATA_SZ];
    buf[..104].copy_from_slice(&out[8..]);
    let rmsg = Message { tgt_id: Id::Other(9), src_id: Id::Other(5), len: 104 };
    assert!(rx.verify(&buf, rmsg));
    assert_eq!(rx.decrypt(&mut buf, rmsg), Some(3));
    assert_eq!(&buf[..3], b"AB!");
}

#[test]
fn broadcast_roundtrip_between_two_devices() {
    let mut a = registered_controller(5);
    let mut b = registered_controller(6);
    let mut send = frame(0, 5, 4);
    send.extend_from_slice(b"ping");
    a.cpu.feed(&send);
    a.step();
    let over_the_air = a.rad.take_output();
    assert_eq!(&over_the_air[..8], &frame(0, 5, 104)[..]);
    b.rad.feed(&over_the_air);
    b.step();
    let mut want = frame(0, 5, 4);
    want.extend_from_slice(b"ping");
    assert_eq!(b.cpu.take_output(), want);
}

#[test]
fn faa_passes_through_unaltered() {
    let mut c = registered_controller(5);
    let mut inbound = frame(5, 2, 11);
    inbound.extend_from_slice(b"hello world");
    c.rad.feed(&inbound);
    c.step();
    let mut want = frame(5, 2, 11);
    want.extend_from_slice(b"hello world");
    assert_eq!(c.cpu.take_output(), want);
    // and outbound: CPU to FAA goes to the radio verbatim
    let mut outbound = frame(2, 5, 3);
    outbound.extend_from_slice(b"abc");
    c.cpu.feed(&outbound);
    c.step();
    let mut want_rad = frame(2, 5, 3);
    want_rad.extend_from_slice(b"abc");
    assert_eq!(c.rad.take_output(), want_rad);
}

#[test]
fn unregistered_device_never_writes_the_radio() {
    let mut c = Controller::new(Id::Other(5), AuthHandler::new(vec![0x42; 64]));
    // a CPU message addressed to the FAA, which a registered device
    // would forward to the radio
    let mut m = frame(2, 5, 3);
    m.extend_from_slice(b"abc");
    c.cpu.feed(&m);
    c.step();
    assert!(c.rad.take_output().is_empty());
    // radio traffic is ignored entirely while unregistered
    let mut rm = frame(5, 9, 1);
    rm.push(0x77);
    c.rad.feed(&rm);
    c.step();
    assert!(c.rad.take_output().is_empty());
    assert!(c.cpu.take_output().is_empty());
}

#[test]
fn tampered_radio_message_never_reaches_the_cpu() {
    let mut a = registered_controller(5);
    let mut b = registered_controller(6);
    let mut send = frame(0, 5, 4);
    send.extend_from_slice(b"ping");
    a.cpu.feed(&send);
    a.step();
    let mut over_the_air = a.rad.take_output();
    over_the_air[8 + 24] ^= 1;
    b.rad.feed(&over_the_air);
    b.step();
    assert!(b.cpu.take_output().is_empty());
}

#[test]
fn resynchronisation_accepts_noise_before_the_magic() {
    let mut ch = Channel::new();
    let mut data = vec![0u8; 256];
    let mut noisy: Vec<u8> = vec![b'S', b'S', b'S', b'S', b'C'];
    noisy.extend_from_slice(&[5, 0, 0, 0, 0, 0]);
    ch.feed(&noisy);
    let got = read_frame(&mut ch, &mut data, INTF::CPU, Id::Other(9), 200, None);
    assert_eq!(got, Ok(Message { tgt_id: Id::Other(5), src_id: Id::Broadcast, len: 0 }));
    // arbitrary garbage before the pair is skipped too
    let mut garbled: Vec<u8> = vec![0x00, b'C', 0x41, b'S', b'X'];
    garbled.extend_from_slice(&frame(5, 7, 1));
    garbled.push(0x7f);
    ch.feed(&garbled);
    let got = read_frame(&mut ch, &mut data, INTF::CPU, Id::Other(9), 200, None);
    assert_eq!(got, Ok(Message { tgt_id: Id::Other(5), src_id: Id::Other(7), len: 1 }));
    assert_eq!(data[0], 0x7f);
}

#[test]
fn overlong_message_is_discarded_whole() {
    let mut ch = Channel::new();
    let mut data = vec![0u8; 256];
    let mut long = frame(5, 7, 300);
    long.extend_from_slice(&[0xee; 300]);
    ch.feed(&long);
    let got = read_frame(&mut ch, &mut data, INTF::CPU, Id::Other(9), 200, None);
    assert_eq!(got, Err(Error::NoMessage));
    // the declared body was consumed with the header: the next message
    // is read cleanly
    let mut next = frame(5, 7, 2);
    next.extend_from_slice(&[1, 2]);
    ch.feed(&next);
    let got = read_frame(&mut ch, &mut data, INTF::CPU, Id::Other(9), 200, None);
    assert_eq!(got, Ok(Message { tgt_id: Id::Other(5), src_id: Id::Other(7), len: 2 }));
    assert_eq!(&data[..2], &[1, 2]);
}

#[test]
fn radio_echo_of_own_messages_is_dropped() {
    let mut ch = Channel::new();
    let mut data = vec![0u8; 256];
    let mut echo = frame(3, 5, 2);
    echo.extend_from_slice(&[1, 2]);
    ch.feed(&echo);
    let got = read_frame(&mut ch, &mut data, INTF::RAD, Id::Other(5), 200, None);
    assert_eq!(got, Err(Error::NoMessage));
    // the tail was discarded; an FAA frame behind it is read cleanly
    let mut next = frame(5, 2, 2);
    next.extend_from_slice(&[9, 9]);
    ch.feed(&next);
    let got = read_frame(&mut ch, &mut data, INTF::RAD, Id::Other(5), 200, None);
    assert_eq!(got, Ok(Message { tgt_id: Id::Other(5), src_id: Id::FAA, len: 2 }));
}

#[test]
fn secure_radio_read_without_crypto_state_is_refused() {
    let mut ch = Channel::new();
    let mut data = vec![0u8; 256];
    let mut m = frame(5, 9, 0);
    m.extend_from_slice(&[]);
    ch.feed(&m);
    let got = read_frame(&mut ch, &mut data, INTF::RAD, Id::Other(5), 200, None);
    assert_eq!(got, Err(Error::Unknown));
}

#[test]
fn messages_for_other_devices_are_dropped() {
    let mut b = registered_controller(6);
    // a direct message addressed to device 9, overheard by device 6
    let mut tx = peer_handler();
    let mut buf = vec![0u8; SCEWL_MAX_DATA_SZ];
    buf[..3].copy_from_slice(b"AB!");
    let n = tx
        .encrypt(&mut buf, Message { tgt_id: Id::Other(9), src_id: Id::Other(5), len: 3 })
        .expect("seal");
    let mut over_the_air = frame(9, 5, n as u16);
    over_the_air.extend_from_slice(&buf[..n]);
    b.rad.feed(&over_the_air);
    b.step();
    assert!(b.cpu.take_output().is_empty());
}
