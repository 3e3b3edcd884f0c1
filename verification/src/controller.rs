//! The controller: framed reads and writes on the three channels, and the
//! dispatch state machine that mediates traffic between the host CPU, the
//! registration service and the radio.

use vstd::prelude::*;
use crate::channel::{
    Channel, INTF, index_of_from, index_of_neq_from, lemma_index_of_from, lemma_index_of_neq_from,
};
use crate::codec::{u64_from_le, splice_bytes, clone_bytes};
use crate::msg::{
    Id, SSSOp, Error, Message, MessageHeader, SSSMessage, header_bytes, header_from_field_bytes,
    sss_message_bytes, sss_message_from_bytes, spec_id_to_u16, id_wf, SCEWL_MAX_DATA_SZ,
};
use crate::secure::{
    CryptoHandler, AuthHandler, SecureSSSMessage, SecureSSSResponse, secure_sss_message_bytes,
    spec_verify, open_content, prev_ctr, pad16,
};

verus! {

/// Whether the two magic bytes `S`, `C` stand at positions `q` and `q+1`
/// of `s`.
pub open spec fn sync_pair_at(s: Seq<u8>, q: int) -> bool {
    0 <= q && q + 1 < s.len() && s[q] == 83 && s[q + 1] == 67
}

/// The position of the `C` of the first magic pair whose `S` stands at or
/// after `p`, or -1 when the stream holds none.
pub open spec fn first_sync(s: Seq<u8>, p: int) -> int
    decreases s.len() - p,
{
    if p < 0 || p + 1 >= s.len() {
        -1
    } else if s[p] == 83 && s[p + 1] == 67 {
        p + 1
    } else {
        first_sync(s, p + 1)
    }
}

/// What `first_sync` returns: the `C` of the earliest magic pair at or
/// after `p`, or -1 when there is none.
pub proof fn lemma_first_sync_props(s: Seq<u8>, p: int)
    requires
        0 <= p,
    ensures
        first_sync(s, p) >= 0 ==> p <= first_sync(s, p) - 1 && sync_pair_at(s, first_sync(s, p) - 1)
            && (forall|q: int| p <= q < first_sync(s, p) - 1 ==> !sync_pair_at(s, q)),
        first_sync(s, p) < 0 ==> (forall|q: int| p <= q ==> !sync_pair_at(s, q)),
    decreases s.len() - p,
{
    if p + 1 >= s.len() {
    } else if s[p] == 83 && s[p + 1] == 67 {
    } else {
        lemma_first_sync_props(s, p + 1);
    }
}

/// Skipping a stretch that holds no magic pair does not move the first
/// synchronisation point.
pub proof fn lemma_first_sync_skip(s: Seq<u8>, p: int, p2: int)
    requires
        0 <= p <= p2,
        forall|q: int| p <= q < p2 ==> !sync_pair_at(s, q),
    ensures
        first_sync(s, p) == first_sync(s, p2),
    decreases p2 - p,
{
    if p < p2 {
        assert(!sync_pair_at(s, p));
        lemma_first_sync_skip(s, p + 1, p2);
    }
}

/// The framed-read outcome on the plain (unenveloped) path, for a body of
/// `l` bytes starting at `body0` of stream `s`: either the whole body was
/// there, or the stream ran dry.
pub open spec fn plain_body_read(s: Seq<u8>, body0: int, l: int, r: Result<Message, Error>, pos:
    int, hdr: MessageHeader, data: Seq<u8>) -> bool {
    if body0 + l <= s.len() {
        &&& r == Ok::<Message, Error>(
            Message { tgt_id: hdr.tgt_id, src_id: hdr.src_id, len: hdr.len as usize },
        )
        &&& pos == body0 + l
        &&& data.subrange(0, l) == s.subrange(body0, body0 + l)
    } else {
        &&& r == Err::<Message, Error>(Error::NoMessage)
        &&& pos == s.len()
    }
}

/// The complete outcome of one framed read from a stream `s` consumed
/// from `p0`: the result `r`, the new consumption position `pos`, and the
/// buffer contents `data` after the read, for the given line, device id,
/// length bound and crypto state.
pub open spec fn read_frame_post(
    s: Seq<u8>,
    p0: int,
    intf: INTF,
    self_id: Id,
    max_len: u16,
    crypto: Option<CryptoHandler>,
    r: Result<Message, Error>,
    pos: int,
    data: Seq<u8>,
) -> bool {
    let j = first_sync(s, p0);
    &&& (j < 0 ==> r == Err::<Message, Error>(Error::NoMessage) && pos == s.len())
    &&& (j >= 0 && j + 7 > s.len() ==> r == Err::<Message, Error>(Error::NoMessage) && pos
        == s.len())
    &&& (j >= 0 && j + 7 <= s.len() ==> ({
        let hdr = header_from_field_bytes(s.subrange(j + 1, j + 7));
        let l = hdr.len as int;
        let body0 = j + 7;
        if intf is RAD && hdr.src_id == self_id {
            r == Err::<Message, Error>(Error::NoMessage) && pos == vstd::math::min(
                body0 + l,
                s.len() as int,
            )
        } else if hdr.len > max_len {
            r == Err::<Message, Error>(Error::NoMessage) && pos == vstd::math::min(
                body0 + l,
                s.len() as int,
            )
        } else if intf is RAD && !(hdr.src_id is FAA) {
            match crypto {
                None => r == Err::<Message, Error>(Error::Unknown) && pos == body0,
                Some(c) => {
                    if l < 56 {
                        r == Err::<Message, Error>(Error::Unknown) && pos == vstd::math::min(
                            body0 + l,
                            s.len() as int,
                        )
                    } else if body0 + 56 > s.len() {
                        r == Err::<Message, Error>(Error::NoMessage) && pos == s.len()
                    } else {
                        let seg = s.subrange(body0, body0 + 56);
                        let m = Message {
                            tgt_id: hdr.tgt_id,
                            src_id: hdr.src_id,
                            len: hdr.len as usize,
                        };
                        if !spec_verify(c.hmac_key_view(), c.recv_ctrs(), c.bcast_ctrs(), seg, m) {
                            r == Err::<Message, Error>(Error::Unknown) && pos == vstd::math::min(
                                body0 + l,
                                s.len() as int,
                            )
                        } else {
                            plain_body_read(s, body0, l, r, pos, hdr, data)
                        }
                    }
                },
            }
        } else {
            plain_body_read(s, body0, l, r, pos, hdr, data)
        }
    }))
}

/// Read one framed message from `ch` into the front of `data`.
///
/// The reader discards bytes until the magic pair `S`, `C`, decodes the
/// six header bytes that follow, and applies, in order: a radio message
/// whose source is this device is dropped; a message longer than
/// `max_len` is dropped with its declared body; a radio message from any
/// source but the FAA must carry a verification segment that the crypto
/// state accepts, else it is dropped unread. The body is then read into
/// `data`; a stream that runs dry first yields `NoMessage`.
pub fn read_frame(
    ch: &mut Channel,
    data: &mut Vec<u8>,
    intf: INTF,
    self_id: Id,
    max_len: u16,
    crypto: Option<&CryptoHandler>,
) -> (r: Result<Message, Error>)
    requires
        old(ch).wf(),
        max_len <= old(data)@.len(),
        old(data)@.len() <= usize::MAX,
        (match crypto {
            Some(c) => c.wf(),
            None => true,
        }),
    ensures
        final(ch).wf(),
        final(ch).input == old(ch).input,
        final(ch).output == old(ch).output,
        final(data)@.len() == old(data)@.len(),
        old(ch).pos <= final(ch).pos,
        old(ch).pos < old(ch).input@.len() ==> final(ch).pos > old(ch).pos,
        read_frame_post(
            old(ch).input@,
            old(ch).pos as int,
            intf,
            self_id,
            max_len,
            (match crypto {
                Some(c) => Some(*c),
                None => None,
            }),
            r,
            final(ch).pos as int,
            final(data)@,
        ),
{
    let ml = max_len as usize;
    let mut i: usize = 0;
    while i < ml
        invariant
            i <= ml,
            ml <= data@.len(),
            data@.len() == old(data)@.len(),
        decreases ml - i,
    {
        data.set(i, 0);
        i = i + 1;
    }
    let ghost s = ch.input@;
    let ghost p0 = ch.pos as int;
    loop
        invariant_except_break
            first_sync(s, p0) == first_sync(s, ch.pos as int),
        invariant
            ch.wf(),
            ch.input == old(ch).input,
            ch.input@ == s,
            ch.output == old(ch).output,
            data@.len() == old(data)@.len(),
            p0 == old(ch).pos,
            p0 <= ch.pos,
        ensures
            first_sync(s, p0) >= 0,
            first_sync(s, p0) == ch.pos - 1,
        decreases s.len() - ch.pos,
    {
        let ghost pp = ch.pos as int;
        let first = ch.discard_until(83);
        if first.is_err() {
            proof {
                lemma_index_of_from(s, pp, 83);
                assert forall|q: int| pp <= q implies !sync_pair_at(s, q) by {
                    if q + 1 < s.len() {
                        assert(s[q] != 83);
                    }
                };
                lemma_first_sync_props(s, pp);
                if first_sync(s, pp) >= 0 {
                    assert(sync_pair_at(s, first_sync(s, pp) - 1));
                }
            }
            return Err(Error::NoMessage);
        }
        let ghost si = index_of_from(s, pp, 83);
        proof {
            lemma_index_of_from(s, pp, 83);
        }
        let ghost q0 = ch.pos as int;
        let second = ch.discard_while_eq(83);
        proof {
            lemma_index_of_neq_from(s, q0, 83);
        }
        match second {
            Err(_) => {
                proof {
                    assert forall|q: int| pp <= q implies !sync_pair_at(s, q) by {
                        if q + 1 < s.len() {
                            if q < si {
                                assert(s[q] != 83);
                            } else {
                                assert(s[q + 1] == 83);
                            }
                        }
                    };
                    lemma_first_sync_props(s, pp);
                    if first_sync(s, pp) >= 0 {
                        assert(sync_pair_at(s, first_sync(s, pp) - 1));
                    }
                }
                return Err(Error::NoMessage);
            },
            Ok(c) => {
                let ghost k = index_of_neq_from(s, q0, 83);
                proof {
                    assert(s[k] != 83);
                    assert(s[k - 1] == 83);
                    assert forall|q: int| pp <= q < k - 1 implies !sync_pair_at(s, q) by {
                        if q < si {
                            assert(s[q] != 83);
                        } else {
                            assert(s[q + 1] == 83);
                        }
                    };
                }
                if c == 67 {
                    proof {
                        assert(sync_pair_at(s, k - 1));
                        lemma_first_sync_skip(s, pp, k - 1);
                        assert(first_sync(s, k - 1) == k);
                    }
                    break ;
                }
                proof {
                    assert(!sync_pair_at(s, k - 1));
                    assert forall|q: int| pp <= q < k + 1 implies !sync_pair_at(s, q) by {
                        if q < si {
                            assert(s[q] != 83);
                        } else if q < k - 1 {
                            assert(s[q + 1] == 83);
                        }
                    };
                    lemma_first_sync_skip(s, pp, k + 1);
                }
            },
        }
    }
    let ghost j = first_sync(s, p0);
    assert(j == ch.pos - 1);
    assert(j >= 0);
    proof {
        lemma_first_sync_props(s, p0);
    }
    let mut hdrbuf: Vec<u8> = Vec::new();
    hdrbuf.push(0);
    hdrbuf.push(0);
    hdrbuf.push(0);
    hdrbuf.push(0);
    hdrbuf.push(0);
    hdrbuf.push(0);
    if ch.read_into(&mut hdrbuf, 0, 6).is_err() {
        return Err(Error::NoMessage);
    }
    proof {
        assert(hdrbuf@ =~= s.subrange(j + 1, j + 7));
    }
    let hdr = MessageHeader::from_bytes(hdrbuf.as_slice());
    let l_us = hdr.len as usize;
    let ghost body0 = j + 7;
    if intf == INTF::RAD && hdr.src_id == self_id {
        ch.discard(l_us);
        return Err(Error::NoMessage);
    }
    if hdr.len > max_len {
        ch.discard(l_us);
        return Err(Error::NoMessage);
    }
    let m = Message { tgt_id: hdr.tgt_id, src_id: hdr.src_id, len: l_us };
    let mut already: usize = 0;
    if intf == INTF::RAD && !(hdr.src_id == Id::FAA) {
        let c = match crypto {
            Some(c) => c,
            None => {
                return Err(Error::Unknown);
            },
        };
        if l_us < 56 {
            ch.discard(l_us);
            return Err(Error::Unknown);
        }
        already = 56;
        if ch.read_into(data, 0, 56).is_err() {
            return Err(Error::NoMessage);
        }
        let ok = c.verify(data, m);
        proof {
            let seg = s.subrange(body0, body0 + 56);
            assert(data@.subrange(0, 16) =~= seg.subrange(0, 16));
            assert(data@.subrange(16, 24) =~= seg.subrange(16, 24));
            assert(data@.subrange(24, 56) =~= seg.subrange(24, 56));
        }
        if !ok {
            ch.discard(l_us - 56);
            return Err(Error::Unknown);
        }
    }
    match ch.read_into(data, already, l_us - already) {
        Ok(_) => {
            proof {
                assert(data@.subrange(0, l_us as int) =~= s.subrange(body0, body0 + l_us));
            }
            Ok(m)
        },
        Err(_) => Err(Error::NoMessage),
    }
}

/// A complete plain frame on stream `s` from `p0`: the header decoded
/// after the first magic pair, provided the six header bytes and the
/// declared body of at most `max_len` bytes are all present. The second
/// component is the position of the body.
pub open spec fn plain_frame(s: Seq<u8>, p0: int, max_len: u16) -> Option<(MessageHeader, int)> {
    let j = first_sync(s, p0);
    if j >= 0 && j + 7 <= s.len() {
        let hdr = header_from_field_bytes(s.subrange(j + 1, j + 7));
        if hdr.len <= max_len && j + 7 + hdr.len <= s.len() {
            Some((hdr, j + 7))
        } else {
            None
        }
    } else {
        None
    }
}

/// The framed reply available on an SSS stream `s` from position `p0`:
/// a complete frame with a body of at most 116 bytes.
pub open spec fn sss_reply(s: Seq<u8>, p0: int) -> Option<(MessageHeader, int)> {
    plain_frame(s, p0, 116)
}

/// The 4-byte control message shown to the CPU for the SSS reply whose
/// body starts at `b` of stream `s`: the reply's device id and operation.
pub open spec fn reply_notify_bytes(s: Seq<u8>, b: int) -> Seq<u8> {
    sss_message_bytes(
        SSSMessage {
            dev_id: crate::msg::spec_id_from_u16(crate::codec::u16_from_le(s[b], s[b + 1])),
            op: crate::msg::spec_op_from_i16(crate::codec::i16_from_le(s[b + 2], s[b + 3])),
        },
    )
}

/// The CPU heard the outcome of a registration exchange: its output grew
/// by exactly the framed 4-byte notification when a parseable reply (at
/// least id and operation) arrived on the SSS stream, and not at all
/// otherwise.
pub open spec fn cpu_notified(sss0: Channel, cpu0: Channel, cpu1: Channel, self_id: Id) -> bool {
    match sss_reply(sss0.input@, sss0.pos as int) {
        Some((hdr, b)) => if hdr.len >= 4 {
            cpu1.output@ == cpu0.output@ + frame_bytes(
                self_id,
                Id::SSS,
                4,
                reply_notify_bytes(sss0.input@, b),
            )
        } else {
            cpu1.output@ == cpu0.output@
        },
        None => cpu1.output@ == cpu0.output@,
    }
}

/// A channel whose output grew by exactly the bytes `b`, everything else
/// untouched.
pub open spec fn only_output_appended(c0: Channel, c1: Channel, b: Seq<u8>) -> bool {
    c1.input == c0.input && c1.pos == c0.pos && c1.output@ == c0.output@ + b
}

/// The bytes a framed send puts on the wire: the transport header, then
/// the body.
pub open spec fn frame_bytes(tgt: Id, src: Id, len: u16, body: Seq<u8>) -> Seq<u8> {
    header_bytes(MessageHeader { tgt_id: tgt, src_id: src, len: len }) + body
}

/// The controller: its identity, the three serial lines, the one shared
/// data buffer every message passes through, the registration secret, and
/// the crypto state that exists exactly while the device is registered.
pub struct Controller {
    /// The identifier of this device.
    pub id: Id,
    /// The line to the host CPU.
    pub cpu: Channel,
    /// The line to the registration service.
    pub sss: Channel,
    /// The line to the radio.
    pub rad: Channel,
    /// The shared buffer that holds every inbound and outbound message.
    pub data: Vec<u8>,
    /// The authentication state: the device's registration secret.
    pub auth: AuthHandler,
    /// The crypto state; present exactly while the device is registered.
    pub crypto: Option<CryptoHandler>,
}

impl Controller {
    /// The channels are sound, the buffer has its fixed size, the device
    /// id is an ordinary peer id, and whatever crypto state exists is
    /// sound.
    pub open spec fn wf(self) -> bool {
        &&& self.cpu.wf()
        &&& self.sss.wf()
        &&& self.rad.wf()
        &&& self.data@.len() == SCEWL_MAX_DATA_SZ
        &&& self.auth.wf()
        &&& (match self.crypto {
            Some(c) => c.wf(),
            None => true,
        })
        &&& self.id is Other
        &&& id_wf(self.id)
    }

    /// Build a controller in the unregistered state, with fresh channels
    /// and a zeroed buffer.
    pub fn new(id: Id, auth: AuthHandler) -> (r: Controller)
        requires
            auth.wf(),
            id is Other,
            id_wf(id),
        ensures
            r.wf(),
            r.id == id,
            r.auth == auth,
            r.crypto is None,
            r.cpu.input@ == Seq::<u8>::empty(),
            r.cpu.output@ == Seq::<u8>::empty(),
            r.cpu.pos == 0,
            r.sss.input@ == Seq::<u8>::empty(),
            r.sss.output@ == Seq::<u8>::empty(),
            r.sss.pos == 0,
            r.rad.input@ == Seq::<u8>::empty(),
            r.rad.output@ == Seq::<u8>::empty(),
            r.rad.pos == 0,
    {
        let mut data: Vec<u8> = Vec::new();
        let mut i: usize = 0;
        while i < SCEWL_MAX_DATA_SZ
            invariant
                i <= SCEWL_MAX_DATA_SZ,
                data@.len() == i,
            decreases SCEWL_MAX_DATA_SZ - i,
        {
            data.push(0);
            i = i + 1;
        }
        Controller {
            id,
            cpu: Channel::new(),
            sss: Channel::new(),
            rad: Channel::new(),
            data,
            auth,
            crypto: None,
        }
    }

    /// The identifier of this device.
    pub fn id(&self) -> (r: Id)
        ensures
            r == self.id,
    {
        self.id
    }

    /// Whether the device is registered: exactly when crypto state
    /// exists.
    pub fn registered(&self) -> (r: bool)
        ensures
            r == (self.crypto is Some),
    {
        match self.crypto {
            Some(_) => true,
            None => false,
        }
    }

    /// The shared data buffer, for callers that fill or inspect a
    /// message body.
    pub fn data(&mut self) -> (r: &mut Vec<u8>)
        ensures
            *r == old(self).data,
            final(self).data == *final(r),
            final(self).id == old(self).id,
            final(self).cpu == old(self).cpu,
            final(self).sss == old(self).sss,
            final(self).rad == old(self).rad,
            final(self).auth == old(self).auth,
            final(self).crypto == old(self).crypto,
    {
        &mut self.data
    }

    /// Write the message framed: the 8-byte transport header, then the
    /// first `msg.len` bytes of the shared buffer, to the chosen line.
    pub fn send_msg(&mut self, intf: INTF, msg: &Message) -> (r: Result<(), Error>)
        requires
            old(self).wf(),
            msg.len <= u16::MAX,
            msg.len <= old(self).data@.len(),
        ensures
            final(self).wf(),
            r == Ok::<(), Error>(()),
            final(self).id == old(self).id,
            final(self).auth == old(self).auth,
            final(self).crypto == old(self).crypto,
            final(self).data == old(self).data,
            ({
                let fb = frame_bytes(
                    msg.tgt_id,
                    msg.src_id,
                    msg.len as u16,
                    old(self).data@.subrange(0, msg.len as int),
                );
                &&& (intf is CPU ==> only_output_appended(old(self).cpu, final(self).cpu, fb)
                    && final(self).sss == old(self).sss && final(self).rad == old(self).rad)
                &&& (intf is SSS ==> only_output_appended(old(self).sss, final(self).sss, fb)
                    && final(self).cpu == old(self).cpu && final(self).rad == old(self).rad)
                &&& (intf is RAD ==> only_output_appended(old(self).rad, final(self).rad, fb)
                    && final(self).cpu == old(self).cpu && final(self).sss == old(self).sss)
            }),
    {
        let hdr = msg.to_canonical();
        let hb = hdr.to_bytes();
        match intf {
            INTF::CPU => {
                self.cpu.write_all(hb.as_slice());
                self.cpu.write_from(&self.data, 0, msg.len);
                proof {
                    assert(self.cpu.output@ =~= old(self).cpu.output@ + (header_bytes(hdr)
                        + old(self).data@.subrange(0, msg.len as int)));
                }
            },
            INTF::SSS => {
                self.sss.write_all(hb.as_slice());
                self.sss.write_from(&self.data, 0, msg.len);
                proof {
                    assert(self.sss.output@ =~= old(self).sss.output@ + (header_bytes(hdr)
                        + old(self).data@.subrange(0, msg.len as int)));
                }
            },
            INTF::RAD => {
                self.rad.write_all(hb.as_slice());
                self.rad.write_from(&self.data, 0, msg.len);
                proof {
                    assert(self.rad.output@ =~= old(self).rad.output@ + (header_bytes(hdr)
                        + old(self).data@.subrange(0, msg.len as int)));
                }
            },
        }
        Ok(())
    }

    /// Read one framed message of at most `max_len` body bytes from the
    /// chosen line into the shared buffer. On the radio, a message from
    /// any source but the FAA is checked against the crypto state before
    /// its body is accepted; the other lines carry plain frames.
    pub fn read_msg(&mut self, intf: INTF, max_len: u16) -> (r: Result<Message, Error>)
        requires
            old(self).wf(),
            max_len <= SCEWL_MAX_DATA_SZ,
        ensures
            final(self).wf(),
            final(self).id == old(self).id,
            final(self).auth == old(self).auth,
            final(self).crypto == old(self).crypto,
            final(self).cpu.input == old(self).cpu.input,
            final(self).sss.input == old(self).sss.input,
            final(self).rad.input == old(self).rad.input,
            final(self).cpu.output == old(self).cpu.output,
            final(self).sss.output == old(self).sss.output,
            final(self).rad.output == old(self).rad.output,
            final(self).data@.len() == old(self).data@.len(),
            intf is CPU ==> (final(self).sss == old(self).sss && final(self).rad == old(self).rad
                && read_frame_post(
                old(self).cpu.input@,
                old(self).cpu.pos as int,
                intf,
                old(self).id,
                max_len,
                None,
                r,
                final(self).cpu.pos as int,
                final(self).data@,
            ) && (old(self).cpu.pos < old(self).cpu.input@.len() ==> final(self).cpu.pos > old(
                self,
            ).cpu.pos)),
            intf is SSS ==> (final(self).cpu == old(self).cpu && final(self).rad == old(self).rad
                && read_frame_post(
                old(self).sss.input@,
                old(self).sss.pos as int,
                intf,
                old(self).id,
                max_len,
                None,
                r,
                final(self).sss.pos as int,
                final(self).data@,
            ) && (old(self).sss.pos < old(self).sss.input@.len() ==> final(self).sss.pos > old(
                self,
            ).sss.pos)),
            intf is RAD ==> (final(self).cpu == old(self).cpu && final(self).sss == old(self).sss
                && read_frame_post(
                old(self).rad.input@,
                old(self).rad.pos as int,
                intf,
                old(self).id,
                max_len,
                old(self).crypto,
                r,
                final(self).rad.pos as int,
                final(self).data@,
            ) && (old(self).rad.pos < old(self).rad.input@.len() ==> final(self).rad.pos > old(
                self,
            ).rad.pos)),
    {
        let self_id = self.id;
        match intf {
            INTF::CPU => read_frame(
                &mut self.cpu,
                &mut self.data,
                INTF::CPU,
                self_id,
                max_len,
                None,
            ),
            INTF::SSS => read_frame(
                &mut self.sss,
                &mut self.data,
                INTF::SSS,
                self_id,
                max_len,
                None,
            ),
            INTF::RAD => {
                match &self.crypto {
                    Some(c) => read_frame(
                        &mut self.rad,
                        &mut self.data,
                        INTF::RAD,
                        self_id,
                        max_len,
                        Some(c),
                    ),
                    None => read_frame(
                        &mut self.rad,
                        &mut self.data,
                        INTF::RAD,
                        self_id,
                        max_len,
                        None,
                    ),
                }
            },
        }
    }

    /// Forward an FAA message from the radio to the CPU exactly as it
    /// stands in the buffer: no crypto touches it.
    pub fn handle_faa_recv(&mut self, len: usize) -> (r: Result<(), Error>)
        requires
            old(self).wf(),
            len <= old(self).data@.len(),
            len <= u16::MAX,
        ensures
            final(self).wf(),
            r == Ok::<(), Error>(()),
            final(self).id == old(self).id,
            final(self).auth == old(self).auth,
            final(self).crypto == old(self).crypto,
            final(self).data == old(self).data,
            final(self).sss == old(self).sss,
            final(self).rad == old(self).rad,
            only_output_appended(
                old(self).cpu,
                final(self).cpu,
                frame_bytes(
                    old(self).id,
                    Id::FAA,
                    len as u16,
                    old(self).data@.subrange(0, len as int),
                ),
            ),
    {
        let tgt = self.id;
        self.send_msg(INTF::CPU, &Message { src_id: Id::FAA, tgt_id: tgt, len })
    }

    /// Forward an FAA message from the CPU to the radio exactly as it
    /// stands in the buffer: no crypto touches it.
    pub fn handle_faa_send(&mut self, len: usize) -> (r: Result<(), Error>)
        requires
            old(self).wf(),
            len <= old(self).data@.len(),
            len <= u16::MAX,
        ensures
            final(self).wf(),
            r == Ok::<(), Error>(()),
            final(self).id == old(self).id,
            final(self).auth == old(self).auth,
            final(self).crypto == old(self).crypto,
            final(self).data == old(self).data,
            final(self).sss == old(self).sss,
            final(self).cpu == old(self).cpu,
            only_output_appended(
                old(self).rad,
                final(self).rad,
                frame_bytes(
                    Id::FAA,
                    old(self).id,
                    len as u16,
                    old(self).data@.subrange(0, len as int),
                ),
            ),
    {
        let src = self.id;
        self.send_msg(INTF::RAD, &Message { src_id: src, tgt_id: Id::FAA, len })
    }

    /// What a secure send promises: with sound crypto state, the seal
    /// succeeds exactly when the counter for peer `k` in table `m0` (of
    /// `c0` tracked peers) can advance; the radio then carries one framed
    /// envelope whose content opens back to the cleartext.
    pub open spec fn secure_send_post(
        self,
        post: Controller,
        r: Result<(), Error>,
        tgt: Id,
        len: usize,
        k: u16,
        m0: Map<u16, u64>,
        c0: nat,
        aes_key: Seq<u8>,
    ) -> bool {
        let prev = prev_ctr(m0, k);
        let ok = prev < u64::MAX && (m0.dom().contains(k) || c0 < 256);
        let n = 56 + pad16(40 + len as int);
        &&& (r is Ok <==> ok)
        &&& (!ok ==> post.rad == self.rad && post.data@ == self.data@)
        &&& (ok ==> only_output_appended(
            self.rad,
            post.rad,
            frame_bytes(tgt, self.id, n as u16, post.data@.subrange(0, n)),
        ) && open_content(
            aes_key,
            post.data@.subrange(0, 16),
            post.data@.subrange(56, n),
        ) == Some(self.data@.subrange(0, len as int)) && post.data@.subrange(16, 24)
            == crate::codec::u64_le((prev + 1) as u64))
    }

    /// Encrypt the buffer's first `len` bytes for the peer `tgt_id` and
    /// send the envelope over the radio. Fails without sending when the
    /// device is unregistered or the peer's send counter cannot advance.
    pub fn handle_scewl_send(&mut self, tgt_id: Id, len: usize) -> (r: Result<(), Error>)
        requires
            old(self).wf(),
            tgt_id is Other,
            56 + pad16(40 + len as int) <= old(self).data@.len(),
        ensures
            final(self).wf(),
            final(self).id == old(self).id,
            final(self).auth == old(self).auth,
            final(self).cpu == old(self).cpu,
            final(self).sss == old(self).sss,
            old(self).crypto is None ==> (r == Err::<(), Error>(Error::Unknown) && *final(self)
                == *old(self)),
            old(self).crypto matches Some(c) ==> (final(self).crypto matches Some(c2) && c2.wf()
                && c2.aes_key_view() == c.aes_key_view() && c2.hmac_key_view() == c.hmac_key_view()
                && c2.recv_ctrs() == c.recv_ctrs() && c2.bcast_ctrs() == c.bcast_ctrs()
                && old(self).secure_send_post(
                *final(self),
                r,
                tgt_id,
                len,
                spec_id_to_u16(tgt_id),
                c.send_ctrs(),
                c.send_count(),
                c.aes_key_view(),
            ) && (r is Ok ==> c2.send_ctrs() == c.send_ctrs().insert(
                spec_id_to_u16(tgt_id),
                (prev_ctr(c.send_ctrs(), spec_id_to_u16(tgt_id)) + 1) as u64,
            )) && (r is Err ==> c2.send_ctrs() == c.send_ctrs())),
    {
        let src = self.id;
        let msg = Message { tgt_id, src_id: src, len };
        let n_opt = match &mut self.crypto {
            Some(c) => c.encrypt(&mut self.data, msg),
            None => {
                return Err(Error::Unknown);
            },
        };
        let n = match n_opt {
            Some(n) => n,
            None => {
                return Err(Error::Unknown);
            },
        };
        self.send_msg(INTF::RAD, &Message { tgt_id, src_id: src, len: n })
    }

    /// Encrypt the buffer's first `len` bytes as a broadcast and send the
    /// envelope over the radio. Fails without sending when the device is
    /// unregistered or its broadcast counter cannot advance.
    pub fn handle_brdcst_send(&mut self, len: usize) -> (r: Result<(), Error>)
        requires
            old(self).wf(),
            56 + pad16(40 + len as int) <= old(self).data@.len(),
        ensures
            final(self).wf(),
            final(self).id == old(self).id,
            final(self).auth == old(self).auth,
            final(self).cpu == old(self).cpu,
            final(self).sss == old(self).sss,
            old(self).crypto is None ==> (r == Err::<(), Error>(Error::Unknown) && *final(self)
                == *old(self)),
            old(self).crypto matches Some(c) ==> (final(self).crypto matches Some(c2) && c2.wf()
                && c2.aes_key_view() == c.aes_key_view() && c2.hmac_key_view() == c.hmac_key_view()
                && c2.recv_ctrs() == c.recv_ctrs() && c2.send_ctrs() == c.send_ctrs()
                && old(self).secure_send_post(
                *final(self),
                r,
                Id::Broadcast,
                len,
                spec_id_to_u16(old(self).id),
                c.bcast_ctrs(),
                c.bcast_count(),
                c.aes_key_view(),
            ) && (r is Ok ==> c2.bcast_ctrs() == c.bcast_ctrs().insert(
                spec_id_to_u16(old(self).id),
                (prev_ctr(c.bcast_ctrs(), spec_id_to_u16(old(self).id)) + 1) as u64,
            )) && (r is Err ==> c2.bcast_ctrs() == c.bcast_ctrs())),
    {
        let src = self.id;
        let msg = Message { tgt_id: Id::Broadcast, src_id: src, len };
        let n_opt = match &mut self.crypto {
            Some(c) => c.encrypt(&mut self.data, msg),
            None => {
                return Err(Error::Unknown);
            },
        };
        let n = match n_opt {
            Some(n) => n,
            None => {
                return Err(Error::Unknown);
            },
        };
        self.send_msg(INTF::RAD, &Message { tgt_id: Id::Broadcast, src_id: src, len: n })
    }

    /// What a secure receive promises: the peer's counter in table `m0`
    /// is committed from the verification segment; the CPU sees exactly
    /// the recovered cleartext, framed, or nothing at all.
    pub open spec fn secure_recv_post(
        self,
        post: Controller,
        r: Result<(), Error>,
        out_tgt: Id,
        src_id: Id,
        len: usize,
        m0: Map<u16, u64>,
        c0: nat,
        aes_key: Seq<u8>,
    ) -> bool {
        let k = spec_id_to_u16(src_id);
        let ins_ok = m0.dom().contains(k) || c0 < 256;
        let res = open_content(
            aes_key,
            self.data@.subrange(0, 16),
            self.data@.subrange(56, len as int),
        );
        &&& (!ins_ok ==> r == Err::<(), Error>(Error::Unknown) && post.cpu == self.cpu
            && post.data@ == self.data@)
        &&& (ins_ok ==> (match res {
            None => r == Err::<(), Error>(Error::Unknown) && post.cpu == self.cpu && post.data@
                == self.data@,
            Some(m) => r == Ok::<(), Error>(()) && post.data@.subrange(0, m.len() as int) == m
                && only_output_appended(
                self.cpu,
                post.cpu,
                frame_bytes(out_tgt, src_id, m.len() as u16, m),
            ),
        }))
    }

    /// Decrypt a direct radio message held in the buffer and forward the
    /// cleartext to the CPU. The sender's counter is committed first;
    /// a body that fails to open is dropped and the CPU sees nothing.
    pub fn handle_scewl_recv(&mut self, src_id: Id, len: usize) -> (r: Result<(), Error>)
        requires
            old(self).wf(),
            56 <= len,
            len <= old(self).data@.len(),
        ensures
            final(self).wf(),
            final(self).id == old(self).id,
            final(self).auth == old(self).auth,
            final(self).sss == old(self).sss,
            final(self).rad == old(self).rad,
            r is Err ==> final(self).cpu == old(self).cpu,
            old(self).crypto is None ==> (r == Err::<(), Error>(Error::Unknown) && *final(self)
                == *old(self)),
            old(self).crypto matches Some(c) ==> (final(self).crypto matches Some(c2) && c2.wf()
                && c2.aes_key_view() == c.aes_key_view() && c2.hmac_key_view() == c.hmac_key_view()
                && c2.send_ctrs() == c.send_ctrs() && c2.bcast_ctrs() == c.bcast_ctrs()
                && old(self).secure_recv_post(
                *final(self),
                r,
                old(self).id,
                src_id,
                len,
                c.recv_ctrs(),
                c.recv_count(),
                c.aes_key_view(),
            ) && ((c.recv_ctrs().dom().contains(spec_id_to_u16(src_id)) || c.recv_count() < 256)
                ==> c2.recv_ctrs() == c.recv_ctrs().insert(
                spec_id_to_u16(src_id),
                crate::codec::u64_from_le(old(self).data@.subrange(16, 24)),
            )) && (!(c.recv_ctrs().dom().contains(spec_id_to_u16(src_id)) || c.recv_count() < 256)
                ==> c2.recv_ctrs() == c.recv_ctrs())),
    {
        let tgt = self.id;
        let msg = Message { tgt_id: tgt, src_id, len };
        let m_opt = match &mut self.crypto {
            Some(c) => c.decrypt(&mut self.data, msg),
            None => {
                return Err(Error::Unknown);
            },
        };
        let mlen = match m_opt {
            Some(mlen) => mlen,
            None => {
                return Err(Error::Unknown);
            },
        };
        self.send_msg(INTF::CPU, &Message { tgt_id: tgt, src_id, len: mlen })
    }

    /// Decrypt a broadcast held in the buffer and forward the cleartext
    /// to the CPU with the broadcast address preserved. The sender's
    /// counter is committed first; a body that fails to open is dropped
    /// and the CPU sees nothing.
    pub fn handle_brdcst_recv(&mut self, src_id: Id, len: usize) -> (r: Result<(), Error>)
        requires
            old(self).wf(),
            56 <= len,
            len <= old(self).data@.len(),
        ensures
            final(self).wf(),
            final(self).id == old(self).id,
            final(self).auth == old(self).auth,
            final(self).sss == old(self).sss,
            final(self).rad == old(self).rad,
            r is Err ==> final(self).cpu == old(self).cpu,
            old(self).crypto is None ==> (r == Err::<(), Error>(Error::Unknown) && *final(self)
                == *old(self)),
            old(self).crypto matches Some(c) ==> (final(self).crypto matches Some(c2) && c2.wf()
                && c2.aes_key_view() == c.aes_key_view() && c2.hmac_key_view() == c.hmac_key_view()
                && c2.send_ctrs() == c.send_ctrs() && c2.recv_ctrs() == c.recv_ctrs()
                && old(self).secure_recv_post(
                *final(self),
                r,
                Id::Broadcast,
                src_id,
                len,
                c.bcast_ctrs(),
                c.bcast_count(),
                c.aes_key_view(),
            ) && ((c.bcast_ctrs().dom().contains(spec_id_to_u16(src_id)) || c.bcast_count() < 256)
                ==> c2.bcast_ctrs() == c.bcast_ctrs().insert(
                spec_id_to_u16(src_id),
                crate::codec::u64_from_le(old(self).data@.subrange(16, 24)),
            )) && (!(c.bcast_ctrs().dom().contains(spec_id_to_u16(src_id)) || c.bcast_count()
                < 256) ==> c2.bcast_ctrs() == c.bcast_ctrs())),
    {
        let msg = Message { tgt_id: Id::Broadcast, src_id, len };
        let m_opt = match &mut self.crypto {
            Some(c) => c.decrypt(&mut self.data, msg),
            None => {
                return Err(Error::Unknown);
            },
        };
        let mlen = match m_opt {
            Some(mlen) => mlen,
            None => {
                return Err(Error::Unknown);
            },
        };
        self.send_msg(INTF::CPU, &Message { tgt_id: Id::Broadcast, src_id, len: mlen })
    }

    /// Run the registration handshake: send the device id, the operation
    /// and the shared secret to the SSS, read its response, notify the
    /// CPU with the response's id and operation, and return the parsed
    /// response. The radio is never touched.
    fn sss_exchange(&mut self, op: SSSOp) -> (r: Option<SecureSSSResponse>)
        requires
            old(self).wf(),
        ensures
            final(self).wf(),
            final(self).id == old(self).id,
            final(self).auth == old(self).auth,
            final(self).crypto == old(self).crypto,
            final(self).rad == old(self).rad,
            final(self).cpu.input == old(self).cpu.input,
            final(self).cpu.pos == old(self).cpu.pos,
            final(self).sss.input == old(self).sss.input,
            final(self).data@.len() == old(self).data@.len(),
            final(self).sss.output@ == old(self).sss.output@ + frame_bytes(
                Id::SSS,
                old(self).id,
                68,
                secure_sss_message_bytes(old(self).id, op, old(self).auth.secret@),
            ),
            r is None ==> final(self).cpu.output@ == old(self).cpu.output@,
            (r is Some <==> (match sss_reply(old(self).sss.input@, old(self).sss.pos as int) {
                Some((hdr, _b)) => hdr.len >= 4,
                None => false,
            })),
            r matches Some(resp) ==> (sss_reply(old(self).sss.input@, old(self).sss.pos as int)
                matches Some((hdr, b)) && {
                let s = old(self).sss.input@;
                &&& resp.dev_id == crate::msg::spec_id_from_u16(
                    crate::codec::u16_from_le(s[b], s[b + 1]),
                )
                &&& resp.op == crate::msg::spec_op_from_i16(
                    crate::codec::i16_from_le(s[b + 2], s[b + 3]),
                )
                &&& (resp.secrets is Some <==> hdr.len == 116)
                &&& (resp.secrets matches Some(sec) ==> sec.aes_key@ == s.subrange(b + 4, b + 20)
                    && sec.seed@ == s.subrange(b + 20, b + 52) && sec.hmac_key@ == s.subrange(
                    b + 52,
                    b + 116,
                ))
            }),
            r matches Some(resp) ==> (final(self).cpu.output@ == old(self).cpu.output@
                + frame_bytes(old(self).id, Id::SSS, 4, sss_message_bytes(
                SSSMessage { dev_id: resp.dev_id, op: resp.op },
            )) && (resp.secrets matches Some(sec) ==> sec.aes_key@.len() == 16 && sec.seed@.len()
                == 32 && sec.hmac_key@.len() == 64)),
    {
        let sm = SecureSSSMessage {
            dev_id: self.id,
            op,
            secret: clone_bytes(&self.auth.secret),
        };
        let mb = sm.to_bytes();
        splice_bytes(&mut self.data, 0, &mb, 0, 68);
        proof {
            assert(self.data@.subrange(0, 68) =~= secure_sss_message_bytes(
                self.id,
                op,
                self.auth.secret@,
            ));
        }
        let src = self.id;
        let _sent = self.send_msg(INTF::SSS, &Message { tgt_id: Id::SSS, src_id: src, len: 68 });
        let got = self.read_msg(INTF::SSS, 116);
        let m = match got {
            Ok(m) => m,
            Err(_) => {
                return None;
            },
        };
        if m.len > 116 {
            return None;
        }
        let resp = match SecureSSSResponse::from_bytes(&self.data, m.len) {
            Some(x) => x,
            None => {
                return None;
            },
        };
        proof {
            let st = old(self).sss.input@;
            let j = first_sync(st, old(self).sss.pos as int);
            let b = j + 7;
            let l = m.len as int;
            assert(self.data@.subrange(0, l) == st.subrange(b, b + l));
            assert forall|k: int| 0 <= k < l implies self.data@[k] == st[b + k] by {
                assert(self.data@.subrange(0, l)[k] == st.subrange(b, b + l)[k]);
            };
            assert(self.data@[0] == st[b]);
            assert(self.data@[1] == st[b + 1]);
            assert(self.data@[2] == st[b + 2]);
            assert(self.data@[3] == st[b + 3]);
            if m.len == 116 {
                assert(self.data@.subrange(4, 20) =~= st.subrange(b + 4, b + 20));
                assert(self.data@.subrange(20, 52) =~= st.subrange(b + 20, b + 52));
                assert(self.data@.subrange(52, 116) =~= st.subrange(b + 52, b + 116));
            }
        }
        let nb = SSSMessage { dev_id: resp.dev_id, op: resp.op }.to_bytes();
        splice_bytes(&mut self.data, 0, &nb, 0, 4);
        proof {
            assert(self.data@.subrange(0, 4) =~= sss_message_bytes(
                SSSMessage { dev_id: resp.dev_id, op: resp.op },
            ));
        }
        let _notified = self.send_msg(INTF::CPU, &Message { tgt_id: src, src_id: Id::SSS, len: 4 });
        Some(resp)
    }

    /// Register with the SSS: on a full success response, build the
    /// session's crypto state from the keys and seed it delivered. The
    /// radio is never touched.
    pub fn sss_register(&mut self) -> (r: Option<CryptoHandler>)
        requires
            old(self).wf(),
        ensures
            final(self).wf(),
            final(self).id == old(self).id,
            final(self).auth == old(self).auth,
            final(self).crypto == old(self).crypto,
            final(self).rad == old(self).rad,
            final(self).cpu.input == old(self).cpu.input,
            final(self).cpu.pos == old(self).cpu.pos,
            final(self).sss.input == old(self).sss.input,
            final(self).sss.output@ == old(self).sss.output@ + frame_bytes(
                Id::SSS,
                old(self).id,
                68,
                secure_sss_message_bytes(old(self).id, SSSOp::Register, old(self).auth.secret@),
            ),
            cpu_notified(old(self).sss, old(self).cpu, final(self).cpu, old(self).id),
            (r is Some <==> (match sss_reply(old(self).sss.input@, old(self).sss.pos as int) {
                Some((hdr, _b)) => hdr.len == 116,
                None => false,
            })),
            r matches Some(h) ==> (sss_reply(old(self).sss.input@, old(self).sss.pos as int)
                matches Some((_hdr, b)) && h.aes_key_view() == old(self).sss.input@.subrange(
                b + 4,
                b + 20,
            ) && h.hmac_key_view() == old(self).sss.input@.subrange(b + 52, b + 116)),
            r matches Some(h) ==> (h.wf() && h.send_count() == 0 && h.recv_count() == 0
                && h.bcast_count() == 0 && (forall|k: u16| !h.send_ctrs().dom().contains(k))
                && (forall|k: u16| !h.recv_ctrs().dom().contains(k)) && (forall|k: u16|
            !h.bcast_ctrs().dom().contains(k))),
    {
        let resp = match self.sss_exchange(SSSOp::Register) {
            Some(resp) => resp,
            None => {
                return None;
            },
        };
        match resp.secrets {
            Some(sec) => Some(CryptoHandler::new(sec.seed, sec.aes_key, sec.hmac_key)),
            None => None,
        }
    }

    /// Deregister with the SSS: true exactly when a response arrived,
    /// parsed, and confirmed the deregistration. The radio is never
    /// touched.
    pub fn sss_deregister(&mut self) -> (r: bool)
        requires
            old(self).wf(),
        ensures
            final(self).wf(),
            final(self).id == old(self).id,
            final(self).auth == old(self).auth,
            final(self).crypto == old(self).crypto,
            final(self).rad == old(self).rad,
            final(self).cpu.input == old(self).cpu.input,
            final(self).cpu.pos == old(self).cpu.pos,
            final(self).sss.input == old(self).sss.input,
            final(self).sss.output@ == old(self).sss.output@ + frame_bytes(
                Id::SSS,
                old(self).id,
                68,
                secure_sss_message_bytes(old(self).id, SSSOp::Deregister, old(self).auth.secret@),
            ),
            cpu_notified(old(self).sss, old(self).cpu, final(self).cpu, old(self).id),
            (r <==> (match sss_reply(old(self).sss.input@, old(self).sss.pos as int) {
                Some((hdr, b)) => hdr.len >= 4 && crate::msg::spec_op_from_i16(
                    crate::codec::i16_from_le(
                        old(self).sss.input@[b + 2],
                        old(self).sss.input@[b + 3],
                    ),
                ) is Deregister,
                None => false,
            })),
    {
        let resp = match self.sss_exchange(SSSOp::Deregister) {
            Some(resp) => resp,
            None => {
                return false;
            },
        };
        match resp.op {
            SSSOp::Deregister => true,
            _ => false,
        }
    }

    /// Act on the SSS control message at the front of the buffer: a
    /// register request that succeeds installs the crypto state; a
    /// deregister request that the SSS confirms drops it; anything else
    /// changes nothing. The radio is never touched.
    pub fn handle_registration(&mut self) -> (r: bool)
        requires
            old(self).wf(),
        ensures
            final(self).wf(),
            final(self).id == old(self).id,
            final(self).auth == old(self).auth,
            final(self).rad == old(self).rad,
            final(self).cpu.input == old(self).cpu.input,
            final(self).cpu.pos == old(self).cpu.pos,
            final(self).sss.input == old(self).sss.input,
            ({
                let op = sss_message_bytes_op(old(self).data@);
                let reply = sss_reply(old(self).sss.input@, old(self).sss.pos as int);
                &&& (op is Register ==> (r <==> (match reply {
                    Some((hdr, _b)) => hdr.len == 116,
                    None => false,
                })))
                &&& (op is Deregister ==> (r <==> (match reply {
                    Some((hdr, b)) => hdr.len >= 4 && crate::msg::spec_op_from_i16(
                        crate::codec::i16_from_le(
                            old(self).sss.input@[b + 2],
                            old(self).sss.input@[b + 3],
                        ),
                    ) is Deregister,
                    None => false,
                })))
                &&& ((op is Register || op is Deregister) ==> final(self).sss.output@ == old(
                    self,
                ).sss.output@ + frame_bytes(Id::SSS, old(self).id, 68, secure_sss_message_bytes(
                    old(self).id,
                    op,
                    old(self).auth.secret@,
                )) && cpu_notified(old(self).sss, old(self).cpu, final(self).cpu, old(self).id))
                &&& (!(op is Register) && !(op is Deregister) ==> final(self).sss == old(self).sss
                    && final(self).cpu == old(self).cpu && final(self).data == old(self).data)
                &&& (op is Register && r ==> final(self).crypto is Some)
                &&& (op is Register && !r ==> final(self).crypto == old(self).crypto)
                &&& (op is Deregister && r ==> final(self).crypto is None)
                &&& (op is Deregister && !r ==> final(self).crypto == old(self).crypto)
                &&& (!(op is Register) && !(op is Deregister) ==> !r && final(self).crypto == old(
                    self,
                ).crypto)
            }),
    {
        let sm = SSSMessage::from_bytes(self.data.as_slice());
        match sm.op {
            SSSOp::Register => {
                match self.sss_register() {
                    Some(c) => {
                        self.crypto = Some(c);
                        true
                    },
                    None => false,
                }
            },
            SSSOp::Deregister => {
                if self.sss_deregister() {
                    self.crypto = None;
                    true
                } else {
                    false
                }
            },
            _ => false,
        }
    }

    /// The envelope send the dispatcher performs for cleartext `m`
    /// addressed to `tgt`: when the per-peer counter can advance, the
    /// radio carries exactly one framed envelope whose content opens
    /// back to `m`; otherwise nothing is sent and the tables stand.
    pub open spec fn sealed_send_post(
        c: CryptoHandler,
        c2: CryptoHandler,
        rad0: Channel,
        rad1: Channel,
        data1: Seq<u8>,
        tgt: Id,
        self_id: Id,
        m: Seq<u8>,
    ) -> bool {
        let k = if tgt is Broadcast {
            spec_id_to_u16(self_id)
        } else {
            spec_id_to_u16(tgt)
        };
        let m0 = if tgt is Broadcast {
            c.bcast_ctrs()
        } else {
            c.send_ctrs()
        };
        let c0 = if tgt is Broadcast {
            c.bcast_count()
        } else {
            c.send_count()
        };
        let prev = prev_ctr(m0, k);
        let ok = prev < u64::MAX && (m0.dom().contains(k) || c0 < 256);
        let n = 56 + pad16(40 + m.len() as int);
        &&& c2.aes_key_view() == c.aes_key_view()
        &&& c2.hmac_key_view() == c.hmac_key_view()
        &&& c2.recv_ctrs() == c.recv_ctrs()
        &&& (!ok ==> rad1 == rad0 && c2.send_ctrs() == c.send_ctrs() && c2.bcast_ctrs()
            == c.bcast_ctrs())
        &&& (ok ==> only_output_appended(
            rad0,
            rad1,
            frame_bytes(tgt, self_id, n as u16, data1.subrange(0, n)),
        ) && open_content(c.aes_key_view(), data1.subrange(0, 16), data1.subrange(56, n)) == Some(m)
            && data1.subrange(16, 24) == crate::codec::u64_le((prev + 1) as u64) && (tgt
            is Broadcast ==> c2.bcast_ctrs() == c.bcast_ctrs().insert(k, (prev + 1) as u64)
            && c2.send_ctrs() == c.send_ctrs()) && (tgt is Other ==> c2.send_ctrs()
            == c.send_ctrs().insert(k, (prev + 1) as u64) && c2.bcast_ctrs() == c.bcast_ctrs()))
    }

    /// The envelope receive the dispatcher performs for a radio body
    /// `body` from `src`: the sender's counter is committed when its
    /// table allows, and the CPU sees exactly the recovered cleartext,
    /// framed with target `out_tgt`, or nothing at all.
    pub open spec fn sealed_recv_post(
        c: CryptoHandler,
        c2: CryptoHandler,
        cpu0: Channel,
        cpu1: Channel,
        body: Seq<u8>,
        out_tgt: Id,
        src: Id,
    ) -> bool {
        let k = spec_id_to_u16(src);
        let m0 = if out_tgt is Broadcast {
            c.bcast_ctrs()
        } else {
            c.recv_ctrs()
        };
        let c0 = if out_tgt is Broadcast {
            c.bcast_count()
        } else {
            c.recv_count()
        };
        let ins_ok = m0.dom().contains(k) || c0 < 256;
        let res = open_content(
            c.aes_key_view(),
            body.subrange(0, 16),
            body.subrange(56, body.len() as int),
        );
        &&& c2.aes_key_view() == c.aes_key_view()
        &&& c2.hmac_key_view() == c.hmac_key_view()
        &&& c2.send_ctrs() == c.send_ctrs()
        &&& (!ins_ok ==> cpu1.output@ == cpu0.output@ && c2.recv_ctrs() == c.recv_ctrs()
            && c2.bcast_ctrs() == c.bcast_ctrs())
        &&& (ins_ok ==> ({
            let cval = crate::codec::u64_from_le(body.subrange(16, 24));
            &&& (out_tgt is Broadcast ==> c2.bcast_ctrs() == c.bcast_ctrs().insert(k, cval)
                && c2.recv_ctrs() == c.recv_ctrs())
            &&& (!(out_tgt is Broadcast) ==> c2.recv_ctrs() == c.recv_ctrs().insert(k, cval)
                && c2.bcast_ctrs() == c.bcast_ctrs())
            &&& (match res {
                None => cpu1.output@ == cpu0.output@,
                Some(m) => cpu1.output@ == cpu0.output@ + frame_bytes(
                    out_tgt,
                    src,
                    m.len() as u16,
                    m,
                ),
            })
        }))
    }

    /// What acting on an SSS control message with operation `op` does:
    /// the framed registration request goes to the SSS, the CPU hears
    /// the reply, and the crypto state is installed or dropped exactly
    /// when the reply grants it. The radio is never touched.
    pub open spec fn registration_post(pre: Controller, post: Controller, op: SSSOp) -> bool {
        let reply = sss_reply(pre.sss.input@, pre.sss.pos as int);
        let granted = match reply {
            Some((hdr, _b)) => hdr.len == 116,
            None => false,
        };
        let confirmed = match reply {
            Some((hdr, b)) => hdr.len >= 4 && crate::msg::spec_op_from_i16(
                crate::codec::i16_from_le(pre.sss.input@[b + 2], pre.sss.input@[b + 3]),
            ) is Deregister,
            None => false,
        };
        &&& post.rad == pre.rad
        &&& ((op is Register || op is Deregister) ==> post.sss.output@ == pre.sss.output@
            + frame_bytes(Id::SSS, pre.id, 68, secure_sss_message_bytes(
            pre.id,
            op,
            pre.auth.secret@,
        )) && cpu_notified(pre.sss, pre.cpu, post.cpu, pre.id))
        &&& (op is Register ==> (granted ==> post.crypto is Some) && (!granted ==> post.crypto
            == pre.crypto))
        &&& (op is Deregister ==> (confirmed ==> post.crypto is None) && (!confirmed ==> post.crypto
            == pre.crypto))
        &&& (!(op is Register) && !(op is Deregister) ==> post.sss.output@ == pre.sss.output@
            && post.cpu.output@ == pre.cpu.output@ && post.crypto == pre.crypto)
    }

    /// A turn that wrote nothing: no output grew and the crypto state
    /// stands.
    pub open spec fn step_idle(pre: Controller, post: Controller) -> bool {
        &&& post.cpu.output@ == pre.cpu.output@
        &&& post.sss.output@ == pre.sss.output@
        &&& post.rad.output@ == pre.rad.output@
        &&& post.crypto == pre.crypto
    }

    /// The routing a registered dispatcher applies to an accepted CPU
    /// frame (header `hdr`, body `m`): broadcasts and direct messages
    /// are sealed onto the radio when they leave room for the envelope,
    /// SSS control messages run the registration, FAA messages pass to
    /// the radio verbatim.
    pub open spec fn cpu_dispatch_post(
        pre: Controller,
        post: Controller,
        hdr: MessageHeader,
        m: Seq<u8>,
    ) -> bool {
        let l = hdr.len as int;
        match hdr.tgt_id {
            Id::FAA => only_output_appended(
                pre.rad,
                post.rad,
                frame_bytes(Id::FAA, pre.id, hdr.len, m),
            ) && post.cpu.output@ == pre.cpu.output@ && post.sss == pre.sss && post.crypto
                == pre.crypto,
            Id::SSS => if l >= 4 {
                Controller::registration_post(
                    pre,
                    post,
                    crate::msg::spec_op_from_i16(crate::codec::i16_from_le(m[2], m[3])),
                )
            } else {
                post.rad == pre.rad
            },
            _ => if 56 + pad16(40 + l) <= SCEWL_MAX_DATA_SZ {
                &&& pre.crypto matches Some(c) && post.crypto matches Some(c2)
                    && Controller::sealed_send_post(
                    c,
                    c2,
                    pre.rad,
                    post.rad,
                    post.data@,
                    hdr.tgt_id,
                    pre.id,
                    m,
                )
                &&& post.cpu.output@ == pre.cpu.output@
                &&& post.sss == pre.sss
            } else {
                Controller::step_idle(pre, post)
            },
        }
    }

    /// The routing a registered dispatcher applies to an accepted radio
    /// frame (header `hdr`, body `m`): broadcasts and direct messages to
    /// this device are opened and forwarded to the CPU, FAA messages to
    /// this device pass verbatim, and traffic addressed elsewhere writes
    /// nothing anywhere.
    pub open spec fn rad_dispatch_post(
        pre: Controller,
        post: Controller,
        hdr: MessageHeader,
        m: Seq<u8>,
    ) -> bool {
        &&& post.sss == pre.sss
        &&& if hdr.tgt_id is Broadcast {
            if hdr.len >= 56 {
                &&& pre.crypto matches Some(c) && post.crypto matches Some(c2)
                    && Controller::sealed_recv_post(
                    c,
                    c2,
                    pre.cpu,
                    post.cpu,
                    m,
                    Id::Broadcast,
                    hdr.src_id,
                )
                &&& post.rad.output@ == pre.rad.output@
            } else {
                Controller::step_idle(pre, post)
            }
        } else if hdr.tgt_id == pre.id {
            if hdr.src_id is FAA {
                &&& post.cpu.output@ == pre.cpu.output@ + frame_bytes(
                    pre.id,
                    Id::FAA,
                    hdr.len,
                    m,
                )
                &&& post.rad.output@ == pre.rad.output@
                &&& post.crypto == pre.crypto
            } else {
                &&& pre.crypto matches Some(c) && post.crypto matches Some(c2)
                    && Controller::sealed_recv_post(c, c2, pre.cpu, post.cpu, m, pre.id, hdr.src_id)
                &&& post.rad.output@ == pre.rad.output@
            }
        } else {
            Controller::step_idle(pre, post)
        }
    }

    /// Whether the radio stream yields a message the framed reader
    /// accepts: a complete frame not echoing this device, either from
    /// the FAA or carrying a verification segment the crypto state
    /// verifies.
    pub open spec fn rad_accepts(s: Seq<u8>, p0: int, max_len: u16, self_id: Id, c: CryptoHandler)
        -> bool {
        match plain_frame(s, p0, max_len) {
            Some((hdr, b)) => hdr.src_id != self_id && (hdr.src_id is FAA || (hdr.len >= 56
                && spec_verify(
                c.hmac_key_view(),
                c.recv_ctrs(),
                c.bcast_ctrs(),
                s.subrange(b, b + 56),
                Message { tgt_id: hdr.tgt_id, src_id: hdr.src_id, len: hdr.len as usize },
            ))),
            None => false,
        }
    }

    /// What one radio turn does: nothing when no byte waits or the
    /// stream yields no acceptable frame, the routed outcome otherwise.
    pub open spec fn rad_turn_post(pre: Controller, post: Controller) -> bool {
        match pre.crypto {
            Some(c) => if pre.rad.pos < pre.rad.input@.len() {
                let s = pre.rad.input@;
                let p0 = pre.rad.pos as int;
                if Controller::rad_accepts(s, p0, SCEWL_MAX_DATA_SZ as u16, pre.id, c) {
                    match plain_frame(s, p0, SCEWL_MAX_DATA_SZ as u16) {
                        Some((hdr, b)) => Controller::rad_dispatch_post(
                            pre,
                            post,
                            hdr,
                            s.subrange(b, b + hdr.len as int),
                        ),
                        None => true,
                    }
                } else {
                    Controller::step_idle(pre, post)
                }
            } else {
                Controller::step_idle(pre, post)
            },
            None => true,
        }
    }

    /// One turn of the dispatch, in full: what is read from which line,
    /// how an accepted frame is routed, and that nothing else is
    /// written.
    pub open spec fn step_post(pre: Controller, post: Controller) -> bool {
        if pre.crypto is None {
            match plain_frame(pre.cpu.input@, pre.cpu.pos as int, SCEWL_MAX_DATA_SZ as u16) {
                Some((hdr, b)) => {
                    let m = pre.cpu.input@.subrange(b, b + hdr.len as int);
                    if hdr.tgt_id is SSS {
                        if hdr.len >= 4 {
                            Controller::registration_post(
                                pre,
                                post,
                                crate::msg::spec_op_from_i16(
                                    crate::codec::i16_from_le(m[2], m[3]),
                                ),
                            )
                        } else {
                            post.rad == pre.rad
                        }
                    } else {
                        Controller::step_idle(pre, post)
                    }
                },
                None => Controller::step_idle(pre, post),
            }
        } else {
            if pre.cpu.pos < pre.cpu.input@.len() {
                match plain_frame(pre.cpu.input@, pre.cpu.pos as int, SCEWL_MAX_DATA_SZ as u16) {
                    Some((hdr, b)) => Controller::cpu_dispatch_post(
                        pre,
                        post,
                        hdr,
                        pre.cpu.input@.subrange(b, b + hdr.len as int),
                    ) && post.rad.pos == pre.rad.pos,
                    None => Controller::rad_turn_post(pre, post),
                }
            } else {
                Controller::rad_turn_post(pre, post)
            }
        }
    }

    /// One turn of the dispatch loop. Unregistered, the controller reads
    /// one CPU message and acts only on one addressed to the SSS.
    /// Registered, it serves the CPU first — routing by target to the
    /// broadcast, SSS, FAA or direct path — and otherwise serves the
    /// radio, routing by source and target; traffic not addressed to
    /// this device is dropped. While unregistered nothing is ever
    /// written to the radio.
    pub fn step(&mut self)
        requires
            old(self).wf(),
        ensures
            final(self).wf(),
            final(self).id == old(self).id,
            final(self).auth == old(self).auth,
            final(self).cpu.input == old(self).cpu.input,
            final(self).sss.input == old(self).sss.input,
            final(self).rad.input == old(self).rad.input,
            old(self).crypto is None ==> final(self).rad == old(self).rad,
            old(self).cpu.pos < old(self).cpu.input@.len() ==> final(self).cpu.pos > old(
                self,
            ).cpu.pos,
            (old(self).crypto is Some && old(self).cpu.pos >= old(self).cpu.input@.len() && old(
                self,
            ).rad.pos < old(self).rad.input@.len()) ==> final(self).rad.pos > old(self).rad.pos,
            Controller::step_post(*old(self), *final(self)),
    {
        let self_id = self.id;
        if self.registered() {
            if self.cpu.avail() {
                let got = self.read_msg(INTF::CPU, SCEWL_MAX_DATA_SZ as u16);
                if let Ok(m) = got {
                    let ghost s = old(self).cpu.input@;
                    let ghost p0 = old(self).cpu.pos as int;
                    let ghost j = first_sync(s, p0);
                    let ghost hdr = header_from_field_bytes(s.subrange(j + 1, j + 7));
                    let ghost b = j + 7;
                    let ghost mbody = s.subrange(b, b + hdr.len as int);
                    proof {
                        assert(j >= 0 && j + 7 <= s.len());
                        assert(hdr.len <= SCEWL_MAX_DATA_SZ as u16 && b + hdr.len <= s.len());
                        assert(plain_frame(s, p0, SCEWL_MAX_DATA_SZ as u16) == Some((hdr, b)));
                        assert(m.tgt_id == hdr.tgt_id && m.src_id == hdr.src_id && m.len
                            == hdr.len as usize);
                        assert(self.data@.subrange(0, m.len as int) == mbody);
                        assert forall|k2: int| 0 <= k2 < m.len as int implies self.data@[k2]
                            == mbody[k2] by {
                            assert(self.data@.subrange(0, m.len as int)[k2] == mbody[k2]);
                        };
                    }
                    match m.tgt_id {
                        Id::Broadcast => {
                            let content: usize = 40 + m.len;
                            let padded: usize = content + 16 - (content % 16);
                            if 56 + padded <= SCEWL_MAX_DATA_SZ {
                                let ghost mid = *self;
                                let _handled = self.handle_brdcst_send(m.len);
                                proof {
                                    assert(mid.data@.subrange(0, m.len as int) == mbody);
                                }
                            }
                        },
                        Id::SSS => {
                            let ghost mid = *self;
                            let _handled = self.handle_registration();
                            proof {
                                if m.len >= 4 {
                                    assert(mid.data@[2] == mbody[2] && mid.data@[3] == mbody[3]);
                                    assert(sss_message_bytes_op(mid.data@)
                                        == crate::msg::spec_op_from_i16(
                                        crate::codec::i16_from_le(mbody[2], mbody[3]),
                                    ));
                                }
                            }
                        },
                        Id::FAA => {
                            let ghost mid = *self;
                            let _handled = self.handle_faa_send(m.len);
                            proof {
                                assert(mid.data@.subrange(0, m.len as int) == mbody);
                                assert((m.len as u16) == hdr.len);
                            }
                        },
                        Id::Other(_) => {
                            let content: usize = 40 + m.len;
                            let padded: usize = content + 16 - (content % 16);
                            if 56 + padded <= SCEWL_MAX_DATA_SZ {
                                let ghost mid = *self;
                                let _handled = self.handle_scewl_send(m.tgt_id, m.len);
                                proof {
                                    assert(mid.data@.subrange(0, m.len as int) == mbody);
                                }
                            }
                        },
                    }
                    return ;
                }
                proof {
                    if plain_frame(
                        old(self).cpu.input@,
                        old(self).cpu.pos as int,
                        SCEWL_MAX_DATA_SZ as u16,
                    ) matches Some((hdr, b)) {
                        assert(got is Ok);
                    }
                }
            }
            if self.rad.avail() {
                let got = self.read_msg(INTF::RAD, SCEWL_MAX_DATA_SZ as u16);
                let ghost s = old(self).rad.input@;
                let ghost p0 = old(self).rad.pos as int;
                let ghost j = first_sync(s, p0);
                let ghost hdr = header_from_field_bytes(s.subrange(j + 1, j + 7));
                let ghost b = j + 7;
                let ghost mbody = s.subrange(b, b + hdr.len as int);
                if let Ok(m) = got {
                    proof {
                        assert(j >= 0 && j + 7 <= s.len());
                        assert(hdr.len <= SCEWL_MAX_DATA_SZ as u16 && b + hdr.len <= s.len());
                        assert(plain_frame(s, p0, SCEWL_MAX_DATA_SZ as u16) == Some((hdr, b)));
                        assert(m.tgt_id == hdr.tgt_id && m.src_id == hdr.src_id && m.len
                            == hdr.len as usize);
                        match old(self).crypto {
                            Some(c) => {
                                assert(Controller::rad_accepts(
                                    s,
                                    p0,
                                    SCEWL_MAX_DATA_SZ as u16,
                                    old(self).id,
                                    c,
                                ));
                            },
                            None => {},
                        }
                        assert(self.data@.subrange(0, m.len as int) == mbody);
                        assert forall|k2: int| 0 <= k2 < m.len as int implies self.data@[k2]
                            == mbody[k2] by {
                            assert(self.data@.subrange(0, m.len as int)[k2] == mbody[k2]);
                        };
                    }
                    if m.tgt_id == Id::Broadcast {
                        if 56 <= m.len {
                            let ghost mid = *self;
                            let _handled = self.handle_brdcst_recv(m.src_id, m.len);
                            proof {
                                assert(mid.data@.subrange(0, 16) =~= mbody.subrange(0, 16));
                                assert(mid.data@.subrange(16, 24) =~= mbody.subrange(16, 24));
                                assert(mid.data@.subrange(56, m.len as int) =~= mbody.subrange(
                                    56,
                                    mbody.len() as int,
                                ));
                            }
                        }
                    } else if m.tgt_id == self_id {
                        if m.src_id == Id::FAA {
                            let ghost mid = *self;
                            let _handled = self.handle_faa_recv(m.len);
                            proof {
                                assert(mid.data@.subrange(0, m.len as int) == mbody);
                                assert((m.len as u16) == hdr.len);
                            }
                        } else {
                            proof {
                                assert(56 <= m.len);
                            }
                            let ghost mid = *self;
                            let _handled = self.handle_scewl_recv(m.src_id, m.len);
                            proof {
                                assert(mid.data@.subrange(0, 16) =~= mbody.subrange(0, 16));
                                assert(mid.data@.subrange(16, 24) =~= mbody.subrange(16, 24));
                                assert(mid.data@.subrange(56, m.len as int) =~= mbody.subrange(
                                    56,
                                    mbody.len() as int,
                                ));
                            }
                        }
                    }
                } else {
                    proof {
                        match old(self).crypto {
                            Some(c) => {
                                if Controller::rad_accepts(
                                    s,
                                    p0,
                                    SCEWL_MAX_DATA_SZ as u16,
                                    old(self).id,
                                    c,
                                ) {
                                    assert(got is Ok);
                                }
                            },
                            None => {},
                        }
                    }
                }
            }
        } else {
            let got = self.read_msg(INTF::CPU, SCEWL_MAX_DATA_SZ as u16);
            let ghost s = old(self).cpu.input@;
            let ghost p0 = old(self).cpu.pos as int;
            let ghost j = first_sync(s, p0);
            let ghost hdr = header_from_field_bytes(s.subrange(j + 1, j + 7));
            let ghost b = j + 7;
            let ghost mbody = s.subrange(b, b + hdr.len as int);
            if let Ok(m) = got {
                proof {
                    assert(j >= 0 && j + 7 <= s.len());
                    assert(hdr.len <= SCEWL_MAX_DATA_SZ as u16 && b + hdr.len <= s.len());
                    assert(plain_frame(s, p0, SCEWL_MAX_DATA_SZ as u16) == Some((hdr, b)));
                    assert(m.tgt_id == hdr.tgt_id && m.src_id == hdr.src_id && m.len
                        == hdr.len as usize);
                    assert(self.data@.subrange(0, m.len as int) == mbody);
                    assert forall|k2: int| 0 <= k2 < m.len as int implies self.data@[k2]
                        == mbody[k2] by {
                        assert(self.data@.subrange(0, m.len as int)[k2] == mbody[k2]);
                    };
                }
                if m.tgt_id == Id::SSS {
                    let ghost mid = *self;
                    let _handled = self.handle_registration();
                    proof {
                        if m.len >= 4 {
                            assert(mid.data@[2] == mbody[2] && mid.data@[3] == mbody[3]);
                            assert(sss_message_bytes_op(mid.data@) == crate::msg::spec_op_from_i16(
                                crate::codec::i16_from_le(mbody[2], mbody[3]),
                            ));
                        }
                    }
                }
            } else {
                proof {
                    if plain_frame(s, p0, SCEWL_MAX_DATA_SZ as u16) matches Some((hdr2, b2)) {
                        assert(got is Ok);
                    }
                }
            }
        }
    }
}

/// The operation field of the SSS control message at the front of a
/// buffer.
pub open spec fn sss_message_bytes_op(s: Seq<u8>) -> SSSOp
    recommends
        s.len() >= 4,
{
    sss_message_from_bytes(s).op
}

} // verus!
