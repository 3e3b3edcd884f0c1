//! The secure crypto and registration layer.
//!
//! Radio traffic between registered devices travels in an authenticated
//! envelope: a 56-byte verification segment (IV, per-peer counter,
//! HMAC-SHA-256 over the transport header, IV and counter) followed by an
//! AES-128-CBC ciphertext of the content segment (SHA-256 of the
//! cleartext, its length, the cleartext, PKCS#7 padding). Registration
//! sends the device's shared secret to the SSS and receives the session
//! keys and the RNG seed.

use vstd::prelude::*;
use crate::codec::{
    u64_le, u64_from_le, u64_to_bytes, append_bytes, splice_bytes, bytes_eq,
    lemma_u64_le_roundtrip,
};
use crate::cursor::ReadCursor;
use crate::ext::{
    sha256_of, hmac_sha256_of, aes_cbc_enc, aes_cbc_dec, sha256_range, hmac_sha256,
    hmac_sha256_verify, aes128_cbc_encrypt, aes128_cbc_decrypt, rng_from_seed, rng_fill16, CtrMap,
    ctr_entries, ctr_count, ctr_map_new, ctr_get, ctr_insert,
};
use crate::codec::{u16_le, i16_le, u16_to_bytes, i16_to_bytes};
use crate::msg::{Id, SSSOp, Message, MessageHeader, header_bytes, spec_id_to_u16};

verus! {

/// Bytes of the verification segment: IV, counter, HMAC.
pub const VERIFY_LEN: usize = 56;

/// Bytes of the content header inside the encrypted segment: digest and
/// length.
pub const CONTENT_HDR_LEN: usize = 40;

/// The smallest multiple of 16 strictly greater than `x`: the length
/// PKCS#7 pads an `x`-byte plaintext to.
pub open spec fn pad16(x: int) -> int {
    x + 16 - (x % 16)
}

/// The content segment carried for a cleartext `m`: its SHA-256 digest,
/// its length as eight bytes, then `m` itself.
pub open spec fn content_plain(m: Seq<u8>) -> Seq<u8>
    recommends
        m.len() <= u64::MAX,
{
    sha256_of(m) + u64_le(m.len() as u64) + m
}

/// The counter last seen for a peer, zero when the peer is new.
pub open spec fn prev_ctr(m: Map<u16, u64>, k: u16) -> u64 {
    if m.dom().contains(k) {
        m[k]
    } else {
        0u64
    }
}

/// The cleartext recovered from an encrypted content segment `ct` under
/// `aes_key` and `iv`, or `None` when decryption, the embedded length or
/// the embedded digest refuses it.
pub open spec fn open_content(aes_key: Seq<u8>, iv: Seq<u8>, ct: Seq<u8>) -> Option<Seq<u8>> {
    if ct.len() % 16 != 0 {
        None
    } else {
        match aes_cbc_dec(aes_key, iv, ct) {
            None => None,
            Some(p) => {
                if p.len() < 40 {
                    None
                } else {
                    let ml = u64_from_le(p.subrange(32, 40));
                    if ml > ct.len() - 40 || ml + 40 > p.len() {
                        None
                    } else if p.subrange(0, 32) != sha256_of(p.subrange(40, 40 + ml)) {
                        None
                    } else {
                        Some(p.subrange(40, 40 + ml))
                    }
                }
            },
        }
    }
}

/// Whether the verification segment at the front of `s` authenticates the
/// message `msg` against the given key and counter tables.
pub open spec fn spec_verify(
    hmac_key: Seq<u8>,
    recv: Map<u16, u64>,
    bcast: Map<u16, u64>,
    s: Seq<u8>,
    msg: Message,
) -> bool
    recommends
        s.len() >= 56,
{
    let iv = s.subrange(0, 16);
    let ctrb = s.subrange(16, 24);
    let tag = s.subrange(24, 56);
    let ctr = u64_from_le(ctrb);
    let hdrb = header_bytes(
        MessageHeader { tgt_id: msg.tgt_id, src_id: msg.src_id, len: msg.len as u16 },
    );
    &&& msg.len >= 56
    &&& (msg.len - 56) % 16 == 0
    &&& (match msg.tgt_id {
        Id::Broadcast => ctr >= prev_ctr(bcast, spec_id_to_u16(msg.src_id)),
        Id::Other(_) => ctr >= prev_ctr(recv, spec_id_to_u16(msg.src_id)),
        _ => false,
    })
    &&& tag == hmac_sha256_of(hmac_key, hdrb + iv + ctrb)
}

/// The verification segment of a radio message: the IV the content was
/// encrypted with, the per-peer counter, and the HMAC over header, IV and
/// counter.
pub struct VerificationSegment {
    /// Initialisation vector of the encrypted segment; 16 bytes.
    pub iv: Vec<u8>,
    /// Per-peer message counter.
    pub ctr: u64,
    /// HMAC-SHA-256 over the transport header, the IV and the counter;
    /// 32 bytes.
    pub hmac: Vec<u8>,
}

impl VerificationSegment {
    /// The IV and the HMAC have their fixed sizes.
    pub open spec fn wf(self) -> bool {
        self.iv@.len() == 16 && self.hmac@.len() == 32
    }

    /// Serialise the segment to its 56 wire bytes.
    pub fn to_bytes(&self) -> (r: Vec<u8>)
        requires
            self.wf(),
        ensures
            r@ =~= self.iv@ + u64_le(self.ctr) + self.hmac@,
            r@.len() == 56,
    {
        let mut r: Vec<u8> = Vec::new();
        append_bytes(&mut r, &self.iv, 0, 16);
        let ctrb = u64_to_bytes(self.ctr);
        append_bytes(&mut r, &ctrb, 0, 8);
        append_bytes(&mut r, &self.hmac, 0, 32);
        assert(r@ =~= self.iv@ + u64_le(self.ctr) + self.hmac@);
        r
    }

    /// Decode a segment from the first 56 bytes of a buffer.
    pub fn from_bytes(data: &Vec<u8>) -> (r: VerificationSegment)
        requires
            data@.len() >= 56,
        ensures
            r.wf(),
            r.iv@ == data@.subrange(0, 16),
            r.ctr == u64_from_le(data@.subrange(16, 24)),
            r.hmac@ == data@.subrange(24, 56),
    {
        let mut cur = ReadCursor::new(data.as_slice());
        let iv = cur.read_literal(16);
        let ctr = cur.read_u64();
        let hmac = cur.read_literal(32);
        VerificationSegment { iv, ctr, hmac }
    }

    /// The size of the segment on the wire.
    pub fn size() -> (r: usize)
        ensures
            r == 56,
    {
        VERIFY_LEN
    }
}

/// The header of the encrypted content segment: the digest of the
/// cleartext and its length.
pub struct ContentHeader {
    /// SHA-256 digest of the cleartext; 32 bytes.
    pub sha: Vec<u8>,
    /// Length of the cleartext in bytes.
    pub len: u64,
}

impl ContentHeader {
    /// The digest has its fixed size.
    pub open spec fn wf(self) -> bool {
        self.sha@.len() == 32
    }

    /// Serialise the header to its 40 cleartext bytes.
    pub fn to_bytes(&self) -> (r: Vec<u8>)
        requires
            self.wf(),
        ensures
            r@ =~= self.sha@ + u64_le(self.len),
            r@.len() == 40,
    {
        let mut r: Vec<u8> = Vec::new();
        append_bytes(&mut r, &self.sha, 0, 32);
        let lb = u64_to_bytes(self.len);
        append_bytes(&mut r, &lb, 0, 8);
        assert(r@ =~= self.sha@ + u64_le(self.len));
        r
    }

    /// Decode a header from the first 40 bytes of a buffer.
    pub fn from_bytes(data: &Vec<u8>) -> (r: ContentHeader)
        requires
            data@.len() >= 40,
        ensures
            r.wf(),
            r.sha@ == data@.subrange(0, 32),
            r.len == u64_from_le(data@.subrange(32, 40)),
    {
        let mut cur = ReadCursor::new(data.as_slice());
        let sha = cur.read_literal(32);
        let len = cur.read_u64();
        ContentHeader { sha, len }
    }

    /// The size of the header on the wire.
    pub fn size() -> (r: usize)
        ensures
            r == 40,
    {
        CONTENT_HDR_LEN
    }
}

/// The registration message sent to the SSS: device id, operation, and
/// the device's 64-byte shared secret.
pub struct SecureSSSMessage {
    /// The device registering or deregistering.
    pub dev_id: Id,
    /// The operation requested.
    pub op: SSSOp,
    /// The shared secret that authenticates the device; 64 bytes.
    pub secret: Vec<u8>,
}

/// The byte encoding of a registration message.
pub open spec fn secure_sss_message_bytes(dev_id: Id, op: SSSOp, secret: Seq<u8>) -> Seq<u8> {
    u16_le(spec_id_to_u16(dev_id)) + i16_le(crate::msg::spec_op_to_i16(op)) + secret
}

impl SecureSSSMessage {
    /// The secret has its fixed size.
    pub open spec fn wf(self) -> bool {
        self.secret@.len() == 64
    }

    /// Serialise the message to its 68 wire bytes.
    pub fn to_bytes(&self) -> (r: Vec<u8>)
        requires
            self.wf(),
        ensures
            r@ =~= secure_sss_message_bytes(self.dev_id, self.op, self.secret@),
            r@.len() == 68,
    {
        let mut r = u16_to_bytes(self.dev_id.to_u16());
        let mut o = i16_to_bytes(self.op.to_i16());
        r.append(&mut o);
        append_bytes(&mut r, &self.secret, 0, 64);
        assert(r@ =~= secure_sss_message_bytes(self.dev_id, self.op, self.secret@));
        r
    }

    /// The size of the message on the wire.
    pub fn size() -> (r: usize)
        ensures
            r == 68,
    {
        68
    }
}

/// The keys a successful registration delivers.
pub struct SecureSSSSecrets {
    /// The AES-128 key; 16 bytes.
    pub aes_key: Vec<u8>,
    /// The seed for the random number generator; 32 bytes.
    pub seed: Vec<u8>,
    /// The HMAC key; 64 bytes.
    pub hmac_key: Vec<u8>,
}

/// The response of the SSS to a registration attempt: device id and
/// operation, and on success the session keys.
pub struct SecureSSSResponse {
    /// The device the response concerns.
    pub dev_id: Id,
    /// The operation that took place.
    pub op: SSSOp,
    /// The keys, present exactly on a full-length success response.
    pub secrets: Option<SecureSSSSecrets>,
}

impl SecureSSSResponse {
    /// Decode a response from `len` bytes of a buffer: at least the id
    /// and operation, and the keys when the full length arrived.
    pub fn from_bytes(data: &Vec<u8>, len: usize) -> (r: Option<SecureSSSResponse>)
        requires
            len <= data@.len(),
        ensures
            len < 4 ==> r is None,
            len >= 4 ==> (r matches Some(resp) && resp.dev_id == crate::msg::spec_id_from_u16(
                crate::codec::u16_from_le(data@[0], data@[1]),
            ) && resp.op == crate::msg::spec_op_from_i16(
                crate::codec::i16_from_le(data@[2], data@[3]),
            ) && (len == 116 ==> (resp.secrets matches Some(s) && s.aes_key@ == data@.subrange(
                4,
                20,
            ) && s.seed@ == data@.subrange(20, 52) && s.hmac_key@ == data@.subrange(52, 116))) && (
            len != 116 ==> resp.secrets is None)),
    {
        if len < 4 {
            return None;
        }
        let mut cur = ReadCursor::new(data.as_slice());
        let dev = cur.read_u16();
        let op = cur.read_i16();
        let secrets = if len == 116 {
            let aes_key = cur.read_literal(16);
            let seed = cur.read_literal(32);
            let hmac_key = cur.read_literal(64);
            Some(SecureSSSSecrets { aes_key, seed, hmac_key })
        } else {
            None
        };
        Some(
            SecureSSSResponse {
                dev_id: Id::from_u16(dev),
                op: SSSOp::from_i16(op),
                secrets,
            },
        )
    }

    /// The size of a full success response on the wire.
    pub fn size() -> (r: usize)
        ensures
            r == 116,
    {
        116
    }
}

/// The counter incremented for a fresh message: one more than the last,
/// or nothing when the counter space is exhausted.
pub fn next_counter(prev: u64) -> (r: Option<u64>)
    ensures
        prev < u64::MAX ==> r == Some((prev + 1) as u64),
        prev == u64::MAX ==> r is None,
{
    if prev < u64::MAX {
        Some(prev + 1)
    } else {
        None
    }
}

/// The last counter seen for peer `k` in a table, zero when absent.
fn get_prev(m: &CtrMap, k: u16) -> (r: u64)
    ensures
        r == prev_ctr(ctr_entries(*m), k),
{
    match ctr_get(m, k) {
        Some(v) => v,
        None => 0,
    }
}

/// The crypto state of a registered session: session keys, the IV
/// generator, and the three per-peer counter tables.
pub struct CryptoHandler {
    /// Generator for fresh IVs, seeded at registration.
    rng: rand_hc::Hc128Rng,
    /// The AES-128 key; 16 bytes.
    aes_key: Vec<u8>,
    /// The HMAC key; 64 bytes.
    hmac_key: Vec<u8>,
    /// Counters of direct messages sent, by target id.
    send_dm_ctr: CtrMap,
    /// Counters of direct messages received, by source id.
    recv_dm_ctr: CtrMap,
    /// Counters of broadcasts, by source id.
    brdcst_ctr: CtrMap,
}

impl CryptoHandler {
    /// The AES key of the session.
    pub closed spec fn aes_key_view(self) -> Seq<u8> {
        self.aes_key@
    }

    /// The HMAC key of the session.
    pub closed spec fn hmac_key_view(self) -> Seq<u8> {
        self.hmac_key@
    }

    /// Counters of direct messages sent, by target id.
    pub closed spec fn send_ctrs(self) -> Map<u16, u64> {
        ctr_entries(self.send_dm_ctr)
    }

    /// Counters of direct messages received, by source id.
    pub closed spec fn recv_ctrs(self) -> Map<u16, u64> {
        ctr_entries(self.recv_dm_ctr)
    }

    /// Counters of broadcasts, by source id.
    pub closed spec fn bcast_ctrs(self) -> Map<u16, u64> {
        ctr_entries(self.brdcst_ctr)
    }

    /// How many peers the send table tracks.
    pub closed spec fn send_count(self) -> nat {
        ctr_count(self.send_dm_ctr)
    }

    /// How many peers the receive table tracks.
    pub closed spec fn recv_count(self) -> nat {
        ctr_count(self.recv_dm_ctr)
    }

    /// How many peers the broadcast table tracks.
    pub closed spec fn bcast_count(self) -> nat {
        ctr_count(self.brdcst_ctr)
    }

    /// The keys have their fixed sizes.
    pub open spec fn wf(self) -> bool {
        self.aes_key_view().len() == 16 && self.hmac_key_view().len() == 64
    }

    /// Build the crypto state of a fresh session from the seed and keys
    /// the SSS delivered. All counter tables start empty.
    pub fn new(seed: Vec<u8>, aes_key: Vec<u8>, hmac_key: Vec<u8>) -> (r: CryptoHandler)
        requires
            seed@.len() == 32,
            aes_key@.len() == 16,
            hmac_key@.len() == 64,
        ensures
            r.wf(),
            r.aes_key_view() == aes_key@,
            r.hmac_key_view() == hmac_key@,
            forall|k: u16| !r.send_ctrs().dom().contains(k),
            forall|k: u16| !r.recv_ctrs().dom().contains(k),
            forall|k: u16| !r.bcast_ctrs().dom().contains(k),
            r.send_count() == 0,
            r.recv_count() == 0,
            r.bcast_count() == 0,
    {
        let rng = rng_from_seed(&seed);
        CryptoHandler {
            rng,
            aes_key,
            hmac_key,
            send_dm_ctr: ctr_map_new(),
            recv_dm_ctr: ctr_map_new(),
            brdcst_ctr: ctr_map_new(),
        }
    }

    /// How many leading bytes of a radio body form the verification
    /// segment.
    pub fn verification_len(&self) -> (r: usize)
        ensures
            r == 56,
    {
        VerificationSegment::size()
    }

    /// Whether the verification segment at the front of the buffer
    /// authenticates `msg`: its length is well-formed, its counter is no
    /// replay, and its HMAC matches. Nothing is changed; the counter is
    /// committed only by a successful decrypt.
    pub fn verify(&self, data: &Vec<u8>, msg: Message) -> (r: bool)
        requires
            self.wf(),
            data@.len() >= 56,
            msg.len <= u16::MAX,
        ensures
            r == spec_verify(self.hmac_key_view(), self.recv_ctrs(), self.bcast_ctrs(), data@, msg),
    {
        if msg.len < 56 {
            return false;
        }
        if (msg.len - 56) % 16 != 0 {
            return false;
        }
        let seg = VerificationSegment::from_bytes(data);
        let prev = match msg.tgt_id {
            Id::Broadcast => get_prev(&self.brdcst_ctr, msg.src_id.to_u16()),
            Id::Other(_) => get_prev(&self.recv_dm_ctr, msg.src_id.to_u16()),
            _ => {
                return false;
            },
        };
        if seg.ctr < prev {
            return false;
        }
        let hdr = MessageHeader { tgt_id: msg.tgt_id, src_id: msg.src_id, len: msg.len as u16 };
        let mut hm_in = hdr.to_bytes();
        append_bytes(&mut hm_in, data, 0, 16);
        append_bytes(&mut hm_in, data, 16, 8);
        let ok = hmac_sha256_verify(&self.hmac_key, &hm_in, &seg.hmac);
        proof {
            assert(hm_in@ =~= header_bytes(hdr) + data@.subrange(0, 16) + data@.subrange(16, 24));
        }
        ok
    }
    /// Seal the cleartext at the front of `data` into the radio envelope,
    /// in place: the verification segment is written at offset 0 and the
    /// encrypted content segment after it, and the body length is
    /// returned. The per-peer counter (by target for a direct message, by
    /// source for a broadcast) is incremented. Yields nothing — with the
    /// buffer and every table unchanged — when the target class carries
    /// no envelope, the counter space is exhausted, or the counter table
    /// is full.
    pub fn encrypt(&mut self, data: &mut Vec<u8>, msg: Message) -> (r: Option<usize>)
        requires
            old(self).wf(),
            56 + pad16(40 + msg.len as int) <= old(data)@.len(),
            old(data)@.len() <= u16::MAX,
        ensures
            final(self).wf(),
            final(self).aes_key_view() == old(self).aes_key_view(),
            final(self).hmac_key_view() == old(self).hmac_key_view(),
            final(self).recv_ctrs() == old(self).recv_ctrs(),
            final(self).recv_count() == old(self).recv_count(),
            final(data)@.len() == old(data)@.len(),
            !(msg.tgt_id is Broadcast || msg.tgt_id is Other) ==> (r is None && final(data)@ == old(data)@ && final(self).send_ctrs() == old(self).send_ctrs() && final(self).bcast_ctrs()
                == old(self).bcast_ctrs() && final(self).send_count() == old(self).send_count()
                && final(self).bcast_count() == old(self).bcast_count()),
            (msg.tgt_id is Broadcast || msg.tgt_id is Other) ==> ({
                let k = if msg.tgt_id is Broadcast {
                    spec_id_to_u16(msg.src_id)
                } else {
                    spec_id_to_u16(msg.tgt_id)
                };
                let m0 = if msg.tgt_id is Broadcast {
                    old(self).bcast_ctrs()
                } else {
                    old(self).send_ctrs()
                };
                let c0 = if msg.tgt_id is Broadcast {
                    old(self).bcast_count()
                } else {
                    old(self).send_count()
                };
                let prev = prev_ctr(m0, k);
                let ok = prev < u64::MAX && (m0.dom().contains(k) || c0 < 256);
                &&& (r is Some <==> ok)
                &&& !ok ==> (final(data)@ == old(data)@ && final(self).send_ctrs() == old(self).send_ctrs() && final(self).bcast_ctrs() == old(self).bcast_ctrs() && final(self).send_count() == old(self).send_count() && final(self).bcast_count() == old(self).bcast_count())
                &&& ok ==> (r matches Some(n) && {
                    let m = old(data)@.subrange(0, msg.len as int);
                    let nc = (prev + 1) as u64;
                    let d = final(data)@;
                    let iv = d.subrange(0, 16);
                    &&& n == 56 + pad16(40 + msg.len)
                    &&& n <= old(data)@.len()
                    &&& d.subrange(16, 24) == u64_le(nc)
                    &&& d.subrange(24, 56) == hmac_sha256_of(
                        old(self).hmac_key_view(),
                        header_bytes(
                            MessageHeader {
                                tgt_id: msg.tgt_id,
                                src_id: msg.src_id,
                                len: n as u16,
                            },
                        ) + iv + d.subrange(16, 24),
                    )
                    &&& d.subrange(56, n as int) == aes_cbc_enc(
                        old(self).aes_key_view(),
                        iv,
                        content_plain(m),
                    )
                    &&& open_content(old(self).aes_key_view(), iv, d.subrange(56, n as int))
                        == Some(m)
                    &&& d.skip(n as int) == old(data)@.skip(n as int)
                    &&& (msg.tgt_id is Broadcast ==> final(self).bcast_ctrs() == old(self).bcast_ctrs().insert(k, nc) && final(self).send_ctrs() == old(self).send_ctrs() && final(self).send_count() == old(self).send_count())
                    &&& (msg.tgt_id is Other ==> final(self).send_ctrs() == old(self).send_ctrs().insert(k, nc) && final(self).bcast_ctrs() == old(self).bcast_ctrs() && final(self).bcast_count() == old(self).bcast_count())
                })
            }),
    {
        let l = msg.len;
        let is_bcast = match msg.tgt_id {
            Id::Broadcast => true,
            Id::Other(_) => false,
            _ => {
                return None;
            },
        };
        let k = if is_bcast {
            msg.src_id.to_u16()
        } else {
            msg.tgt_id.to_u16()
        };
        let prev = if is_bcast {
            get_prev(&self.brdcst_ctr, k)
        } else {
            get_prev(&self.send_dm_ctr, k)
        };
        let nctr = match next_counter(prev) {
            Some(c) => c,
            None => {
                return None;
            },
        };
        let inserted = if is_bcast {
            ctr_insert(&mut self.brdcst_ctr, k, nctr)
        } else {
            ctr_insert(&mut self.send_dm_ctr, k, nctr)
        };
        if !inserted {
            return None;
        }
        let sha = sha256_range(data, 0, l);
        let ch = ContentHeader { sha, len: l as u64 };
        let mut pt = ch.to_bytes();
        append_bytes(&mut pt, data, 0, l);
        let ghost m = data@.subrange(0, l as int);
        proof {
            assert(pt@ =~= content_plain(m));
        }
        let iv = rng_fill16(&mut self.rng);
        let ct = aes128_cbc_encrypt(&self.aes_key, &iv, &pt, 0, pt.len());
        let n = 56 + ct.len();
        let hdr = MessageHeader { tgt_id: msg.tgt_id, src_id: msg.src_id, len: n as u16 };
        let ctrb = u64_to_bytes(nctr);
        let mut hm_in = hdr.to_bytes();
        append_bytes(&mut hm_in, &iv, 0, 16);
        append_bytes(&mut hm_in, &ctrb, 0, 8);
        let tag = hmac_sha256(&self.hmac_key, &hm_in);
        let ct_len = ct.len();
        splice_bytes(data, 0, &iv, 0, 16);
        splice_bytes(data, 16, &ctrb, 0, 8);
        splice_bytes(data, 24, &tag, 0, 32);
        splice_bytes(data, 56, &ct, 0, ct_len);
        proof {
            let d = data@;
            assert(d.subrange(0, 16) =~= iv@);
            assert(d.subrange(16, 24) =~= ctrb@);
            assert(d.subrange(24, 56) =~= tag@);
            assert(d.subrange(56, n as int) =~= ct@);
            assert(d.skip(n as int) =~= old(data)@.skip(n as int));
            assert(hm_in@ =~= header_bytes(hdr) + iv@ + ctrb@);
            let p = pt@;
            assert(p.subrange(0, p.len() as int) =~= p);
            assert(aes_cbc_dec(self.aes_key@, iv@, ct@) == Some(p));
            assert(p.len() == 40 + l);
            assert(ct@.len() == pad16(40 + l as int));
            lemma_pad16_mod(40 + l as int);
            assert(ct@.len() % 16 == 0);
            assert(p.subrange(32, 40) =~= u64_le(l as u64));
            lemma_u64_le_roundtrip(l as u64);
            assert(u64_from_le(p.subrange(32, 40)) == l as u64);
            assert(p.subrange(0, 32) =~= sha256_of(m));
            assert(p.subrange(40, 40 + l as int) =~= m);
            assert(open_content(self.aes_key@, iv@, d.subrange(56, n as int)) == Some(m));
        }
        Some(n)
    }

    /// Open the radio envelope in `data`, in place: commit the peer's
    /// counter from the verification segment, decrypt the content
    /// segment, check the embedded length and digest, and move the
    /// cleartext to the front of the buffer, returning its length.
    /// Yields nothing when the target class carries no envelope, the
    /// counter table is full, or decryption or a check refuses the body;
    /// the buffer is then unchanged.
    pub fn decrypt(&mut self, data: &mut Vec<u8>, msg: Message) -> (r: Option<usize>)
        requires
            old(self).wf(),
            56 <= msg.len,
            msg.len <= old(data)@.len(),
        ensures
            final(self).wf(),
            final(self).aes_key_view() == old(self).aes_key_view(),
            final(self).hmac_key_view() == old(self).hmac_key_view(),
            final(self).send_ctrs() == old(self).send_ctrs(),
            final(self).send_count() == old(self).send_count(),
            final(data)@.len() == old(data)@.len(),
            !(msg.tgt_id is Broadcast || msg.tgt_id is Other) ==> (r is None && final(data)@ == old(data)@ && final(self).recv_ctrs() == old(self).recv_ctrs() && final(self).bcast_ctrs()
                == old(self).bcast_ctrs() && final(self).recv_count() == old(self).recv_count()
                && final(self).bcast_count() == old(self).bcast_count()),
            (msg.tgt_id is Broadcast || msg.tgt_id is Other) ==> ({
                let k = spec_id_to_u16(msg.src_id);
                let c = u64_from_le(old(data)@.subrange(16, 24));
                let m0 = if msg.tgt_id is Broadcast {
                    old(self).bcast_ctrs()
                } else {
                    old(self).recv_ctrs()
                };
                let c0 = if msg.tgt_id is Broadcast {
                    old(self).bcast_count()
                } else {
                    old(self).recv_count()
                };
                let ins_ok = m0.dom().contains(k) || c0 < 256;
                &&& !ins_ok ==> (r is None && final(data)@ == old(data)@ && final(self).recv_ctrs()
                    == old(self).recv_ctrs() && final(self).bcast_ctrs() == old(self).bcast_ctrs()
                    && final(self).recv_count() == old(self).recv_count() && final(self).bcast_count() == old(self).bcast_count())
                &&& ins_ok ==> ({
                    &&& (msg.tgt_id is Broadcast ==> final(self).bcast_ctrs() == old(self).bcast_ctrs().insert(k, c) && final(self).recv_ctrs() == old(self).recv_ctrs()
                        && final(self).recv_count() == old(self).recv_count())
                    &&& (msg.tgt_id is Other ==> final(self).recv_ctrs() == old(self).recv_ctrs().insert(k, c) && final(self).bcast_ctrs() == old(self).bcast_ctrs() && final(self).bcast_count() == old(self).bcast_count())
                    &&& match open_content(
                        old(self).aes_key_view(),
                        old(data)@.subrange(0, 16),
                        old(data)@.subrange(56, msg.len as int),
                    ) {
                        None => r is None && final(data)@ == old(data)@,
                        Some(m) => (r matches Some(n) && n == m.len() && final(data)@.subrange(
                            0,
                            n as int,
                        ) == m && final(data)@.skip(n as int) == old(data)@.skip(n as int)),
                    }
                })
            }),
    {
        let is_bcast = match msg.tgt_id {
            Id::Broadcast => true,
            Id::Other(_) => false,
            _ => {
                return None;
            },
        };
        let seg = VerificationSegment::from_bytes(data);
        let k = msg.src_id.to_u16();
        let inserted = if is_bcast {
            ctr_insert(&mut self.brdcst_ctr, k, seg.ctr)
        } else {
            ctr_insert(&mut self.recv_dm_ctr, k, seg.ctr)
        };
        if !inserted {
            return None;
        }
        if (msg.len - 56) % 16 != 0 {
            return None;
        }
        let pt = match aes128_cbc_decrypt(&self.aes_key, &seg.iv, data, 56, msg.len) {
            Some(p) => p,
            None => {
                return None;
            },
        };
        proof {
            vstd::std_specs::vec::axiom_spec_len(&pt);
        }
        if pt.len() < 40 {
            return None;
        }
        let ch = ContentHeader::from_bytes(&pt);
        if msg.len < 96 || ch.len > (msg.len - 96) as u64 {
            return None;
        }
        if ch.len > (pt.len() - 40) as u64 {
            return None;
        }
        let mlen = ch.len as usize;
        let digest = sha256_range(&pt, 40, 40 + mlen);
        if !bytes_eq(&digest, &ch.sha) {
            return None;
        }
        splice_bytes(data, 0, &pt, 40, mlen);
        proof {
            let m = pt@.subrange(40, 40 + mlen as int);
            assert(data@.subrange(0, mlen as int) =~= m);
            assert(data@.skip(mlen as int) =~= old(data)@.skip(mlen as int));
        }
        Some(mlen)
    }
}

/// The smallest multiple of 16 above `x` is indeed a multiple of 16.
proof fn lemma_pad16_mod(x: int)
    requires
        x >= 0,
    ensures
        pad16(x) % 16 == 0,
        x < pad16(x) <= x + 16,
{
    let q = x / 16;
    vstd::arithmetic::div_mod::lemma_fundamental_div_mod(x, 16);
    assert(pad16(x) == 16 * (q + 1));
    vstd::arithmetic::div_mod::lemma_mod_multiples_basic(q + 1, 16);
}

/// A replayed envelope is rejected: whenever the counter carried in a
/// verification segment is below the counter the receiver has recorded
/// for the sending peer, verification refuses the message, whatever the
/// rest of the segment holds.
pub proof fn lemma_replay_rejected(
    hmac_key: Seq<u8>,
    recv: Map<u16, u64>,
    bcast: Map<u16, u64>,
    s: Seq<u8>,
    msg: Message,
)
    requires
        s.len() >= 56,
        match msg.tgt_id {
            Id::Broadcast => u64_from_le(s.subrange(16, 24)) < prev_ctr(
                bcast,
                spec_id_to_u16(msg.src_id),
            ),
            Id::Other(_) => u64_from_le(s.subrange(16, 24)) < prev_ctr(
                recv,
                spec_id_to_u16(msg.src_id),
            ),
            _ => true,
        },
    ensures
        !spec_verify(hmac_key, recv, bcast, s, msg),
{
}

/// A freshly sealed envelope is accepted: a body whose length is
/// well-formed, whose counter is at least what the receiver has recorded
/// for the peer, and whose tag is the HMAC of the transport header, the
/// IV and the counter under the shared key, passes verification.
pub proof fn lemma_fresh_envelope_verifies(
    hmac_key: Seq<u8>,
    recv: Map<u16, u64>,
    bcast: Map<u16, u64>,
    s: Seq<u8>,
    msg: Message,
    nc: u64,
)
    requires
        s.len() >= 56,
        msg.len >= 56,
        (msg.len - 56) % 16 == 0,
        s.subrange(16, 24) == u64_le(nc),
        s.subrange(24, 56) == hmac_sha256_of(
            hmac_key,
            header_bytes(MessageHeader { tgt_id: msg.tgt_id, src_id: msg.src_id, len: msg.len as u16 })
                + s.subrange(0, 16) + s.subrange(16, 24),
        ),
        match msg.tgt_id {
            Id::Broadcast => nc >= prev_ctr(bcast, spec_id_to_u16(msg.src_id)),
            Id::Other(_) => nc >= prev_ctr(recv, spec_id_to_u16(msg.src_id)),
            _ => false,
        },
    ensures
        spec_verify(hmac_key, recv, bcast, s, msg),
{
    lemma_u64_le_roundtrip(nc);
}

/// The authentication state of the device: the per-device shared secret
/// handed to the SSS at registration and deregistration.
pub struct AuthHandler {
    /// The 64-byte shared secret.
    pub secret: Vec<u8>,
}

impl AuthHandler {
    /// The secret has its fixed size.
    pub open spec fn wf(self) -> bool {
        self.secret@.len() == 64
    }

    /// Build an authentication handler around a 64-byte secret.
    pub fn new(secret: Vec<u8>) -> (r: AuthHandler)
        requires
            secret@.len() == 64,
        ensures
            r.wf(),
            r.secret@ == secret@,
    {
        AuthHandler { secret }
    }
}

} // verus!
