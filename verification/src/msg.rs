//! Device identifiers, message descriptors and the wire formats of the
//! transport header and of the SSS control message.

use vstd::prelude::*;
use crate::codec::{
    u16_le, u16_from_le, i16_le, i16_from_le, u16_to_bytes, u16_from_bytes, i16_to_bytes,
    i16_from_bytes, lemma_u16_le_roundtrip, lemma_i16_le_roundtrip,
};

verus! {

/// The maximum number of bytes a message may occupy in the shared data
/// buffer, envelope expansion included.
pub const SCEWL_MAX_DATA_SZ: usize = 16640;

/// A device identifier. On the wire it is a 16-bit unsigned integer:
/// 0 is the broadcast address, 1 the SSS, 2 the FAA, and any other value
/// names an ordinary peer device.
#[derive(Debug, Copy, Clone, PartialEq, Eq, Structural)]
pub enum Id {
    /// Address of a broadcast; 0 on the wire.
    Broadcast,
    /// Address of the SSS; 1 on the wire.
    SSS,
    /// Address of the FAA; 2 on the wire.
    FAA,
    /// Address of any other device; its own value on the wire.
    Other(u16),
}

/// An `Id` is in canonical form when an `Other` value does not collide with
/// one of the three reserved addresses.
pub open spec fn id_wf(id: Id) -> bool {
    match id {
        Id::Other(n) => n >= 3,
        _ => true,
    }
}

/// The wire value of an identifier.
pub open spec fn spec_id_to_u16(id: Id) -> u16 {
    match id {
        Id::Broadcast => 0,
        Id::SSS => 1,
        Id::FAA => 2,
        Id::Other(n) => n,
    }
}

/// The identifier named by a wire value.
pub open spec fn spec_id_from_u16(n: u16) -> Id {
    if n == 0 {
        Id::Broadcast
    } else if n == 1 {
        Id::SSS
    } else if n == 2 {
        Id::FAA
    } else {
        Id::Other(n)
    }
}

impl Id {
    /// The wire value of this identifier.
    pub fn to_u16(self) -> (r: u16)
        ensures
            r == spec_id_to_u16(self),
    {
        match self {
            Id::Broadcast => 0,
            Id::SSS => 1,
            Id::FAA => 2,
            Id::Other(n) => n,
        }
    }

    /// The identifier named by a wire value.
    pub fn from_u16(n: u16) -> (r: Id)
        ensures
            r == spec_id_from_u16(n),
    {
        if n == 0 {
            Id::Broadcast
        } else if n == 1 {
            Id::SSS
        } else if n == 2 {
            Id::FAA
        } else {
            Id::Other(n)
        }
    }
}

/// Every 16-bit wire value decodes and re-encodes to itself.
pub proof fn lemma_id_u16_roundtrip(n: u16)
    ensures
        spec_id_to_u16(spec_id_from_u16(n)) == n,
{
}

/// Every canonical identifier re-encodes and decodes to itself.
pub proof fn lemma_u16_id_roundtrip(id: Id)
    requires
        id_wf(id),
    ensures
        spec_id_from_u16(spec_id_to_u16(id)) == id,
{
}

/// Status of a send or receive operation of the controller.
#[derive(Debug, Copy, Clone, PartialEq, Eq, Structural)]
pub enum Error {
    /// An unknown error, a failed verification or decryption among them.
    Unknown,
    /// The operation repeats one that already took place.
    Already,
    /// No message could be recovered from the channel.
    NoMessage,
}

/// Operation field of an SSS control message. On the wire it is a 16-bit
/// signed integer: -1 acknowledges an earlier registration, 0 requests or
/// confirms a registration, 1 a deregistration; anything else is unknown.
#[derive(Debug, Copy, Clone, PartialEq, Eq, Structural)]
pub enum SSSOp {
    /// The device was already registered; -1 on the wire.
    Already,
    /// Register, or registration succeeded; 0 on the wire.
    Register,
    /// Deregister, or deregistration succeeded; 1 on the wire.
    Deregister,
    /// Any other wire value; 2 on the wire.
    Unknown,
}

/// The wire value of an operation.
pub open spec fn spec_op_to_i16(op: SSSOp) -> i16 {
    match op {
        SSSOp::Already => -1i16,
        SSSOp::Register => 0i16,
        SSSOp::Deregister => 1i16,
        SSSOp::Unknown => 2i16,
    }
}

/// The operation named by a wire value.
pub open spec fn spec_op_from_i16(v: i16) -> SSSOp {
    if v == -1 {
        SSSOp::Already
    } else if v == 0 {
        SSSOp::Register
    } else if v == 1 {
        SSSOp::Deregister
    } else {
        SSSOp::Unknown
    }
}

impl SSSOp {
    /// The wire value of this operation.
    pub fn to_i16(self) -> (r: i16)
        ensures
            r == spec_op_to_i16(self),
    {
        match self {
            SSSOp::Already => -1,
            SSSOp::Register => 0,
            SSSOp::Deregister => 1,
            SSSOp::Unknown => 2,
        }
    }

    /// The operation named by a wire value.
    pub fn from_i16(v: i16) -> (r: SSSOp)
        ensures
            r == spec_op_from_i16(v),
    {
        if v == -1 {
            SSSOp::Already
        } else if v == 0 {
            SSSOp::Register
        } else if v == 1 {
            SSSOp::Deregister
        } else {
            SSSOp::Unknown
        }
    }
}

/// Descriptor of a message held in the shared data buffer: source, target
/// and byte count. The count is a machine word, not a `u16`, because the
/// crypto envelope can push a radio body past what the CPU-side header
/// field carries.
#[derive(Debug, Copy, Clone, PartialEq, Eq, Structural)]
pub struct Message {
    /// Identifier of the device this message is addressed to.
    pub tgt_id: Id,
    /// Identifier of the device this message comes from.
    pub src_id: Id,
    /// Number of payload bytes in the shared buffer.
    pub len: usize,
}

/// The 8-byte transport header: the two magic bytes `S`, `C`, then target,
/// source and length, each 16 bits.
#[derive(Debug, Copy, Clone, PartialEq, Eq, Structural)]
pub struct MessageHeader {
    /// Identifier of the device this message is addressed to.
    pub tgt_id: Id,
    /// Identifier of the device this message comes from.
    pub src_id: Id,
    /// Number of payload bytes that follow the header.
    pub len: u16,
}

/// The byte encoding of a transport header.
pub open spec fn header_bytes(h: MessageHeader) -> Seq<u8> {
    seq![83u8, 67u8] + u16_le(spec_id_to_u16(h.tgt_id)) + u16_le(spec_id_to_u16(h.src_id))
        + u16_le(h.len)
}

/// The header decoded from the six bytes that follow the magic pair.
pub open spec fn header_from_field_bytes(b: Seq<u8>) -> MessageHeader
    recommends
        b.len() == 6,
{
    MessageHeader {
        tgt_id: spec_id_from_u16(u16_from_le(b[0], b[1])),
        src_id: spec_id_from_u16(u16_from_le(b[2], b[3])),
        len: u16_from_le(b[4], b[5]),
    }
}

impl MessageHeader {
    /// Serialise the header, magic bytes included.
    pub fn to_bytes(&self) -> (r: Vec<u8>)
        ensures
            r@ == header_bytes(*self),
            r@.len() == 8,
    {
        let mut r: Vec<u8> = Vec::new();
        r.push(83);
        r.push(67);
        let mut t = u16_to_bytes(self.tgt_id.to_u16());
        r.append(&mut t);
        let mut s = u16_to_bytes(self.src_id.to_u16());
        r.append(&mut s);
        let mut l = u16_to_bytes(self.len);
        r.append(&mut l);
        assert(r@ =~= header_bytes(*self));
        r
    }

    /// Decode a header from the six field bytes that follow the magic pair.
    pub fn from_bytes(b: &[u8]) -> (r: MessageHeader)
        requires
            b@.len() == 6,
        ensures
            r == header_from_field_bytes(b@),
    {
        MessageHeader {
            tgt_id: Id::from_u16(u16_from_bytes(b[0], b[1])),
            src_id: Id::from_u16(u16_from_bytes(b[2], b[3])),
            len: u16_from_bytes(b[4], b[5]),
        }
    }
}

/// A header whose identifiers are canonical decodes from its own field
/// bytes to itself.
pub proof fn lemma_header_roundtrip(h: MessageHeader)
    requires
        id_wf(h.tgt_id),
        id_wf(h.src_id),
    ensures
        header_from_field_bytes(header_bytes(h).skip(2)) == h,
{
    let b = header_bytes(h).skip(2);
    assert(b[0] == u16_le(spec_id_to_u16(h.tgt_id))[0]);
    assert(b[1] == u16_le(spec_id_to_u16(h.tgt_id))[1]);
    assert(b[2] == u16_le(spec_id_to_u16(h.src_id))[0]);
    assert(b[3] == u16_le(spec_id_to_u16(h.src_id))[1]);
    assert(b[4] == u16_le(h.len)[0]);
    assert(b[5] == u16_le(h.len)[1]);
    lemma_u16_le_roundtrip(spec_id_to_u16(h.tgt_id));
    lemma_u16_le_roundtrip(spec_id_to_u16(h.src_id));
    lemma_u16_le_roundtrip(h.len);
    lemma_u16_id_roundtrip(h.tgt_id);
    lemma_u16_id_roundtrip(h.src_id);
}

impl Message {
    /// The transport header of this message; the length is truncated to the
    /// 16-bit wire field, so the descriptor must fit it.
    pub fn to_canonical(&self) -> (r: MessageHeader)
        requires
            self.len <= u16::MAX,
        ensures
            r == (MessageHeader { tgt_id: self.tgt_id, src_id: self.src_id, len: self.len as u16 }),
    {
        MessageHeader { tgt_id: self.tgt_id, src_id: self.src_id, len: self.len as u16 }
    }
}

/// The 4-byte SSS control message exchanged with the CPU: device id, then
/// operation.
#[derive(Debug, Copy, Clone, PartialEq, Eq, Structural)]
pub struct SSSMessage {
    /// The device the operation concerns.
    pub dev_id: Id,
    /// The operation requested or confirmed.
    pub op: SSSOp,
}

/// The byte encoding of an SSS control message.
pub open spec fn sss_message_bytes(m: SSSMessage) -> Seq<u8> {
    u16_le(spec_id_to_u16(m.dev_id)) + i16_le(spec_op_to_i16(m.op))
}

/// The SSS control message decoded from four bytes.
pub open spec fn sss_message_from_bytes(b: Seq<u8>) -> SSSMessage
    recommends
        b.len() >= 4,
{
    SSSMessage {
        dev_id: spec_id_from_u16(u16_from_le(b[0], b[1])),
        op: spec_op_from_i16(i16_from_le(b[2], b[3])),
    }
}

impl SSSMessage {
    /// Serialise the message to its four wire bytes.
    pub fn to_bytes(self) -> (r: Vec<u8>)
        ensures
            r@ == sss_message_bytes(self),
            r@.len() == 4,
    {
        let mut r = u16_to_bytes(self.dev_id.to_u16());
        let mut o = i16_to_bytes(self.op.to_i16());
        r.append(&mut o);
        assert(r@ =~= sss_message_bytes(self));
        r
    }

    /// Decode a message from the first four bytes of a buffer.
    pub fn from_bytes(b: &[u8]) -> (r: SSSMessage)
        requires
            b@.len() >= 4,
        ensures
            r == sss_message_from_bytes(b@),
    {
        SSSMessage {
            dev_id: Id::from_u16(u16_from_bytes(b[0], b[1])),
            op: SSSOp::from_i16(i16_from_bytes(b[2], b[3])),
        }
    }

    /// The size of the message on the wire.
    pub fn size() -> (r: usize)
        ensures
            r == 4,
    {
        4
    }
}

/// An SSS control message with a canonical device id decodes from its own
/// bytes to itself.
pub proof fn lemma_sss_message_roundtrip(m: SSSMessage)
    requires
        id_wf(m.dev_id),
    ensures
        sss_message_from_bytes(sss_message_bytes(m)) == m,
{
    let b = sss_message_bytes(m);
    assert(b[0] == u16_le(spec_id_to_u16(m.dev_id))[0]);
    assert(b[1] == u16_le(spec_id_to_u16(m.dev_id))[1]);
    assert(b[2] == i16_le(spec_op_to_i16(m.op))[0]);
    assert(b[3] == i16_le(spec_op_to_i16(m.op))[1]);
    lemma_u16_le_roundtrip(spec_id_to_u16(m.dev_id));
    lemma_i16_le_roundtrip(spec_op_to_i16(m.op));
    lemma_u16_id_roundtrip(m.dev_id);
}

} // verus!
