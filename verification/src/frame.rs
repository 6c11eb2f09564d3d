//! The frame value, the decoder and the encoder.

use vstd::prelude::*;
use vstd::slice::slice_to_vec;
use vstd::string::StringSliceAdditionalSpecFns;

use crate::buffer::{bm_byte, bm_bytes, bm_len, bm_take};
use crate::endian::{be_bytes, be_bytes_exec, be_val, be_val_exec, lemma_be_roundtrip, pow256};
use crate::mask::{apply_mask, gen_mask_key, lemma_mask_involutive, mask_seq};
use crate::proto::{close_code_num, lemma_opcode_roundtrip, opcode_num, opcode_of, CloseCode,
    OpCode};

verus! {

/// The length field of a frame: one byte holding the mask bit and the
/// base length, followed by the big-endian extension bytes where the
/// payload is too long for seven bits.
pub open spec fn spec_len_field(plen: nat, masked: bool) -> Seq<u8> {
    let mbit: u8 = if masked {
        0x80
    } else {
        0
    };
    if plen < 126 {
        seq![mbit | (plen as u8)]
    } else if plen <= 65535 {
        seq![mbit | 126u8] + be_bytes(plen, 2)
    } else {
        seq![mbit | 127u8] + be_bytes(plen, 8)
    }
}

/// The wire bytes of one frame: first header byte, length field, then —
/// when a mask key is given — the key followed by the masked payload,
/// else the payload unmodified.
pub open spec fn spec_message(p: Seq<u8>, code: OpCode, fin: bool, mask: Option<Seq<u8>>)
    -> Seq<u8> {
    let first: u8 = if fin {
        0x80 | opcode_num(code)
    } else {
        opcode_num(code)
    };
    let header = seq![first] + spec_len_field(p.len(), mask is Some);
    match mask {
        Some(k) => header + k + mask_seq(p, k),
        None => header + p,
    }
}

/// The payload of a close frame: the two big-endian bytes of the numeric
/// close code followed by the reason bytes, or nothing at all for the
/// `Empty` sentinel.
pub open spec fn spec_close_payload(code: CloseCode, reason_bytes: Seq<u8>) -> Seq<u8> {
    if code is Empty {
        Seq::empty()
    } else {
        be_bytes(close_code_num(code) as nat, 2) + reason_bytes
    }
}

/// A fatal decoding failure. Every variant aborts decoding of the
/// connection; the non-fatal "need more data" outcome is `Ok(None)` of
/// `Frame::parse`, not an error.
#[derive(Debug, Clone, Copy, PartialEq, Eq)]
pub enum ProtocolError {
    /// The server role demands the mask bit on every inbound frame.
    UnmaskedFromClient,
    /// The client role forbids the mask bit on every inbound frame.
    MaskedFromServer,
    /// The raw four-bit opcode is none of the six assigned codes.
    InvalidOpcode(u8),
    /// A ping or pong frame announced a payload longer than 125 bytes.
    OversizedControlFrame(OpCode, u64),
}

/// What one decoding step yields on a given buffer: nothing yet, a fatal
/// rejection, or an accepted frame.
pub enum ParseStep {
    NeedMore,
    Reject(ProtocolError),
    Accept(FrameModel),
}

/// One decoded or to-be-encoded frame: header flags, opcode, payload.
#[derive(Debug)]
pub struct Frame {
    finished: bool,
    rsv1: bool,
    rsv2: bool,
    rsv3: bool,
    opcode: OpCode,
    payload: Vec<u8>,
}

/// The mathematical content of a frame.
pub struct FrameModel {
    pub finished: bool,
    pub rsv1: bool,
    pub rsv2: bool,
    pub rsv3: bool,
    pub opcode: OpCode,
    pub payload: Seq<u8>,
}

impl View for Frame {
    type V = FrameModel;

    closed spec fn view(&self) -> FrameModel {
        FrameModel {
            finished: self.finished,
            rsv1: self.rsv1,
            rsv2: self.rsv2,
            rsv3: self.rsv3,
            opcode: self.opcode,
            payload: self.payload@,
        }
    }
}

impl FrameModel {
    /// The canonical close frame substituted for an oversized inbound
    /// close: finished, opcode close, empty payload.
    pub open spec fn default_close() -> FrameModel {
        FrameModel {
            finished: true,
            rsv1: false,
            rsv2: false,
            rsv3: false,
            opcode: OpCode::Close,
            payload: Seq::empty(),
        }
    }
}

/// Whether the mask bit of the second header byte is set.
pub open spec fn spec_masked(b: Seq<u8>) -> bool
    recommends
        b.len() >= 2,
{
    b[1] & 0x80 != 0
}

/// The seven-bit base length of the second header byte.
pub open spec fn spec_base_len(b: Seq<u8>) -> u8
    recommends
        b.len() >= 2,
{
    b[1] & 0x7F
}

/// How many extended-length bytes follow the two header bytes: two for
/// base length 126, eight for 127, none otherwise.
pub open spec fn spec_ext_len(b: Seq<u8>) -> nat
    recommends
        b.len() >= 2,
{
    if spec_base_len(b) == 126 {
        2
    } else if spec_base_len(b) == 127 {
        8
    } else {
        0
    }
}

/// The number of bytes before the payload: header, extended length, and
/// — for the server role — the four-byte mask key.
pub open spec fn spec_header_len(b: Seq<u8>, server: bool) -> nat {
    spec_ext_len(b) + 2 + if server {
        4nat
    } else {
        0nat
    }
}

/// The payload length the header announces: the base length directly, or
/// the big-endian value of the extended-length bytes.
pub open spec fn spec_payload_len(b: Seq<u8>) -> nat
    recommends
        2 + spec_ext_len(b) <= b.len(),
{
    if spec_base_len(b) == 126 {
        be_val(b.subrange(2, 4))
    } else if spec_base_len(b) == 127 {
        be_val(b.subrange(2, 10))
    } else {
        spec_base_len(b) as nat
    }
}

/// Whether the buffer holds one whole frame: both header bytes, the
/// extended-length bytes, the mask key where the role demands one, and
/// the announced number of payload bytes.
pub open spec fn spec_complete(b: Seq<u8>, server: bool) -> bool {
    &&& b.len() >= 2
    &&& b.len() >= 2 + spec_ext_len(b)
    &&& b.len() >= spec_header_len(b, server)
    &&& b.len() >= spec_header_len(b, server) + spec_payload_len(b)
}

/// The frame a complete buffer decodes to: flags and opcode from the
/// first header byte, and the payload bytes — recovered through the mask
/// key when the role demands one.
pub open spec fn spec_frame_model(b: Seq<u8>, server: bool) -> FrameModel
    recommends
        spec_complete(b, server),
        spec_masked(b) == server,
{
    let h = spec_header_len(b, server) as int;
    let raw = b.subrange(h, h + spec_payload_len(b));
    FrameModel {
        finished: b[0] & 0x80 != 0,
        rsv1: b[0] & 0x40 != 0,
        rsv2: b[0] & 0x20 != 0,
        rsv3: b[0] & 0x10 != 0,
        opcode: opcode_of(b[0] & 0x0F),
        payload: if server {
            mask_seq(raw, b.subrange(h - 4, h))
        } else {
            raw
        },
    }
}

/// What decoding yields on a buffer, for a given role. The checks come
/// in the decoder's order: a mask-bit mismatch is fatal as soon as both
/// header bytes are there, anything else waits for a complete frame;
/// then an unassigned opcode and an oversized ping or pong are fatal,
/// while an oversized close is normalized to the canonical close frame.
pub open spec fn spec_parse(b: Seq<u8>, server: bool) -> ParseStep {
    if b.len() < 2 {
        ParseStep::NeedMore
    } else if !spec_masked(b) && server {
        ParseStep::Reject(ProtocolError::UnmaskedFromClient)
    } else if spec_masked(b) && !server {
        ParseStep::Reject(ProtocolError::MaskedFromServer)
    } else if !spec_complete(b, server) {
        ParseStep::NeedMore
    } else {
        let raw_op = b[0] & 0x0F;
        let code = opcode_of(raw_op);
        let plen = spec_payload_len(b);
        if code is Bad {
            ParseStep::Reject(ProtocolError::InvalidOpcode(raw_op))
        } else if (code is Ping || code is Pong) && plen > 125 {
            ParseStep::Reject(ProtocolError::OversizedControlFrame(code, plen as u64))
        } else if code is Close && plen > 125 {
            ParseStep::Accept(FrameModel::default_close())
        } else {
            ParseStep::Accept(spec_frame_model(b, server))
        }
    }
}

/// How many bytes decoding removes from the front of the buffer: one
/// whole frame once it is complete and the mask bit matches the role,
/// nothing otherwise — a mask-bit mismatch and a short buffer both leave
/// the buffer untouched.
pub open spec fn spec_consumed(b: Seq<u8>, server: bool) -> int {
    if b.len() >= 2 && spec_masked(b) == server && spec_complete(b, server) {
        spec_header_len(b, server) + spec_payload_len(b) as int
    } else {
        0
    }
}

/// A frame the decoder accepts never carries the internal `Bad` opcode
/// sentinel.
pub proof fn lemma_parse_never_bad(b: Seq<u8>, server: bool)
    ensures
        spec_parse(b, server) matches ParseStep::Accept(m) ==> !(m.opcode is Bad),
{
}

/// Decoding an encoded unmasked frame, in the client role, gives back
/// the message: the same finished flag, opcode and payload, with clear
/// reserved bits. Control payloads must fit in 125 bytes — a longer
/// ping or pong is rejected on decode and a longer close is normalized
/// away — and the payload must fit the eight-byte length field.
pub proof fn lemma_parse_message_roundtrip(p: Seq<u8>, code: OpCode, fin: bool)
    requires
        !(code is Bad),
        code.spec_is_control() ==> p.len() <= 125,
        p.len() < pow256(8),
    ensures
        spec_parse(spec_message(p, code, fin, None::<Seq<u8>>), false) == ParseStep::Accept(
            FrameModel {
                finished: fin,
                rsv1: false,
                rsv2: false,
                rsv3: false,
                opcode: code,
                payload: p,
            },
        ),
        spec_consumed(spec_message(p, code, fin, None::<Seq<u8>>), false) == spec_message(
            p,
            code,
            fin,
            None::<Seq<u8>>,
        ).len(),
{
    let op = opcode_num(code);
    let first: u8 = if fin {
        0x80 | op
    } else {
        op
    };
    let lf = spec_len_field(p.len(), false);
    let w = spec_message(p, code, fin, None::<Seq<u8>>);
    assert(w == seq![first] + lf + p);
    assert(op <= 10);
    if fin {
        assert((0x80u8 | op) & 0x80 != 0) by (bit_vector);
        assert((0x80u8 | op) & 0x40 == 0 && (0x80u8 | op) & 0x20 == 0 && (0x80u8 | op) & 0x10
            == 0 && (0x80u8 | op) & 0x0F == op) by (bit_vector)
            requires
                op <= 10,
        ;
    } else {
        assert(op & 0x80 == 0 && op & 0x40 == 0 && op & 0x20 == 0 && op & 0x10 == 0 && op
            & 0x0F == op) by (bit_vector)
            requires
                op <= 10,
        ;
    }
    lemma_opcode_roundtrip(code);

    let ext = spec_ext_len(w);
    let plen = p.len();
    if plen < 126 {
        let pl8: u8 = plen as u8;
        assert(lf == seq![0u8 | pl8]);
        assert(0u8 | pl8 == pl8) by (bit_vector);
        assert(w[1] == pl8);
        assert(pl8 & 0x80 == 0 && pl8 & 0x7F == pl8) by (bit_vector)
            requires
                pl8 < 126,
        ;
        assert(spec_base_len(w) == pl8);
        assert(ext == 0);
        assert(spec_payload_len(w) == plen);
    } else if plen <= 65535 {
        assert(lf == seq![0u8 | 126u8] + be_bytes(plen, 2));
        assert(0u8 | 126u8 == 126u8) by (bit_vector);
        assert(w[1] == 126u8);
        assert(126u8 & 0x80 == 0 && 126u8 & 0x7F == 126) by (bit_vector);
        assert(spec_base_len(w) == 126);
        assert(ext == 2);
        assert(pow256(2) == 65536) by {
            reveal_with_fuel(pow256, 3);
        }
        lemma_be_roundtrip(plen, 2);
        assert(w.subrange(2, 4) =~= be_bytes(plen, 2));
        assert(spec_payload_len(w) == plen);
    } else {
        assert(lf == seq![0u8 | 127u8] + be_bytes(plen, 8));
        assert(0u8 | 127u8 == 127u8) by (bit_vector);
        assert(w[1] == 127u8);
        assert(127u8 & 0x80 == 0 && 127u8 & 0x7F == 127) by (bit_vector);
        assert(spec_base_len(w) == 127);
        assert(ext == 8);
        lemma_be_roundtrip(plen, 8);
        assert(w.subrange(2, 10) =~= be_bytes(plen, 8));
        assert(spec_payload_len(w) == plen);
    }
    assert(!spec_masked(w));
    assert(w.len() == 2 + ext + plen);
    assert(spec_header_len(w, false) == 2 + ext);
    assert(spec_complete(w, false));
    assert(w.subrange(2 + ext as int, 2 + ext + plen as int) =~= p);
    assert(spec_frame_model(w, false) == FrameModel {
        finished: fin,
        rsv1: false,
        rsv2: false,
        rsv3: false,
        opcode: code,
        payload: p,
    });
}

/// Decoding an encoded masked frame, in the server role, also gives
/// back the message, whatever the four-byte key was: the decoder's
/// unmasking undoes the encoder's masking.
pub proof fn lemma_parse_message_roundtrip_masked(p: Seq<u8>, code: OpCode, fin: bool, k: Seq<u8>)
    requires
        !(code is Bad),
        code.spec_is_control() ==> p.len() <= 125,
        p.len() < pow256(8),
        k.len() == 4,
    ensures
        spec_parse(spec_message(p, code, fin, Some(k)), true) == ParseStep::Accept(
            FrameModel {
                finished: fin,
                rsv1: false,
                rsv2: false,
                rsv3: false,
                opcode: code,
                payload: p,
            },
        ),
        spec_consumed(spec_message(p, code, fin, Some(k)), true) == spec_message(
            p,
            code,
            fin,
            Some(k),
        ).len(),
{
    let op = opcode_num(code);
    let first: u8 = if fin {
        0x80 | op
    } else {
        op
    };
    let lf = spec_len_field(p.len(), true);
    let w = spec_message(p, code, fin, Some(k));
    assert(w == seq![first] + lf + k + mask_seq(p, k));
    assert(op <= 10);
    if fin {
        assert((0x80u8 | op) & 0x80 != 0) by (bit_vector);
        assert((0x80u8 | op) & 0x40 == 0 && (0x80u8 | op) & 0x20 == 0 && (0x80u8 | op) & 0x10
            == 0 && (0x80u8 | op) & 0x0F == op) by (bit_vector)
            requires
                op <= 10,
        ;
    } else {
        assert(op & 0x80 == 0 && op & 0x40 == 0 && op & 0x20 == 0 && op & 0x10 == 0 && op
            & 0x0F == op) by (bit_vector)
            requires
                op <= 10,
        ;
    }
    lemma_opcode_roundtrip(code);

    let ext = spec_ext_len(w);
    let plen = p.len();
    if plen < 126 {
        let pl8: u8 = plen as u8;
        assert(lf == seq![0x80u8 | pl8]);
        assert(w[1] == 0x80u8 | pl8);
        assert((0x80u8 | pl8) & 0x80 != 0) by (bit_vector);
        assert((0x80u8 | pl8) & 0x7F == pl8) by (bit_vector)
            requires
                pl8 < 126,
        ;
        assert(spec_base_len(w) == pl8);
        assert(ext == 0);
        assert(spec_payload_len(w) == plen);
    } else if plen <= 65535 {
        assert(lf == seq![0x80u8 | 126u8] + be_bytes(plen, 2));
        assert(w[1] == 0x80u8 | 126u8);
        assert((0x80u8 | 126u8) & 0x80 != 0 && (0x80u8 | 126u8) & 0x7F == 126) by (bit_vector);
        assert(spec_base_len(w) == 126);
        assert(ext == 2);
        assert(pow256(2) == 65536) by {
            reveal_with_fuel(pow256, 3);
        }
        lemma_be_roundtrip(plen, 2);
        assert(w.subrange(2, 4) =~= be_bytes(plen, 2));
        assert(spec_payload_len(w) == plen);
    } else {
        assert(lf == seq![0x80u8 | 127u8] + be_bytes(plen, 8));
        assert(w[1] == 0x80u8 | 127u8);
        assert((0x80u8 | 127u8) & 0x80 != 0 && (0x80u8 | 127u8) & 0x7F == 127) by (bit_vector);
        assert(spec_base_len(w) == 127);
        assert(ext == 8);
        lemma_be_roundtrip(plen, 8);
        assert(w.subrange(2, 10) =~= be_bytes(plen, 8));
        assert(spec_payload_len(w) == plen);
    }
    assert(spec_masked(w));
    assert(w.len() == 2 + ext + 4 + plen);
    let h = spec_header_len(w, true) as int;
    assert(h == 2 + ext + 4);
    assert(spec_complete(w, true));
    assert(w.subrange(h - 4, h) =~= k);
    assert(w.subrange(h, h + plen as int) =~= mask_seq(p, k));
    lemma_mask_involutive(p, k);
    assert(spec_frame_model(w, true) == FrameModel {
        finished: fin,
        rsv1: false,
        rsv2: false,
        rsv3: false,
        opcode: code,
        payload: p,
    });
}

impl Frame {
    /// Destruct the frame into its finished flag, opcode and payload.
    pub fn unpack(self) -> (r: (bool, OpCode, Vec<u8>))
        ensures
            r.0 == self@.finished,
            r.1 == self@.opcode,
            r.2@ == self@.payload,
    {
        (self.finished, self.opcode, self.payload)
    }

    /// Whether the frame completes a logical message.
    pub fn finished(&self) -> (r: bool)
        ensures
            r == self@.finished,
    {
        self.finished
    }

    /// The first reserved header bit.
    pub fn rsv1(&self) -> (r: bool)
        ensures
            r == self@.rsv1,
    {
        self.rsv1
    }

    /// The second reserved header bit.
    pub fn rsv2(&self) -> (r: bool)
        ensures
            r == self@.rsv2,
    {
        self.rsv2
    }

    /// The third reserved header bit.
    pub fn rsv3(&self) -> (r: bool)
        ensures
            r == self@.rsv3,
    {
        self.rsv3
    }

    /// The frame's opcode.
    pub fn opcode(&self) -> (r: OpCode)
        ensures
            r == self@.opcode,
    {
        self.opcode
    }

    /// The frame's payload bytes.
    pub fn payload(&self) -> (r: &Vec<u8>)
        ensures
            r@ == self@.payload,
    {
        &self.payload
    }

    /// Serialize one message into wire bytes, with the given mask key or
    /// none. This is the deterministic core of `message`: handing it the
    /// key makes the whole transform a function of its arguments.
    pub fn message_with_key(data: Vec<u8>, code: OpCode, finished: bool, mask: Option<Vec<u8>>)
        -> (r: Vec<u8>)
        requires
            !(code is Bad),
            mask matches Some(k) ==> k@.len() == 4,
        ensures
            r@ == spec_message(
                data@,
                code,
                finished,
                match mask {
                    Some(k) => Some(k@),
                    None => None,
                },
            ),
    {
        let payload_len = data.len();
        let op = code.as_u8();
        let one: u8 = if finished {
            0x80 | op
        } else {
            op
        };
        let two_bit: u8 = if mask.is_some() {
            0x80
        } else {
            0
        };
        let mut buf: Vec<u8> = Vec::new();
        buf.push(one);
        if payload_len < 126 {
            buf.push(two_bit | (payload_len as u8));
        } else if payload_len <= 65535 {
            buf.push(two_bit | 126);
            let mut ext = be_bytes_exec(payload_len as u64, 2);
            buf.append(&mut ext);
        } else {
            buf.push(two_bit | 127);
            let mut ext = be_bytes_exec(payload_len as u64, 8);
            buf.append(&mut ext);
        }
        assert(buf@ =~= seq![one] + spec_len_field(data@.len(), mask is Some));
        match mask {
            Some(key) => {
                let mut i: usize = 0;
                while i < 4
                    invariant
                        key@.len() == 4,
                        i <= 4,
                        buf@ == seq![one] + spec_len_field(data@.len(), true)
                            + key@.take(i as int),
                    decreases 4 - i,
                {
                    buf.push(key[i]);
                    proof {
                        assert(key@.take(i + 1) =~= key@.take(i as int).push(key@[i as int]));
                    }
                    i += 1;
                }
                proof {
                    assert(key@.take(4) =~= key@);
                }
                let mut body = data;
                apply_mask(&mut body, &key);
                buf.append(&mut body);
                assert(buf@ =~= spec_message(data@, code, finished, Some(key@)));
                buf
            },
            None => {
                let mut body = data;
                buf.append(&mut body);
                assert(buf@ =~= spec_message(data@, code, finished, None::<Seq<u8>>));
                buf
            },
        }
    }

    /// Serialize one message into wire bytes. With `genmask` a fresh
    /// four-byte mask key is generated, written after the length field,
    /// and the payload is written XORed with it; without, the payload is
    /// written unmodified.
    pub fn message(data: Vec<u8>, code: OpCode, finished: bool, genmask: bool) -> (r: Vec<u8>)
        requires
            !(code is Bad),
        ensures
            !genmask ==> r@ == spec_message(data@, code, finished, None::<Seq<u8>>),
            genmask ==> exists|k: Seq<u8>|
                k.len() == 4 && r@ == spec_message(data@, code, finished, Some(k)),
    {
        if genmask {
            let key = gen_mask_key();
            let ghost kview = key@;
            let r = Self::message_with_key(data, code, finished, Some(key));
            assert(kview.len() == 4 && r@ == spec_message(data@, code, finished, Some(kview)));
            r
        } else {
            Self::message_with_key(data, code, finished, None)
        }
    }

    /// Build a close control frame: its payload is the two big-endian
    /// bytes of the numeric close code followed by the reason bytes —
    /// or empty for the `Empty` sentinel, whatever the reason says.
    pub fn close(code: CloseCode, reason: &str, genmask: bool) -> (r: Vec<u8>)
        ensures
            !genmask ==> r@ == spec_message(
                spec_close_payload(code, reason.spec_bytes()),
                OpCode::Close,
                true,
                None::<Seq<u8>>,
            ),
            genmask ==> exists|k: Seq<u8>|
                k.len() == 4 && r@ == spec_message(
                    spec_close_payload(code, reason.spec_bytes()),
                    OpCode::Close,
                    true,
                    Some(k),
                ),
    {
        let payload: Vec<u8> = match code {
            CloseCode::Empty => Vec::new(),
            _ => {
                let num = code.as_u16();
                let mut p = be_bytes_exec(num as u64, 2);
                let mut rb = slice_to_vec(reason.as_bytes());
                p.append(&mut rb);
                p
            },
        };
        assert(payload@ =~= spec_close_payload(code, reason.spec_bytes()));
        Self::message(payload, OpCode::Close, true, genmask)
    }

    /// Decode the front of the buffer into at most one frame.
    ///
    /// `Ok(None)` means more bytes are needed; the buffer is then left
    /// byte for byte as given, so the caller can append and retry. On
    /// any other outcome that a complete frame allows, exactly that
    /// frame's bytes are removed from the front; a mask-bit mismatch is
    /// reported before the frame is complete and removes nothing.
    #[verifier::rlimit(80)]
    pub fn parse(buf: &mut bytes::BytesMut, server: bool) -> (r: Result<
        Option<Frame>,
        ProtocolError,
    >)
        ensures
            bm_bytes(*final(buf)) == bm_bytes(*old(buf)).skip(
                spec_consumed(bm_bytes(*old(buf)), server),
            ),
            match r {
                Ok(None) => spec_parse(bm_bytes(*old(buf)), server) is NeedMore,
                Ok(Some(f)) => spec_parse(bm_bytes(*old(buf)), server)
                    == ParseStep::Accept(f@),
                Err(e) => spec_parse(bm_bytes(*old(buf)), server) == ParseStep::Reject(e),
            },
    {
        let ghost b = bm_bytes(*old(buf));
        proof {
            assert(b.skip(0) =~= b);
        }
        let buf_len = bm_len(buf);
        if buf_len < 2 {
            return Ok(None);
        }
        let first = bm_byte(buf, 0);
        let second = bm_byte(buf, 1);
        let finished = first & 0x80 != 0;

        let masked = second & 0x80 != 0;
        if !masked && server {
            return Err(ProtocolError::UnmaskedFromClient);
        } else if masked && !server {
            return Err(ProtocolError::MaskedFromServer);
        }

        let rsv1 = first & 0x40 != 0;
        let rsv2 = first & 0x20 != 0;
        let rsv3 = first & 0x10 != 0;
        let raw_op = first & 0x0F;
        let len7 = second & 0x7F;

        let mut idx: usize = 2;
        let length: u64;
        if len7 == 126 {
            if buf_len < 4 {
                return Ok(None);
            }
            let mut ext: Vec<u8> = Vec::new();
            ext.push(bm_byte(buf, 2));
            ext.push(bm_byte(buf, 3));
            proof {
                assert(ext@ =~= b.subrange(2, 4));
            }
            length = be_val_exec(&ext);
            idx = 4;
        } else if len7 == 127 {
            if buf_len < 10 {
                return Ok(None);
            }
            let mut ext: Vec<u8> = Vec::new();
            let mut i: usize = 2;
            while i < 10
                invariant
                    2 <= i <= 10,
                    b.len() >= 10,
                    b == bm_bytes(*buf),
                    ext@ == b.subrange(2, i as int),
                decreases 10 - i,
            {
                let byte = bm_byte(buf, i);
                ext.push(byte);
                proof {
                    assert(b.subrange(2, i + 1) =~= b.subrange(2, i as int).push(b[i as int]));
                }
                i += 1;
            }
            length = be_val_exec(&ext);
            idx = 10;
        } else {
            length = len7 as u64;
            assert(len7 < 126) by (bit_vector)
                requires
                    len7 == second & 0x7F && len7 != 126 && len7 != 127,
            ;
        }
        assert(idx == 2 + spec_ext_len(b));
        assert(length == spec_payload_len(b));

        let key: Option<Vec<u8>> = if server {
            if buf_len - idx < 4 {
                return Ok(None);
            }
            let mut k: Vec<u8> = Vec::new();
            k.push(bm_byte(buf, idx));
            k.push(bm_byte(buf, idx + 1));
            k.push(bm_byte(buf, idx + 2));
            k.push(bm_byte(buf, idx + 3));
            proof {
                assert(k@ =~= b.subrange(idx as int, idx + 4));
            }
            idx += 4;
            Some(k)
        } else {
            None
        };
        assert(idx == spec_header_len(b, server));

        if ((buf_len - idx) as u64) < length {
            return Ok(None);
        }
        let plen = length as usize;

        let _header = bm_take(buf, idx);
        let mut data = bm_take(buf, plen);
        proof {
            assert(b.skip(idx as int).skip(plen as int) =~= b.skip(idx + plen));
            assert(data@ =~= b.subrange(idx as int, idx + plen));
        }

        let opcode = OpCode::from_u8(raw_op);
        if let OpCode::Bad = opcode {
            return Err(ProtocolError::InvalidOpcode(raw_op));
        }

        if plen > 125 {
            match opcode {
                OpCode::Ping | OpCode::Pong => {
                    return Err(ProtocolError::OversizedControlFrame(opcode, length));
                },
                OpCode::Close => {
                    return Ok(Some(Frame::default()));
                },
                _ => {},
            }
        }

        if let Some(k) = &key {
            apply_mask(&mut data, k);
        }

        Ok(
            Some(
                Frame {
                    finished: finished,
                    rsv1: rsv1,
                    rsv2: rsv2,
                    rsv3: rsv3,
                    opcode: opcode,
                    payload: data,
                },
            ),
        )
    }
}

impl Default for Frame {
    /// The canonical close frame: finished, opcode close, empty payload.
    fn default() -> (r: Frame)
        ensures
            r@ == FrameModel::default_close(),
    {
        let r = Frame {
            finished: true,
            rsv1: false,
            rsv2: false,
            rsv3: false,
            opcode: OpCode::Close,
            payload: Vec::new(),
        };
        proof {
            assert(r@.payload =~= Seq::<u8>::empty());
        }
        r
    }
}

} // verus!
