//! Framing of the packet protocol: header, address, identifier, length,
//! instruction, payload and checksum.

use vstd::prelude::*;
use crate::bounded::{frame_buf_as_slice, frame_buf_into_array, frame_buf_items, frame_buf_new, frame_buf_push};
use crate::checksum::{byte_sum, checksum, checksum_of};

verus! {

/// Fixed magic value that opens every frame.
pub const HEADER: u16 = 0xEF01;

/// Default module address carried by every frame.
pub const ADDRESS: u32 = 0xFFFF_FFFF;

/// Largest payload this library frames.
pub const MAX_PAYLOAD: usize = 32;

/// Largest frame the protocol allows.
pub const MAX_FRAME: usize = 256;

/// Bytes of a frame besides its payload: header, address, identifier,
/// length, instruction and checksum.
pub const FRAME_OVERHEAD: usize = 12;

/// Size of the fixed transport buffer for frames: that of an
/// LED-configuration frame, a 4-byte payload and 12 bytes of framing.
pub const LED_FRAME_LEN: usize = 16;

/// Bytes before the identifier: header and address.
pub const PREFIX_LEN: usize = 6;

/// Role of a packet.
#[derive(Clone, Copy, Debug, PartialEq, Eq, Structural)]
pub enum Identifier {
    Command,
    Data,
    Acknowledge,
    EndOfData,
}

/// The wire byte of an identifier.
pub open spec fn identifier_code(id: Identifier) -> u8 {
    match id {
        Identifier::Command => 0x01,
        Identifier::Data => 0x02,
        Identifier::Acknowledge => 0x07,
        Identifier::EndOfData => 0x08,
    }
}

/// The identifier whose wire byte is `b`, if any.
pub open spec fn identifier_from(b: u8) -> Option<Identifier> {
    if b == 0x01 {
        Some(Identifier::Command)
    } else if b == 0x02 {
        Some(Identifier::Data)
    } else if b == 0x07 {
        Some(Identifier::Acknowledge)
    } else if b == 0x08 {
        Some(Identifier::EndOfData)
    } else {
        None
    }
}

impl Identifier {
    pub fn code(&self) -> (r: u8)
        ensures
            r == identifier_code(*self),
    {
        match self {
            Identifier::Command => 0x01,
            Identifier::Data => 0x02,
            Identifier::Acknowledge => 0x07,
            Identifier::EndOfData => 0x08,
        }
    }

    pub fn from_code(b: u8) -> (r: Option<Identifier>)
        ensures
            r == identifier_from(b),
    {
        if b == 0x01 {
            Some(Identifier::Command)
        } else if b == 0x02 {
            Some(Identifier::Data)
        } else if b == 0x07 {
            Some(Identifier::Acknowledge)
        } else if b == 0x08 {
            Some(Identifier::EndOfData)
        } else {
            None
        }
    }
}

/// Why a frame could not be built.
#[derive(Clone, Copy, Debug, PartialEq, Eq, Structural)]
pub enum EncodeError {
    PayloadTooLarge,
    FrameSizeMismatch,
}

/// Big-endian bytes of a 16-bit value.
pub open spec fn be16(x: u16) -> Seq<u8> {
    seq![(x / 0x100) as u8, (x % 0x100) as u8]
}

/// The 16-bit value of two big-endian bytes.
pub open spec fn be16_value(hi: u8, lo: u8) -> nat {
    hi as nat * 0x100 + lo as nat
}

/// Big-endian bytes of a 32-bit value.
pub open spec fn be32(x: u32) -> Seq<u8> {
    seq![
        (x / 0x100_0000) as u8,
        ((x / 0x1_0000) % 0x100) as u8,
        ((x / 0x100) % 0x100) as u8,
        (x % 0x100) as u8,
    ]
}

/// Header and address, as they open every frame.
pub open spec fn prefix() -> Seq<u8> {
    be16(HEADER) + be32(ADDRESS)
}

/// The length field: instruction, payload and checksum.
pub open spec fn length_field(payload_len: nat) -> u16 {
    (payload_len + 3) as u16
}

/// The checksummed part of a frame: identifier, length, instruction, payload.
pub open spec fn frame_body(id: u8, instruction: u8, payload: Seq<u8>) -> Seq<u8> {
    seq![id] + be16(length_field(payload.len())) + seq![instruction] + payload
}

/// The complete frame for an identifier byte, an instruction and a payload.
pub open spec fn frame_of(id: u8, instruction: u8, payload: Seq<u8>) -> Seq<u8> {
    let body = frame_body(id, instruction, payload);
    prefix() + body + be16(checksum_of(body))
}

fn push_be16(v: &mut heapless::Vec<u8, 256>, x: u16)
    requires
        frame_buf_items(*old(v)).len() + 2 <= 256,
    ensures
        frame_buf_items(*final(v)) == frame_buf_items(*old(v)) + be16(x),
{
    let _ = frame_buf_push(v, (x / 0x100) as u8);
    let _ = frame_buf_push(v, (x % 0x100) as u8);
    assert(frame_buf_items(*v) =~= frame_buf_items(*old(v)) + be16(x));
}

/// Assembles the frame for `identifier`, `instruction` and `payload`.
/// A payload longer than `MAX_PAYLOAD` is refused.
pub fn encode(identifier: Identifier, instruction: u8, payload: &[u8]) -> (r: Result<
    heapless::Vec<u8, 256>,
    EncodeError,
>)
    ensures
        payload@.len() > MAX_PAYLOAD <==> r is Err,
        r is Err ==> r->Err_0 == EncodeError::PayloadTooLarge,
        r is Ok ==> frame_buf_items(r->Ok_0) == frame_of(
            identifier_code(identifier),
            instruction,
            payload@,
        ),
        r is Ok ==> frame_buf_items(r->Ok_0).len() == payload@.len() + FRAME_OVERHEAD
            <= MAX_FRAME,
{
    if payload.len() > MAX_PAYLOAD {
        return Err(EncodeError::PayloadTooLarge);
    }
    let mut f = frame_buf_new();
    push_be16(&mut f, HEADER);
    push_be16(&mut f, (ADDRESS / 0x1_0000) as u16);
    push_be16(&mut f, (ADDRESS % 0x1_0000) as u16);
    assert(frame_buf_items(f) =~= prefix());
    let length: u16 = (payload.len() + 3) as u16;
    let _ = frame_buf_push(&mut f, identifier.code());
    push_be16(&mut f, length);
    let _ = frame_buf_push(&mut f, instruction);
    let mut i: usize = 0;
    while i < payload.len()
        invariant
            i <= payload@.len() <= MAX_PAYLOAD,
            length == length_field(payload@.len()),
            frame_buf_items(f) == prefix() + seq![identifier_code(identifier)] + be16(length)
                + seq![instruction] + payload@.take(i as int),
        decreases payload@.len() - i,
    {
        let _ = frame_buf_push(&mut f, payload[i]);
        i = i + 1;
        assert(payload@.take(i as int) =~= payload@.take(i - 1).push(payload@[i - 1]));
        assert(frame_buf_items(f) =~= prefix() + seq![identifier_code(identifier)] + be16(length)
            + seq![instruction] + payload@.take(i as int));
    }
    let ghost body = frame_body(identifier_code(identifier), instruction, payload@);
    assert(payload@.take(payload@.len() as int) =~= payload@);
    assert(frame_buf_items(f) =~= prefix() + body);
    let bytes = frame_buf_as_slice(&f);
    let end = bytes.len();
    let sum = checksum(vstd::slice::slice_subrange(bytes, PREFIX_LEN, end));
    assert((prefix() + body).subrange(PREFIX_LEN as int, end as int) =~= body);
    push_be16(&mut f, sum);
    Ok(f)
}

/// Assembles a frame that must fill exactly the `LED_FRAME_LEN`-byte
/// buffer of the transport.
pub fn encode_fixed(identifier: Identifier, instruction: u8, payload: &[u8]) -> (r: Result<
    [u8; 16],
    EncodeError,
>)
    ensures
        payload@.len() > MAX_PAYLOAD ==> r is Err && r->Err_0 == EncodeError::PayloadTooLarge,
        payload@.len() <= MAX_PAYLOAD && payload@.len() + FRAME_OVERHEAD != LED_FRAME_LEN ==> r is Err
            && r->Err_0 == EncodeError::FrameSizeMismatch,
        payload@.len() <= MAX_PAYLOAD && payload@.len() + FRAME_OVERHEAD == LED_FRAME_LEN ==> r is Ok
            && r->Ok_0@ == frame_of(identifier_code(identifier), instruction, payload@),
{
    match encode(identifier, instruction, payload) {
        Err(e) => Err(e),
        Ok(f) => match frame_buf_into_array(f) {
            Ok(a) => Ok(a),
            Err(_) => Err(EncodeError::FrameSizeMismatch),
        },
    }
}

/// Why received bytes are not a frame.
#[derive(Clone, Copy, Debug, PartialEq, Eq, Structural)]
pub enum DecodeError {
    BadHeader,
    BadLength,
    ChecksumMismatch,
    BadIdentifier,
}

/// A decoded frame. The address is not kept.
pub struct Frame {
    pub identifier: Identifier,
    pub instruction: u8,
    pub payload: Vec<u8>,
}

/// What a decoded frame holds.
pub struct FrameModel {
    pub identifier: Identifier,
    pub instruction: u8,
    pub payload: Seq<u8>,
}

impl View for Frame {
    type V = FrameModel;

    open spec fn view(&self) -> FrameModel {
        FrameModel {
            identifier: self.identifier,
            instruction: self.instruction,
            payload: self.payload@,
        }
    }
}

/// The outcome of decoding the bytes `s`. Checks come in this order: the
/// size, the header and address, the trailing checksum over identifier
/// through payload, the length field, and the identifier.
pub open spec fn decoded(s: Seq<u8>) -> Result<FrameModel, DecodeError> {
    let n = s.len();
    if n < FRAME_OVERHEAD {
        Err(DecodeError::BadLength)
    } else if s.take(PREFIX_LEN as int) != prefix() {
        Err(DecodeError::BadHeader)
    } else if be16_value(s[n - 2], s[n - 1]) != checksum_of(s.subrange(PREFIX_LEN as int, n - 2)) as nat {
        Err(DecodeError::ChecksumMismatch)
    } else if be16_value(s[7], s[8]) != n - 9 {
        Err(DecodeError::BadLength)
    } else {
        match identifier_from(s[6]) {
            None => Err(DecodeError::BadIdentifier),
            Some(id) => Ok(FrameModel { identifier: id, instruction: s[9], payload: s.subrange(10, n - 2) }),
        }
    }
}

proof fn lemma_prefix_bytes()
    ensures
        prefix() =~= seq![0xEFu8, 0x01u8, 0xFFu8, 0xFFu8, 0xFFu8, 0xFFu8],
{
}

/// Checks and splits received bytes into a frame. The address is not checked.
pub fn decode(bytes: &[u8]) -> (r: Result<Frame, DecodeError>)
    ensures
        match r {
            Ok(f) => decoded(bytes@) == Ok::<FrameModel, DecodeError>(f@),
            Err(e) => decoded(bytes@) == Err::<FrameModel, DecodeError>(e),
        },
{
    proof {
        lemma_prefix_bytes();
    }
    let n = bytes.len();
    if n < FRAME_OVERHEAD {
        return Err(DecodeError::BadLength);
    }
    if !(bytes[0] == 0xEF && bytes[1] == 0x01 && bytes[2] == 0xFF && bytes[3] == 0xFF
        && bytes[4] == 0xFF && bytes[5] == 0xFF) {
        assert(bytes@.take(6) != prefix()) by {
            if bytes@.take(6) == prefix() {
                assert(bytes@.take(6)[0] == bytes@[0]);
                assert(bytes@.take(6)[1] == bytes@[1]);
                assert(bytes@.take(6)[2] == bytes@[2]);
                assert(bytes@.take(6)[3] == bytes@[3]);
                assert(bytes@.take(6)[4] == bytes@[4]);
                assert(bytes@.take(6)[5] == bytes@[5]);
            }
        }
        return Err(DecodeError::BadHeader);
    }
    assert(bytes@.take(6) =~= prefix());
    let body = vstd::slice::slice_subrange(bytes, PREFIX_LEN, n - 2);
    let sum = checksum(body);
    let stored: u32 = bytes[n - 2] as u32 * 0x100 + bytes[n - 1] as u32;
    if stored != sum as u32 {
        return Err(DecodeError::ChecksumMismatch);
    }
    let length: usize = bytes[7] as usize * 0x100 + bytes[8] as usize;
    if length != n - 9 {
        return Err(DecodeError::BadLength);
    }
    match Identifier::from_code(bytes[6]) {
        None => Err(DecodeError::BadIdentifier),
        Some(identifier) => {
            let payload = vstd::slice::slice_to_vec(vstd::slice::slice_subrange(bytes, 10, n - 2));
            Ok(Frame { identifier, instruction: bytes[9], payload })
        },
    }
}

proof fn lemma_be16_value(x: u16)
    ensures
        be16_value(be16(x)[0], be16(x)[1]) == x as nat,
{
}

proof fn lemma_identifier_code(id: Identifier)
    ensures
        identifier_from(identifier_code(id)) == Some(id),
{
}

proof fn lemma_frame_layout(id: u8, instruction: u8, payload: Seq<u8>)
    requires
        payload.len() <= MAX_PAYLOAD,
    ensures
        ({
            let f = frame_of(id, instruction, payload);
            let n = f.len();
            let body = frame_body(id, instruction, payload);
            &&& n == payload.len() + FRAME_OVERHEAD
            &&& f.take(PREFIX_LEN as int) == prefix()
            &&& f.subrange(PREFIX_LEN as int, n - 2) == body
            &&& f[n - 2] == be16(checksum_of(body))[0]
            &&& f[n - 1] == be16(checksum_of(body))[1]
            &&& f[6] == id
            &&& f[7] == be16(length_field(payload.len()))[0]
            &&& f[8] == be16(length_field(payload.len()))[1]
            &&& f[9] == instruction
            &&& f.subrange(10, n - 2) == payload
        }),
{
    let f = frame_of(id, instruction, payload);
    let n = f.len();
    let body = frame_body(id, instruction, payload);
    assert(f.take(PREFIX_LEN as int) =~= prefix());
    assert(f.subrange(PREFIX_LEN as int, n - 2) =~= body);
    assert(f.subrange(10, n - 2) =~= payload);
}

/// Decoding a frame that `encode` built gives back its identifier,
/// instruction and payload, with no error.
pub proof fn lemma_round_trip(identifier: Identifier, instruction: u8, payload: Seq<u8>)
    requires
        payload.len() <= MAX_PAYLOAD,
    ensures
        decoded(frame_of(identifier_code(identifier), instruction, payload)) == Ok::<
            FrameModel,
            DecodeError,
        >(FrameModel { identifier, instruction, payload }),
{
    let id = identifier_code(identifier);
    let body = frame_body(id, instruction, payload);
    lemma_frame_layout(id, instruction, payload);
    lemma_be16_value(checksum_of(body));
    lemma_be16_value(length_field(payload.len()));
    lemma_identifier_code(identifier);
}

/// In every encoded frame the length field counts the instruction, the
/// payload and the checksum, and the checksum field holds the 16-bit
/// truncated sum of the bytes from the identifier through the payload.
pub proof fn lemma_length_and_checksum(identifier: Identifier, instruction: u8, payload: Seq<u8>)
    requires
        payload.len() <= MAX_PAYLOAD,
    ensures
        ({
            let f = frame_of(identifier_code(identifier), instruction, payload);
            let n = f.len();
            &&& n == payload.len() + FRAME_OVERHEAD
            &&& be16_value(f[7], f[8]) == 1 + payload.len() + 2
            &&& be16_value(f[n - 2], f[n - 1]) == byte_sum(f.subrange(PREFIX_LEN as int, n - 2))
                % 0x1_0000
        }),
{
    let id = identifier_code(identifier);
    let body = frame_body(id, instruction, payload);
    lemma_frame_layout(id, instruction, payload);
    lemma_be16_value(checksum_of(body));
    lemma_be16_value(length_field(payload.len()));
}

/// `b` with bit `k` inverted.
pub open spec fn flip_bit(b: u8, k: u8) -> u8 {
    b ^ (1u8 << k)
}

proof fn lemma_flip_bit_differs(b: u8, k: u8)
    requires
        k < 8,
    ensures
        flip_bit(b, k) != b,
{
    assert(b ^ (1u8 << k) != b) by (bit_vector)
        requires
            k < 8,
    ;
}

proof fn lemma_byte_sum_update(s: Seq<u8>, i: int, v: u8)
    requires
        0 <= i < s.len(),
    ensures
        byte_sum(s.update(i, v)) + s[i] as nat == byte_sum(s) + v as nat,
    decreases s.len(),
{
    let t = s.update(i, v);
    if i == s.len() - 1 {
        assert(t.drop_last() =~= s.drop_last());
    } else {
        assert(t.drop_last() =~= s.drop_last().update(i, v));
        lemma_byte_sum_update(s.drop_last(), i, v);
    }
}

proof fn lemma_small_change_mod(x: nat, y: nat, a: nat, b: nat)
    requires
        x + a == y + b,
        a < 0x100,
        b < 0x100,
        a != b,
    ensures
        x % 0x1_0000 != y % 0x1_0000,
{
    vstd::arithmetic::div_mod::lemma_fundamental_div_mod(x as int, 0x1_0000);
    vstd::arithmetic::div_mod::lemma_fundamental_div_mod(y as int, 0x1_0000);
    if x % 0x1_0000 == y % 0x1_0000 {
        let qx = x as int / 0x1_0000;
        let qy = y as int / 0x1_0000;
        assert(0x1_0000 * (qx - qy) == b - a) by (nonlinear_arith)
            requires
                x == 0x1_0000 * qx + x % 0x1_0000,
                y == 0x1_0000 * qy + y % 0x1_0000,
                x % 0x1_0000 == y % 0x1_0000,
                x + a == y + b,
        ;
        if qx > qy {
            assert(0x1_0000 * (qx - qy) >= 0x1_0000) by (nonlinear_arith)
                requires
                    qx - qy >= 1,
            ;
        } else if qx < qy {
            assert(0x1_0000 * (qy - qx) >= 0x1_0000) by (nonlinear_arith)
                requires
                    qy - qx >= 1,
            ;
        }
    }
}

/// Inverting any one bit from the identifier through the payload of an
/// encoded frame, with its checksum left as it was, makes decoding fail
/// with a checksum mismatch.
pub proof fn lemma_tamper_detected(
    identifier: Identifier,
    instruction: u8,
    payload: Seq<u8>,
    i: int,
    k: u8,
)
    requires
        payload.len() <= MAX_PAYLOAD,
        PREFIX_LEN <= i < payload.len() + FRAME_OVERHEAD - 2,
        k < 8,
    ensures
        ({
            let f = frame_of(identifier_code(identifier), instruction, payload);
            decoded(f.update(i, flip_bit(f[i], k))) == Err::<FrameModel, DecodeError>(
                DecodeError::ChecksumMismatch,
            )
        }),
{
    let id = identifier_code(identifier);
    let f = frame_of(id, instruction, payload);
    let n = f.len();
    let body = frame_body(id, instruction, payload);
    let v = flip_bit(f[i], k);
    let t = f.update(i, v);
    lemma_frame_layout(id, instruction, payload);
    lemma_be16_value(checksum_of(body));
    lemma_flip_bit_differs(f[i], k);
    assert(t.take(PREFIX_LEN as int) =~= f.take(PREFIX_LEN as int));
    let tb = t.subrange(PREFIX_LEN as int, n - 2);
    assert(tb =~= body.update(i - 6, v));
    lemma_byte_sum_update(body, i - 6, v);
    lemma_small_change_mod(byte_sum(tb), byte_sum(body), body[i - 6] as nat, v as nat);
    assert(t[n - 2] == f[n - 2] && t[n - 1] == f[n - 1]);
}

} // verus!
