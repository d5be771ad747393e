//! Variable-length integer framing used by the raw TCP transport.
//!
//! A VarInt stores seven bits per byte, least significant group first; the most
//! significant bit of a byte is set when another byte follows.
use vstd::prelude::*;

verus! {

#[verifier::external_type_specification]
#[verifier::external_body]
pub struct ExIoError(std::io::Error);

/// Why reading a VarInt from a stream stopped.
#[derive(Debug)]
pub enum VarIntError {
    /// The connection was closed.
    Eof,
    /// The stream reported an I/O error.
    Io(std::io::Error),
    /// Five bytes were read and none of them ended the VarInt.
    TooLong,
}

impl VarIntError {
    /// Human-readable description of the error.
    pub fn to_string(&self) -> (text: String)
        ensures
            self is Eof ==> text@ == "EOF"@,
            self is TooLong ==> text@ == "VarInt exceeds 5 bytes"@,
            self matches VarIntError::Io(e) ==> exists|detail: String|
                vstd::string::to_string_from_display_ensures::<std::io::Error>(e, detail)
                    && text@ == "I/O error: "@ + detail@,
    {
        match self {
            VarIntError::Eof => String::from_str("EOF"),
            VarIntError::Io(e) => {
                let detail = e.to_string();
                let text = String::from_str("I/O error: ").concat(detail.as_str());
                text
            },
            VarIntError::TooLong => String::from_str("VarInt exceeds 5 bytes"),
        }
    }
}

/// Largest number of bytes a VarInt may occupy.
pub const VARINT_MAX_BYTES: usize = 5;

/// The VarInt bytes of a non-negative number.
pub open spec fn varint_bytes(v: nat) -> Seq<u8>
    decreases v,
{
    if v < 128 {
        seq![v as u8]
    } else {
        seq![((v % 128) + 128) as u8] + varint_bytes(v / 128)
    }
}

/// The 32 bits of an `i32`, read as an unsigned number: what a VarInt carries.
pub open spec fn varint_bits(v: i32) -> nat {
    (v as u32) as nat
}

proof fn lemma_low_bits(v: u32)
    ensures
        (v & 0x7f) == v % 128,
        (v >> 7) == v / 128,
        (v & 0x7f) < 128,
{
    assert((v & 0x7f) == v % 128) by (bit_vector);
    assert((v >> 7) == v / 128) by (bit_vector);
}

proof fn lemma_set_msb(b: u8)
    requires
        b < 128,
    ensures
        (b | 0x80u8) == b + 128,
{
    assert((b | 0x80u8) == b + 128) by (bit_vector)
        requires
            b < 128,
    ;
}

/// Encodes an `i32` as a VarInt byte sequence (one to five bytes): its 32 bits
/// are emitted seven at a time, so a negative value takes five bytes.
pub fn encode_varint(value: i32) -> (buf: Vec<u8>)
    ensures
        buf@ == varint_bytes(varint_bits(value)),
{
    let ghost v0 = varint_bits(value);
    let mut value: u32 = value as u32;
    let mut buf: Vec<u8> = Vec::with_capacity(VARINT_MAX_BYTES);
    loop
        invariant_except_break
            buf@ + varint_bytes(value as nat) == varint_bytes(v0),
        ensures
            buf@ == varint_bytes(v0),
        decreases value,
    {
        proof {
            lemma_low_bits(value);
        }
        let ghost before = value as nat;
        let mut byte = (value & 0x7f) as u8;
        value = value >> 7;
        if value != 0 {
            proof {
                lemma_set_msb(byte);
            }
            byte = byte | 0x80;
        }
        buf.push(byte);
        if value == 0 {
            assert(varint_bytes(before) == seq![before as u8]);
            assert(buf@ == varint_bytes(v0));
            break;
        }
        assert(varint_bytes(before) == seq![((before % 128) + 128) as u8] + varint_bytes(
            value as nat,
        ));
    }
    buf
}

/// Upper bound on the length of a single framed packet (2 MiB).
pub const MAX_PACKET_SIZE: usize = 2097152;

/// Powers of 128.
pub open spec fn pow128(n: nat) -> nat
    decreases n,
{
    if n == 0 {
        1
    } else {
        128 * pow128((n - 1) as nat)
    }
}

/// The number carried by the seven-bit groups of `bytes`, least significant first.
pub open spec fn varint_value(bytes: Seq<u8>) -> nat
    decreases bytes.len(),
{
    if bytes.len() == 0 {
        0
    } else {
        (bytes[0] % 128) as nat + 128 * varint_value(bytes.drop_first())
    }
}

/// The `i32` whose two's complement bits are the low 32 bits of `x`.
pub open spec fn wrap_i32(x: nat) -> i32 {
    ((x % 0x1_0000_0000) as u32) as i32
}

/// Whether a byte announces that another byte follows.
pub open spec fn has_continuation(b: u8) -> bool {
    b >= 128
}

/// Outcome of feeding one byte to a [`VarIntDecoder`].
#[derive(Debug, PartialEq, Eq, Clone, Copy)]
pub enum VarIntStep {
    /// The VarInt is complete and carries this value.
    Done(i32),
    /// Another byte is needed.
    NeedMore,
    /// Five bytes were read and the last still announced a continuation.
    TooLong,
}

/// What feeding byte `b` does when `pending` holds the bytes read so far.
pub open spec fn decode_step(pending: Seq<u8>, b: u8) -> VarIntStep {
    if !has_continuation(b) {
        VarIntStep::Done(wrap_i32(varint_value(pending.push(b))))
    } else if pending.len() + 1 >= VARINT_MAX_BYTES {
        VarIntStep::TooLong
    } else {
        VarIntStep::NeedMore
    }
}

/// The outcome of feeding every byte of `input`, stopping at the first outcome
/// that is not `NeedMore`.
pub open spec fn decode_feed(pending: Seq<u8>, input: Seq<u8>) -> VarIntStep
    decreases input.len(),
{
    if input.len() == 0 {
        VarIntStep::NeedMore
    } else {
        match decode_step(pending, input[0]) {
            VarIntStep::NeedMore => decode_feed(pending.push(input[0]), input.drop_first()),
            other => other,
        }
    }
}

/// Incremental VarInt reader: the transport hands it one byte at a time as it
/// arrives from the stream.
pub struct VarIntDecoder {
    acc: u64,
    scale: u64,
    count: usize,
    pending: Ghost<Seq<u8>>,
}

impl View for VarIntDecoder {
    type V = Seq<u8>;

    /// The bytes consumed so far for the VarInt being read.
    closed spec fn view(&self) -> Seq<u8> {
        self.pending@
    }
}

proof fn lemma_pow128_pos(n: nat)
    ensures
        pow128(n) >= 1,
    decreases n,
{
    if n > 0 {
        lemma_pow128_pos((n - 1) as nat);
    }
}

proof fn lemma_value_push(s: Seq<u8>, b: u8)
    ensures
        varint_value(s.push(b)) == varint_value(s) + (b % 128) as nat * pow128(s.len()),
    decreases s.len(),
{
    if s.len() == 0 {
        assert(s.push(b).drop_first() =~= Seq::<u8>::empty());
        assert(varint_value(Seq::<u8>::empty()) == 0);
    } else {
        assert(s.push(b).drop_first() =~= s.drop_first().push(b));
        lemma_value_push(s.drop_first(), b);
        assert(pow128(s.len()) == 128 * pow128(s.drop_first().len()));
        let x = (b % 128) as nat;
        let p = pow128(s.drop_first().len());
        assert(128 * (varint_value(s.drop_first()) + x * p) == 128 * varint_value(s.drop_first())
            + x * (128 * p)) by (nonlinear_arith);
    }
}

proof fn lemma_value_bound(s: Seq<u8>)
    ensures
        varint_value(s) < pow128(s.len()),
    decreases s.len(),
{
    if s.len() > 0 {
        lemma_value_bound(s.drop_first());
        let r = varint_value(s.drop_first());
        let p = pow128(s.drop_first().len());
        assert(r + 1 <= p);
        assert(128 * (r + 1) <= 128 * p) by (nonlinear_arith)
            requires
                r + 1 <= p,
        ;
    }
}

proof fn lemma_pow128_table()
    ensures
        pow128(0) == 1,
        pow128(1) == 128,
        pow128(2) == 16384,
        pow128(3) == 2097152,
        pow128(4) == 268435456,
        pow128(5) == 34359738368,
{
    reveal_with_fuel(pow128, 6);
}

proof fn lemma_wrap_cast(acc: u64)
    ensures
        ((acc as u32) as i32) == wrap_i32(acc as nat),
{
    assert((acc as u32) as u64 == acc % 0x1_0000_0000) by (bit_vector);
}

impl VarIntDecoder {
    /// Internal consistency between the running sum and the bytes consumed.
    pub closed spec fn wf(&self) -> bool {
        &&& self.count == self.pending@.len()
        &&& self.count < VARINT_MAX_BYTES
        &&& self.acc == varint_value(self.pending@)
        &&& self.scale == pow128(self.count as nat)
        &&& forall|i: int| 0 <= i < self.pending@.len() ==> has_continuation(#[trigger] self.pending@[i])
    }

    /// A decoder that has consumed nothing.
    pub fn new() -> (d: Self)
        ensures
            d.wf(),
            d@ == Seq::<u8>::empty(),
    {
        VarIntDecoder { acc: 0, scale: 1, count: 0, pending: Ghost(Seq::empty()) }
    }

    /// Feeds the next byte read from the stream.
    ///
    /// After `Done` or `TooLong` the decoder is empty again, ready for the next VarInt.
    pub fn push(&mut self, b: u8) -> (step: VarIntStep)
        requires
            old(self).wf(),
        ensures
            final(self).wf(),
            step == decode_step(old(self)@, b),
            step is NeedMore ==> final(self)@ == old(self)@.push(b),
            !(step is NeedMore) ==> final(self)@ == Seq::<u8>::empty(),
    {
        let ghost s = self.pending@;
        proof {
            lemma_value_push(s, b);
            lemma_value_bound(s);
            lemma_value_bound(s.push(b));
            lemma_pow128_table();
        }
        let low = (b & 0x7f) as u64;
        assert((b & 0x7f) == b % 128) by (bit_vector);
        let acc = self.acc + low * self.scale;
        if b & 0x80 == 0 {
            assert(b & 0x80 == 0 ==> b < 128) by (bit_vector);
            proof {
                lemma_wrap_cast(acc);
            }
            let v = (acc as u32) as i32;
            *self = VarIntDecoder::new();
            VarIntStep::Done(v)
        } else {
            assert(b & 0x80 != 0 ==> b >= 128) by (bit_vector);
            if self.count + 1 >= VARINT_MAX_BYTES {
                *self = VarIntDecoder::new();
                VarIntStep::TooLong
            } else {
                let ghost np = s.push(b);
                self.acc = acc;
                self.scale = self.scale * 128;
                self.count = self.count + 1;
                self.pending = Ghost(np);
                assert forall|i: int| 0 <= i < np.len() implies has_continuation(#[trigger] np[i]) by {
                    if i < s.len() {
                        assert(np[i] == s[i]);
                    }
                }
                VarIntStep::NeedMore
            }
        }
    }
}

/// Checks a decoded packet length: a packet is accepted when its length is
/// positive and at most [`MAX_PACKET_SIZE`]; anything else closes the connection.
pub fn accept_packet_len(n: i32) -> (len: Option<usize>)
    ensures
        len == accepted_packet_len(n),
{
    if 0 < n && n <= MAX_PACKET_SIZE as i32 {
        Some(n as usize)
    } else {
        None
    }
}

/// The lengths that [`accept_packet_len`] lets through.
pub open spec fn accepted_packet_len(n: i32) -> Option<usize> {
    if 0 < n && n <= MAX_PACKET_SIZE {
        Some(n as usize)
    } else {
        None
    }
}

/// What the last step of reading packets from a stream produced.
#[derive(Debug, PartialEq, Eq, Clone, Copy, Structural)]
pub enum ReadEvent {
    /// A length prefix was decoded.
    LengthRead(i32),
    /// Reading the length prefix failed; `eof` when the peer closed the stream.
    LengthFailed { eof: bool },
    /// The packet body was read in full.
    BodyRead,
    /// Reading the packet body failed.
    BodyFailed,
    /// The packet was handed to the ECS layer.
    Forwarded,
    /// The ECS layer no longer accepts events.
    ForwardFailed,
}

/// Why a packet stream is closed.
#[derive(Debug, PartialEq, Eq, Clone, Copy, Structural)]
pub enum CloseReason {
    /// The peer closed the stream.
    PeerClosed,
    /// The length prefix could not be read (I/O error or too long).
    LengthError,
    /// The declared length is not an acceptable packet length.
    BadLength(i32),
    /// The body could not be read.
    BodyError,
    /// The ECS layer is gone.
    EcsGone,
}

/// What the packet reader does next.
#[derive(Debug, PartialEq, Eq, Clone, Copy, Structural)]
pub enum ReadAction {
    /// Read the next length prefix.
    ReadLength,
    /// Read a body of this many bytes.
    ReadBody(usize),
    /// Hand the body to the ECS layer as a binary payload.
    Forward,
    /// Stop reading; the connection is then closed.
    Close(CloseReason),
}

/// The reader's next action after `e`; a reader starts with `ReadLength`.
pub open spec fn read_next(e: ReadEvent) -> ReadAction {
    match e {
        ReadEvent::LengthRead(n) => match accepted_packet_len(n) {
            Some(len) => ReadAction::ReadBody(len),
            None => ReadAction::Close(CloseReason::BadLength(n)),
        },
        ReadEvent::LengthFailed { eof } => ReadAction::Close(
            if eof {
                CloseReason::PeerClosed
            } else {
                CloseReason::LengthError
            },
        ),
        ReadEvent::BodyRead => ReadAction::Forward,
        ReadEvent::BodyFailed => ReadAction::Close(CloseReason::BodyError),
        ReadEvent::Forwarded => ReadAction::ReadLength,
        ReadEvent::ForwardFailed => ReadAction::Close(CloseReason::EcsGone),
    }
}

/// Decides the packet reader's next action: a decoded length leads to reading
/// the body when it is acceptable, a body is forwarded, a forwarded packet
/// leads to the next length, and any failure closes the stream.
pub fn read_step(e: ReadEvent) -> (a: ReadAction)
    ensures
        a == read_next(e),
{
    match e {
        ReadEvent::LengthRead(n) => match accept_packet_len(n) {
            Some(len) => ReadAction::ReadBody(len),
            None => ReadAction::Close(CloseReason::BadLength(n)),
        },
        ReadEvent::LengthFailed { eof } => if eof {
            ReadAction::Close(CloseReason::PeerClosed)
        } else {
            ReadAction::Close(CloseReason::LengthError)
        },
        ReadEvent::BodyRead => ReadAction::Forward,
        ReadEvent::BodyFailed => ReadAction::Close(CloseReason::BodyError),
        ReadEvent::Forwarded => ReadAction::ReadLength,
        ReadEvent::ForwardFailed => ReadAction::Close(CloseReason::EcsGone),
    }
}

/// A well-framed packet goes through in order: its length (when acceptable)
/// leads to reading exactly that many bytes, the body is forwarded, and
/// reading then resumes with the next length; every failure closes the stream.
pub proof fn law_packet_cycle(data: Seq<u8>, rest: Seq<u8>)
    requires
        0 < data.len() <= MAX_PACKET_SIZE,
    ensures
        decode_feed(Seq::empty(), varint_bytes(data.len()) + data + rest) == VarIntStep::Done(data.len() as i32),
        read_next(ReadEvent::LengthRead(data.len() as i32)) == ReadAction::ReadBody(data.len() as usize),
        read_next(ReadEvent::BodyRead) == ReadAction::Forward,
        read_next(ReadEvent::Forwarded) == ReadAction::ReadLength,
        read_next(ReadEvent::BodyFailed) is Close,
        read_next(ReadEvent::ForwardFailed) is Close,
        forall|eof: bool| #[trigger] read_next(ReadEvent::LengthFailed { eof }) is Close,
{
    assert(varint_bits(data.len() as i32) == data.len());
    law_varint_roundtrip(data.len() as i32, data + rest);
    assert(varint_bytes(data.len()) + data + rest =~= varint_bytes(data.len()) + (data + rest));
}

proof fn lemma_value_encoding(w: nat)
    ensures
        varint_value(varint_bytes(w)) == w,
    decreases w,
{
    let e = varint_bytes(w);
    if w < 128 {
        assert(e.drop_first() =~= Seq::<u8>::empty());
        assert(varint_value(e.drop_first()) == 0);
        assert(e[0] == w as u8);
    } else {
        lemma_value_encoding(w / 128);
        assert(e.drop_first() =~= varint_bytes(w / 128));
        assert(e[0] == ((w % 128) + 128) as u8);
        assert(e[0] % 128 == w % 128);
        assert(w == 128 * (w / 128) + w % 128);
    }
}

proof fn lemma_value_concat(p: Seq<u8>, q: Seq<u8>)
    ensures
        varint_value(p + q) == varint_value(p) + pow128(p.len()) * varint_value(q),
    decreases p.len(),
{
    if p.len() == 0 {
        assert(p + q =~= q);
        assert(pow128(0) == 1);
        assert(varint_value(p) == 0);
    } else {
        assert((p + q).drop_first() =~= p.drop_first() + q);
        assert((p + q)[0] == p[0]);
        assert(pow128(p.len()) == 128 * pow128(p.drop_first().len()));
        lemma_value_concat(p.drop_first(), q);
        let a = varint_value(p.drop_first());
        let c = pow128(p.drop_first().len());
        let d = varint_value(q);
        assert(128 * (a + c * d) == 128 * a + (128 * c) * d) by (nonlinear_arith);
    }
}

proof fn lemma_encoding_len(w: nat, k: nat)
    requires
        k >= 1,
        w < pow128(k),
    ensures
        1 <= varint_bytes(w).len() <= k,
    decreases w,
{
    if w >= 128 {
        assert(k >= 2) by {
            if k == 1 {
                assert(pow128(1) == 128) by {
                    reveal_with_fuel(pow128, 2);
                }
            }
        }
        let km = (k - 1) as nat;
        assert(pow128(k) == 128 * pow128(km));
        assert(w / 128 < pow128(km)) by (nonlinear_arith)
            requires
                w < 128 * pow128(km),
        ;
        lemma_encoding_len(w / 128, km);
    }
}

proof fn lemma_encoding_shape(w: nat)
    ensures
        varint_bytes(w).len() >= 1,
        forall|i: int|
            0 <= i < varint_bytes(w).len() - 1 ==> has_continuation(#[trigger] varint_bytes(w)[i]),
        !has_continuation(varint_bytes(w).last()),
    decreases w,
{
    if w >= 128 {
        lemma_encoding_shape(w / 128);
        let e = varint_bytes(w);
        let r = varint_bytes(w / 128);
        assert forall|i: int| 0 <= i < e.len() - 1 implies has_continuation(#[trigger] e[i]) by {
            if i > 0 {
                assert(e[i] == r[i - 1]);
            }
        }
    }
}

proof fn lemma_feed_prefix(p: Seq<u8>, a: Seq<u8>, rest: Seq<u8>)
    requires
        !(decode_feed(p, a) is NeedMore),
    ensures
        decode_feed(p, a + rest) == decode_feed(p, a),
    decreases a.len(),
{
    assert((a + rest)[0] == a[0]);
    match decode_step(p, a[0]) {
        VarIntStep::NeedMore => {
            assert((a + rest).drop_first() =~= a.drop_first() + rest);
            lemma_feed_prefix(p.push(a[0]), a.drop_first(), rest);
        },
        _ => {},
    }
}

proof fn lemma_feed_encoding(p: Seq<u8>, w: nat)
    requires
        p.len() + varint_bytes(w).len() <= VARINT_MAX_BYTES,
    ensures
        decode_feed(p, varint_bytes(w)) == VarIntStep::Done(wrap_i32(varint_value(p + varint_bytes(w)))),
    decreases w,
{
    let e = varint_bytes(w);
    if w < 128 {
        assert(e.drop_first() =~= Seq::<u8>::empty());
        assert(p.push(e[0]) =~= p + e);
    } else {
        lemma_encoding_shape(w / 128);
        let r = varint_bytes(w / 128);
        assert(e.drop_first() =~= r);
        assert(has_continuation(e[0]));
        lemma_feed_encoding(p.push(e[0]), w / 128);
        assert(p.push(e[0]) + r =~= p + e);
    }
}

/// The encoding of every `i32` takes one to five bytes; every byte but the
/// last announces a continuation.
pub proof fn law_encoding_length(v: i32)
    ensures
        1 <= varint_bytes(varint_bits(v)).len() <= VARINT_MAX_BYTES,
        forall|i: int|
            0 <= i < varint_bytes(varint_bits(v)).len() - 1 ==> has_continuation(
                #[trigger] varint_bytes(varint_bits(v))[i],
            ),
        !has_continuation(varint_bytes(varint_bits(v)).last()),
{
    lemma_pow128_table();
    lemma_encoding_len(varint_bits(v), 5);
    lemma_encoding_shape(varint_bits(v));
}

/// Decoding what [`encode_varint`] produced gives the value back, negative
/// values included, whatever bytes follow it.
pub proof fn law_varint_roundtrip(v: i32, rest: Seq<u8>)
    ensures
        decode_feed(Seq::empty(), varint_bytes(varint_bits(v)) + rest) == VarIntStep::Done(v),
{
    law_encoding_length(v);
    let e = varint_bytes(varint_bits(v));
    lemma_feed_encoding(Seq::empty(), varint_bits(v));
    assert(Seq::<u8>::empty() + e =~= e);
    lemma_value_encoding(varint_bits(v));
    assert(varint_bits(v) % 0x1_0000_0000 == varint_bits(v));
    assert(((v as u32) as u32) as i32 == v) by (bit_vector);
    lemma_feed_prefix(Seq::empty(), e, rest);
}

/// A packet framed by its VarInt length reads back as that length, and the
/// length passes the size check whenever the packet is non-empty and within
/// [`MAX_PACKET_SIZE`].
pub proof fn law_frame_roundtrip(data: Seq<u8>)
    requires
        0 < data.len() <= MAX_PACKET_SIZE,
    ensures
        decode_feed(Seq::empty(), varint_bytes(data.len()) + data) == VarIntStep::Done(data.len() as i32),
        accepted_packet_len(data.len() as i32) == Some(data.len() as usize),
{
    assert(varint_bits(data.len() as i32) == data.len());
    law_varint_roundtrip(data.len() as i32, data);
}

} // verus!
