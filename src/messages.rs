//! Peer-wire messages: `<length prefix><message id><payload>` frames.
use vstd::prelude::*;
use crate::wire::{
    be_u16, be_u32, get_u16, get_u32, lemma_u16_round_trip, lemma_u32_round_trip, put_bytes,
    put_u16, put_u32, u16_at, u32_at,
};

verus! {

/// The state of a remote peer towards us.
///
/// Every peer starts out choking us; data is only answered once it has
/// unchoked us after we declared our interest.
#[derive(Debug, Clone, Copy, PartialEq, Eq, Structural)]
pub enum PeerState {
    /// The peer does not answer requests.
    Chocked,
    /// The peer answers requests.
    Interested,
}

/// One peer-wire message.
#[derive(Debug)]
pub enum MessageType {
    /// keep-alive: `<len=0000>`, no id and no payload.
    KeepAlive,
    /// choke: `<len=0001><id=0>`.
    Choke,
    /// unchoke: `<len=0001><id=1>`.
    Unchoke,
    /// interested: `<len=0001><id=2>`.
    Interested,
    /// not interested: `<len=0001><id=3>`.
    NotInterested,
    /// have: `<len=0005><id=4><piece index>`.
    Have(u32),
    /// bitfield: `<len=0001+X><id=5><bitfield>`; the high bit of the first
    /// byte stands for piece 0, spare trailing bits are zero.
    Bitfield(Vec<bool>),
    /// request: `<len=0013><id=6><index><begin><length>`.
    Request(u32, u32, u32),
    /// piece: `<len=0009+X><id=7><index><begin><block>`.
    Piece(u32, u32, Vec<u8>),
    /// cancel: `<len=0013><id=8><index><begin><length>`.
    Cancel(u32, u32, u32),
    /// port: `<len=0003><id=9><listen-port>`.
    Port(u16),
}

/// A message as a mathematical value.
pub enum Message {
    KeepAlive,
    Choke,
    Unchoke,
    Interested,
    NotInterested,
    Have(u32),
    Bitfield(Seq<bool>),
    Request(u32, u32, u32),
    Piece(u32, u32, Seq<u8>),
    Cancel(u32, u32, u32),
    Port(u16),
}

impl View for MessageType {
    type V = Message;

    open spec fn view(&self) -> Message {
        match self {
            MessageType::KeepAlive => Message::KeepAlive,
            MessageType::Choke => Message::Choke,
            MessageType::Unchoke => Message::Unchoke,
            MessageType::Interested => Message::Interested,
            MessageType::NotInterested => Message::NotInterested,
            MessageType::Have(i) => Message::Have(*i),
            MessageType::Bitfield(b) => Message::Bitfield(b@),
            MessageType::Request(i, b, l) => Message::Request(*i, *b, *l),
            MessageType::Piece(i, b, d) => Message::Piece(*i, *b, d@),
            MessageType::Cancel(i, b, l) => Message::Cancel(*i, *b, *l),
            MessageType::Port(p) => Message::Port(*p),
        }
    }
}

/// Why a frame could not be decoded.
#[derive(Debug, Clone, Copy, PartialEq, Eq, Structural)]
pub enum MessageError {
    /// Fewer bytes than the frame's length prefix announces.
    Truncated,
    /// A (length, id) pair that no message has.
    Malformed,
}

/// Number of bytes that hold `n` bits.
pub open spec fn bytes_for_bits(n: int) -> int {
    (n + 7) / 8
}

/// Bit `k` (0 = most significant) of `byte`.
pub open spec fn bit_of(byte: u8, k: int) -> bool {
    (byte >> ((7 - k) as u8)) & 1u8 == 1u8
}

/// 1 where `bits` has a set bit at `i`, 0 elsewhere (also past its end).
pub open spec fn bit_at(bits: Seq<bool>, i: int) -> u8 {
    if 0 <= i < bits.len() && bits[i] {
        1
    } else {
        0
    }
}

/// The byte `j` of the packed form of `bits`.
pub open spec fn pack_byte(bits: Seq<bool>, j: int) -> u8 {
    (bit_at(bits, 8 * j) << 7u8) | (bit_at(bits, 8 * j + 1) << 6u8) | (bit_at(bits, 8 * j + 2)
        << 5u8) | (bit_at(bits, 8 * j + 3) << 4u8) | (bit_at(bits, 8 * j + 4) << 3u8) | (bit_at(
        bits,
        8 * j + 5,
    ) << 2u8) | (bit_at(bits, 8 * j + 6) << 1u8) | bit_at(bits, 8 * j + 7)
}

/// `bits` packed eight to a byte, high bit first, spare bits zero.
pub open spec fn pack_bits(bits: Seq<bool>) -> Seq<u8> {
    Seq::new(bytes_for_bits(bits.len() as int) as nat, |j: int| pack_byte(bits, j))
}

/// Every bit of `bytes`, high bit of the first byte first.
pub open spec fn unpack_bits(bytes: Seq<u8>) -> Seq<bool> {
    Seq::new(8 * bytes.len(), |i: int| bit_of(bytes[i / 8], i % 8))
}

/// `bits` followed by `false` up to a whole number of bytes.
pub open spec fn pad_bits(bits: Seq<bool>) -> Seq<bool> {
    Seq::new(
        (8 * bytes_for_bits(bits.len() as int)) as nat,
        |i: int| i < bits.len() && bits[i],
    )
}

/// Whether a frame of length `len` with id `id` is one of the messages.
pub open spec fn known_pair(len: u32, id: u8) -> bool {
    (len == 1 && id <= 3) || (len == 5 && id == 4) || (len >= 1 && id == 5) || (len == 13 && id
        == 6) || (len >= 9 && id == 7) || (len == 13 && id == 8) || (len == 3 && id == 9)
}

/// The payload that a frame's length prefix counts, beside the id byte.
pub open spec fn payload_len(m: Message) -> int {
    match m {
        Message::Have(_) => 4,
        Message::Bitfield(bits) => bytes_for_bits(bits.len() as int),
        Message::Request(..) | Message::Cancel(..) => 12,
        Message::Piece(_, _, block) => 8 + block.len() as int,
        Message::Port(_) => 2,
        _ => 0,
    }
}

/// Whether the length prefix of `m`'s frame fits in 32 bits.
pub open spec fn encodable(m: Message) -> bool {
    1 + payload_len(m) <= u32::MAX
}

/// The frame of a message.
pub open spec fn encode(m: Message) -> Seq<u8> {
    match m {
        Message::KeepAlive => be_u32(0),
        Message::Choke => be_u32(1) + seq![0u8],
        Message::Unchoke => be_u32(1) + seq![1u8],
        Message::Interested => be_u32(1) + seq![2u8],
        Message::NotInterested => be_u32(1) + seq![3u8],
        Message::Have(i) => be_u32(5) + seq![4u8] + be_u32(i),
        Message::Bitfield(bits) => be_u32((1 + bytes_for_bits(bits.len() as int)) as u32) + seq![
            5u8,
        ] + pack_bits(bits),
        Message::Request(i, b, l) => be_u32(13) + seq![6u8] + be_u32(i) + be_u32(b) + be_u32(l),
        Message::Piece(i, b, block) => be_u32((9 + block.len()) as u32) + seq![7u8] + be_u32(i)
            + be_u32(b) + block,
        Message::Cancel(i, b, l) => be_u32(13) + seq![8u8] + be_u32(i) + be_u32(b) + be_u32(l),
        Message::Port(p) => be_u32(3) + seq![9u8] + be_u16(p),
    }
}

/// The message at the start of `b`, by its length prefix and id; bytes past
/// the frame are left for the next one.
pub open spec fn decode(b: Seq<u8>) -> Option<Message> {
    if b.len() < 4 || b.len() < 4 + u32_at(b, 0) {
        None
    } else {
        let len = u32_at(b, 0);
        if len == 0 {
            Some(Message::KeepAlive)
        } else if !known_pair(len, b[4]) {
            None
        } else {
            let id = b[4];
            if id == 0 {
                Some(Message::Choke)
            } else if id == 1 {
                Some(Message::Unchoke)
            } else if id == 2 {
                Some(Message::Interested)
            } else if id == 3 {
                Some(Message::NotInterested)
            } else if id == 4 {
                Some(Message::Have(u32_at(b, 5)))
            } else if id == 5 {
                Some(Message::Bitfield(unpack_bits(b.subrange(5, 4 + len))))
            } else if id == 6 {
                Some(Message::Request(u32_at(b, 5), u32_at(b, 9), u32_at(b, 13)))
            } else if id == 7 {
                Some(Message::Piece(u32_at(b, 5), u32_at(b, 9), b.subrange(13, 4 + len)))
            } else if id == 8 {
                Some(Message::Cancel(u32_at(b, 5), u32_at(b, 9), u32_at(b, 13)))
            } else {
                Some(Message::Port(u16_at(b, 5)))
            }
        }
    }
}


proof fn lemma_pack_byte_bits(x0: u8, x1: u8, x2: u8, x3: u8, x4: u8, x5: u8, x6: u8, x7: u8)
    requires
        x0 <= 1 && x1 <= 1 && x2 <= 1 && x3 <= 1 && x4 <= 1 && x5 <= 1 && x6 <= 1 && x7 <= 1,
    ensures
        ({
            let y = (x0 << 7u8) | (x1 << 6u8) | (x2 << 5u8) | (x3 << 4u8) | (x4 << 3u8) | (x5
                << 2u8) | (x6 << 1u8) | x7;
            &&& (y >> 7u8) & 1u8 == x0
            &&& (y >> 6u8) & 1u8 == x1
            &&& (y >> 5u8) & 1u8 == x2
            &&& (y >> 4u8) & 1u8 == x3
            &&& (y >> 3u8) & 1u8 == x4
            &&& (y >> 2u8) & 1u8 == x5
            &&& (y >> 1u8) & 1u8 == x6
            &&& (y >> 0u8) & 1u8 == x7
        }),
{
    assert(({
        let y = (x0 << 7u8) | (x1 << 6u8) | (x2 << 5u8) | (x3 << 4u8) | (x4 << 3u8) | (x5 << 2u8)
            | (x6 << 1u8) | x7;
        &&& (y >> 7u8) & 1u8 == x0
        &&& (y >> 6u8) & 1u8 == x1
        &&& (y >> 5u8) & 1u8 == x2
        &&& (y >> 4u8) & 1u8 == x3
        &&& (y >> 3u8) & 1u8 == x4
        &&& (y >> 2u8) & 1u8 == x5
        &&& (y >> 1u8) & 1u8 == x6
        &&& (y >> 0u8) & 1u8 == x7
    })) by (bit_vector)
        requires
            x0 <= 1 && x1 <= 1 && x2 <= 1 && x3 <= 1 && x4 <= 1 && x5 <= 1 && x6 <= 1 && x7 <= 1,
    ;
}

/// Unpacking a packed bit sequence gives it back, padded with `false` to a
/// whole number of bytes.
pub proof fn lemma_bits_round_trip(bits: Seq<bool>)
    ensures
        unpack_bits(pack_bits(bits)) == pad_bits(bits),
{
    let p = pack_bits(bits);
    let u = unpack_bits(p);
    assert forall|i: int| 0 <= i < u.len() implies u[i] == pad_bits(bits)[i] by {
        let j = i / 8;
        let k = i % 8;
        lemma_pack_byte_bits(
            bit_at(bits, 8 * j),
            bit_at(bits, 8 * j + 1),
            bit_at(bits, 8 * j + 2),
            bit_at(bits, 8 * j + 3),
            bit_at(bits, 8 * j + 4),
            bit_at(bits, 8 * j + 5),
            bit_at(bits, 8 * j + 6),
            bit_at(bits, 8 * j + 7),
        );
        assert(i == 8 * j + k);
    }
    assert(u =~= pad_bits(bits));
}

/// The frame of every encodable message decodes to that message, but for a
/// bitfield, whose bits come back padded with `false` to a whole byte.
pub proof fn lemma_decode_encode(m: Message)
    requires
        encodable(m),
    ensures
        decode(encode(m)) == (match m {
            Message::Bitfield(bits) => Some(Message::Bitfield(pad_bits(bits))),
            _ => Some(m),
        }),
{
    let e = encode(m);
    let empty = Seq::<u8>::empty();
    match m {
        Message::KeepAlive => {
            lemma_u32_round_trip(empty, 0, empty);
            assert(empty + be_u32(0) + empty =~= e);
        },
        Message::Choke | Message::Unchoke | Message::Interested | Message::NotInterested => {
            let rest = e.subrange(4, 5);
            assert(empty + be_u32(1) + rest =~= e);
            lemma_u32_round_trip(empty, 1, rest);
        },
        Message::Have(i) => {
            assert(empty + be_u32(5) + e.subrange(4, 9) =~= e);
            lemma_u32_round_trip(empty, 5, e.subrange(4, 9));
            assert(e.subrange(0, 5) + be_u32(i) + empty =~= e);
            lemma_u32_round_trip(e.subrange(0, 5), i, empty);
        },
        Message::Bitfield(bits) => {
            let n = (1 + bytes_for_bits(bits.len() as int)) as u32;
            assert(empty + be_u32(n) + e.subrange(4, e.len() as int) =~= e);
            lemma_u32_round_trip(empty, n, e.subrange(4, e.len() as int));
            assert(e.subrange(5, 4 + n) =~= pack_bits(bits));
            lemma_bits_round_trip(bits);
        },
        Message::Request(i, b, l) | Message::Cancel(i, b, l) => {
            assert(empty + be_u32(13) + e.subrange(4, 17) =~= e);
            lemma_u32_round_trip(empty, 13, e.subrange(4, 17));
            assert(e.subrange(0, 5) + be_u32(i) + e.subrange(9, 17) =~= e);
            lemma_u32_round_trip(e.subrange(0, 5), i, e.subrange(9, 17));
            assert(e.subrange(0, 9) + be_u32(b) + e.subrange(13, 17) =~= e);
            lemma_u32_round_trip(e.subrange(0, 9), b, e.subrange(13, 17));
            assert(e.subrange(0, 13) + be_u32(l) + empty =~= e);
            lemma_u32_round_trip(e.subrange(0, 13), l, empty);
        },
        Message::Piece(i, b, block) => {
            let n = (9 + block.len()) as u32;
            assert(empty + be_u32(n) + e.subrange(4, e.len() as int) =~= e);
            lemma_u32_round_trip(empty, n, e.subrange(4, e.len() as int));
            assert(e.subrange(0, 5) + be_u32(i) + e.subrange(9, e.len() as int) =~= e);
            lemma_u32_round_trip(e.subrange(0, 5), i, e.subrange(9, e.len() as int));
            assert(e.subrange(0, 9) + be_u32(b) + e.subrange(13, e.len() as int) =~= e);
            lemma_u32_round_trip(e.subrange(0, 9), b, e.subrange(13, e.len() as int));
            assert(e.subrange(13, 4 + n) =~= block);
        },
        Message::Port(p) => {
            assert(empty + be_u32(3) + e.subrange(4, 7) =~= e);
            lemma_u32_round_trip(empty, 3, e.subrange(4, 7));
            assert(e.subrange(0, 5) + be_u16(p) + empty =~= e);
            lemma_u16_round_trip(e.subrange(0, 5), p, empty);
        },
    }
}

/// A frame whose (length, id) pair belongs to no message never decodes.
pub proof fn lemma_unknown_pair_rejected(b: Seq<u8>)
    requires
        b.len() >= 5,
        u32_at(b, 0) != 0,
        !known_pair(u32_at(b, 0), b[4]),
    ensures
        decode(b) is None,
{
}

fn bit_value(bits: &Vec<bool>, s: usize, k: usize) -> (r: u8)
    requires
        s <= bits@.len(),
    ensures
        r == bit_at(bits@, s + k),
{
    if k < bits.len() - s && bits[s + k] {
        1
    } else {
        0
    }
}

fn byte_count(n: usize) -> (r: usize)
    ensures
        r == bytes_for_bits(n as int),
{
    let r = n / 8 + if n % 8 == 0 { 0 } else { 1 };
    assert(r == (n + 7) / 8) by (nonlinear_arith)
        requires
            r == n / 8 + if n % 8 == 0 { 0int } else { 1int },
    ;
    r
}

/// Packs `bits` eight to a byte, high bit first, and appends the bytes.
fn put_bits(out: &mut Vec<u8>, bits: &Vec<bool>)
    ensures
        final(out)@ == old(out)@ + pack_bits(bits@),
{
    let total = bits.len();
    let n = byte_count(total);
    let mut j: usize = 0;
    while j < n
        invariant
            total == bits@.len(),
            n == bytes_for_bits(bits@.len() as int),
            j <= n,
            out@ == old(out)@ + pack_bits(bits@).subrange(0, j as int),
        decreases n - j,
    {
        assert(8 * j <= bits@.len()) by (nonlinear_arith)
            requires
                j < n,
                n == (bits@.len() + 7) / 8,
        ;
        let s = 8 * j;
        let byte: u8 = (bit_value(bits, s, 0) << 7u8) | (bit_value(bits, s, 1) << 6u8) | (
        bit_value(bits, s, 2) << 5u8) | (bit_value(bits, s, 3) << 4u8) | (bit_value(bits, s, 4)
            << 3u8) | (bit_value(bits, s, 5) << 2u8) | (bit_value(bits, s, 6) << 1u8) | bit_value(
            bits,
            s,
            7,
        );
        out.push(byte);
        j = j + 1;
        assert(out@ =~= old(out)@ + pack_bits(bits@).subrange(0, j as int));
    }
    assert(pack_bits(bits@).subrange(0, n as int) =~= pack_bits(bits@));
}

/// Every bit of `b` from `from` up to `to`, high bit first.
fn get_bits(b: &[u8], from: usize, to: usize) -> (r: Vec<bool>)
    requires
        from <= to <= b@.len(),
    ensures
        r@ == unpack_bits(b@.subrange(from as int, to as int)),
{
    let ghost src = b@.subrange(from as int, to as int);
    let mut r: Vec<bool> = Vec::new();
    let mut i: usize = from;
    while i < to
        invariant
            from <= i <= to <= b@.len(),
            src == b@.subrange(from as int, to as int),
            r@ == unpack_bits(src).subrange(0, 8 * (i - from)),
        decreases to - i,
    {
        let byte = b[i];
        let mut k: u8 = 0;
        while k < 8
            invariant
                from <= i < to <= b@.len(),
                k <= 8,
                byte == src[i - from],
                src == b@.subrange(from as int, to as int),
                r@ == unpack_bits(src).subrange(0, 8 * (i - from) + k),
            decreases 8 - k,
        {
            r.push((byte >> (7 - k)) & 1u8 == 1u8);
            k = k + 1;
            assert forall|t: int| 0 <= t < r@.len() implies r@[t] == unpack_bits(src)[t] by {
                if t == r@.len() - 1 {
                    assert(t / 8 == i - from);
                    assert(t % 8 == k - 1);
                }
            }
            assert(r@ =~= unpack_bits(src).subrange(0, 8 * (i - from) + k));
        }
        i = i + 1;
    }
    r
}

impl MessageType {
    /// The frame of this message.
    pub fn to_bytes(&self) -> (r: Vec<u8>)
        requires
            encodable(self@),
        ensures
            r@ == encode(self@),
    {
        let mut out: Vec<u8> = Vec::new();
        match self {
            MessageType::KeepAlive => {
                put_u32(&mut out, 0);
            },
            MessageType::Choke => {
                put_u32(&mut out, 1);
                out.push(0);
            },
            MessageType::Unchoke => {
                put_u32(&mut out, 1);
                out.push(1);
            },
            MessageType::Interested => {
                put_u32(&mut out, 1);
                out.push(2);
            },
            MessageType::NotInterested => {
                put_u32(&mut out, 1);
                out.push(3);
            },
            MessageType::Have(i) => {
                put_u32(&mut out, 5);
                out.push(4);
                put_u32(&mut out, *i);
            },
            MessageType::Bitfield(bits) => {
                let n = byte_count(bits.len());
                put_u32(&mut out, (1 + n) as u32);
                out.push(5);
                put_bits(&mut out, bits);
            },
            MessageType::Request(i, b, l) => {
                put_u32(&mut out, 13);
                out.push(6);
                put_u32(&mut out, *i);
                put_u32(&mut out, *b);
                put_u32(&mut out, *l);
            },
            MessageType::Piece(i, b, block) => {
                put_u32(&mut out, (9 + block.len()) as u32);
                out.push(7);
                put_u32(&mut out, *i);
                put_u32(&mut out, *b);
                put_bytes(&mut out, block.as_slice());
            },
            MessageType::Cancel(i, b, l) => {
                put_u32(&mut out, 13);
                out.push(8);
                put_u32(&mut out, *i);
                put_u32(&mut out, *b);
                put_u32(&mut out, *l);
            },
            MessageType::Port(p) => {
                put_u32(&mut out, 3);
                out.push(9);
                put_u16(&mut out, *p);
            },
        }
        assert(out@ =~= encode(self@));
        out
    }

    /// The message at the start of `bytes`; bytes past its frame are ignored.
    pub fn from_bytes(bytes: &[u8]) -> (r: Result<MessageType, MessageError>)
        ensures
            r is Ok <==> decode(bytes@) is Some,
            r matches Ok(m) ==> decode(bytes@) == Some(m@),
            r matches Err(e) ==> (e == MessageError::Truncated <==> (bytes@.len() < 4
                || bytes@.len() < 4 + u32_at(bytes@, 0))),
    {
        if bytes.len() < 4 {
            return Err(MessageError::Truncated);
        }
        let len = get_u32(bytes, 0);
        if (bytes.len() as u64) < 4 + len as u64 {
            return Err(MessageError::Truncated);
        }
        if len == 0 {
            return Ok(MessageType::KeepAlive);
        }
        let id = bytes[4];
        let end = 4 + len as usize;
        if len == 1 && id == 0 {
            Ok(MessageType::Choke)
        } else if len == 1 && id == 1 {
            Ok(MessageType::Unchoke)
        } else if len == 1 && id == 2 {
            Ok(MessageType::Interested)
        } else if len == 1 && id == 3 {
            Ok(MessageType::NotInterested)
        } else if len == 5 && id == 4 {
            Ok(MessageType::Have(get_u32(bytes, 5)))
        } else if id == 5 {
            Ok(MessageType::Bitfield(get_bits(bytes, 5, end)))
        } else if len == 13 && id == 6 {
            Ok(MessageType::Request(get_u32(bytes, 5), get_u32(bytes, 9), get_u32(bytes, 13)))
        } else if len >= 9 && id == 7 {
            let block = crate::wire::copy_range(bytes, 13, end);
            Ok(MessageType::Piece(get_u32(bytes, 5), get_u32(bytes, 9), block))
        } else if len == 13 && id == 8 {
            Ok(MessageType::Cancel(get_u32(bytes, 5), get_u32(bytes, 9), get_u32(bytes, 13)))
        } else if len == 3 && id == 9 {
            Ok(MessageType::Port(get_u16(bytes, 5)))
        } else {
            Err(MessageError::Malformed)
        }
    }
}

} // verus!
