//! Byte-buffer codecs for IPv4, ICMP and UDP, and the Internet checksum.
//!
//! Each codec owns the bytes of one packet and reads or writes single header
//! fields in place. Nothing is validated on construction: a method states in
//! its `requires` how many bytes it needs.

use vstd::prelude::*;
use vstd::slice::slice_subrange;
use crate::checksum::{
    checksum_bytes, checksum_valid, end_around, fold_carries, internet_checksum,
    lemma_checksum_round_trip, lemma_end_around_add, lemma_two_folds_suffice,
    lemma_word_sum_bound, lemma_word_sum_concat, lemma_word_sum_prefix, lemma_word_sum_step,
    word_sum,
};
use crate::wire::{be16, high_byte, low_byte, read_u16_be, with_be16, write_u16_be};

verus! {

/// ICMP type of an echo request.
pub const ICMP_KIND_ECHO: u8 = 0x08;

/// ICMP type of an echo reply.
pub const ICMP_KIND_ECHO_REPLY: u8 = 0x00;

/// ICMP type of a destination-unreachable message.
pub const ICMP_KIND_DESTINATION_UNREACHABLE: u8 = 0x03;

/// The protocol carried by an IPv4 packet. A number without a name of its own
/// is kept as it is.
#[derive(Clone, Copy, Debug, PartialEq, Eq, Structural)]
pub enum Protocol {
    ICMP,
    TCP,
    UDP,
    Unknown(u8),
}

impl Protocol {
    /// The protocol number on the wire.
    pub open spec fn spec_value(self) -> u8 {
        match self {
            Protocol::ICMP => 0x01,
            Protocol::TCP => 0x06,
            Protocol::UDP => 0x11,
            Protocol::Unknown(v) => v,
        }
    }

    /// The protocol that the number `v` stands for.
    pub open spec fn spec_from(v: u8) -> Protocol {
        if v == 0x01 {
            Protocol::ICMP
        } else if v == 0x06 {
            Protocol::TCP
        } else if v == 0x11 {
            Protocol::UDP
        } else {
            Protocol::Unknown(v)
        }
    }

    /// The protocol number on the wire.
    pub fn value(&self) -> (v: u8)
        ensures
            v == self.spec_value(),
    {
        match *self {
            Self::ICMP => 0x01,
            Self::TCP => 0x06,
            Self::UDP => 0x11,
            Self::Unknown(v) => v,
        }
    }

    /// The protocol that the number `v` stands for.
    pub fn from(v: u8) -> (protocol: Protocol)
        ensures
            protocol == Protocol::spec_from(v),
            protocol.spec_value() == v,
    {
        match v {
            0x01 => Self::ICMP,
            0x06 => Self::TCP,
            0x11 => Self::UDP,
            v => Self::Unknown(v),
        }
    }
}

/// Every protocol number, named or not, comes back unchanged from
/// `Protocol::from` followed by `Protocol::value`.
pub proof fn lemma_protocol_round_trip(v: u8)
    ensures
        Protocol::spec_from(v).spec_value() == v,
{
}

/// The sum of the big-endian 16-bit words of `p`; an odd trailing byte counts
/// as the high byte of a word padded with zero.
pub fn sum(p: &[u8]) -> (s: u32)
    requires
        word_sum(p@) <= u32::MAX,
    ensures
        s == word_sum(p@),
{
    let mut s: u32 = 0;
    let n: usize = p.len();
    let mut i: usize = 0;
    while i < n
        invariant
            n == p@.len(),
            i <= n,
            i % 2 == 0 || i == n,
            s == word_sum(p@.take(i as int)),
            word_sum(p@) <= u32::MAX,
        decreases n - i,
    {
        let hi: u8 = p[i];
        let shifted: u32 = (hi as u32) << 8;
        proof {
            assert(shifted == 256 * (hi as nat)) by (bit_vector)
                requires
                    shifted == (hi as u32) << 8,
            ;
            lemma_word_sum_step(p@, i as int);
            lemma_word_sum_prefix(p@, i + 1);
        }
        s += shifted;
        if i + 1 < n {
            proof {
                lemma_word_sum_step(p@, i + 1);
                lemma_word_sum_prefix(p@, i + 2);
            }
            s += p[i + 1] as u32;
            i = i + 2;
        } else {
            i = i + 1;
        }
    }
    proof {
        assert(p@.take(n as int) =~= p@);
    }
    s
}

/// The number of bytes whose words are added before the carries are
/// folded: so few that their sum, and a folded sum on top of it, fit 32 bits.
pub const FOLD_EVERY: usize = 0x1_0000;

/// `t` with its carries folded twice, after which none is left.
fn fold(t: u32) -> (e: u32)
    ensures
        e == end_around(t as nat),
        e <= 0xffff,
{
    let high: u32 = t >> 16;
    let low: u32 = t & 0xffff;
    proof {
        assert(high == t / 0x1_0000 && low == t % 0x1_0000) by (bit_vector)
            requires
                high == t >> 16,
                low == t & 0xffff,
        ;
    }
    let a: u32 = high + low;
    let carry: u32 = a >> 16;
    proof {
        assert(carry == a / 0x1_0000) by (bit_vector)
            requires
                carry == a >> 16,
        ;
    }
    let b: u32 = a + carry;
    let e: u32 = b & 0xffff;
    proof {
        lemma_two_folds_suffice(t as nat);
        assert(a == fold_carries(t as nat));
        assert(e == a / 0x1_0000 + a % 0x1_0000) by (bit_vector)
            requires
                a <= 0x1_fffe,
                b == a + a / 0x1_0000,
                e == b & 0xffff,
                a / 0x1_0000 + a % 0x1_0000 <= 0xffff,
        ;
    }
    e
}

/// The Internet checksum of `p`, started from the partial sum `s`, as the two
/// bytes that go into a packet, high byte first. The words are added and
/// the carries folded twice; a span of more than `FOLD_EVERY` bytes is
/// taken in stretches of that length, with a fold after each, so that the
/// sum never leaves 32 bits.
pub fn checksum(s: u32, p: &[u8]) -> (r: [u8; 2])
    ensures
        r@ == checksum_bytes(s as nat, p@),
{
    let n: usize = p.len();
    let mut acc: u32 = fold(s);
    let mut i: usize = 0;
    proof {
        assert(p@.take(0) =~= Seq::<u8>::empty());
    }
    while i < n
        invariant
            n == p@.len(),
            i <= n,
            i % 2 == 0 || i == n,
            acc <= 0xffff,
            acc == end_around(s as nat + word_sum(p@.take(i as int))),
        decreases n - i,
    {
        let end: usize = if n - i > FOLD_EVERY {
            i + FOLD_EVERY
        } else {
            n
        };
        let ghost done = p@.take(i as int);
        let ghost stretch = p@.subrange(i as int, end as int);
        proof {
            lemma_word_sum_bound(stretch);
            assert(p@.take(end as int) =~= done + stretch);
            lemma_word_sum_concat(done, stretch);
            lemma_end_around_add(s as nat + word_sum(done), word_sum(stretch));
        }
        let part: u32 = sum(slice_subrange(p, i, end));
        acc = fold(acc + part);
        i = end;
    }
    proof {
        assert(p@.take(n as int) =~= p@);
    }
    let flipped: u32 = !acc;
    let hi: u8 = #[verifier::truncate] ((flipped >> 8) as u8);
    let lo: u8 = #[verifier::truncate] (flipped as u8);
    proof {
        let c: u32 = (0xffff - acc) as u32;
        assert(hi == (c / 256) % 256 && lo == c % 256) by (bit_vector)
            requires
                acc <= 0xffff,
                flipped == !acc,
                hi == (flipped >> 8) as u8,
                lo == flipped as u8,
                c == 0xffff - acc,
        ;
        assert(c == internet_checksum(s as nat, p@));
        assert(seq![hi, lo] =~= checksum_bytes(s as nat, p@));
    }
    [hi, lo]
}

/// The header length that the first byte of `p` announces: its low four bits,
/// counted in 32-bit words, as a number of bytes.
pub open spec fn header_len(p: Seq<u8>) -> int {
    (p[0] % 16) * 4
}

/// Whether `p` can be taken apart as an IPv4 packet: the header is complete
/// and lies within the buffer, and the buffer is no longer than an IPv4
/// packet can be.
pub open spec fn well_formed_packet(p: Seq<u8>) -> bool {
    &&& p.len() >= 20
    &&& 20 <= header_len(p) <= p.len()
    &&& p.len() <= 0xffff
}

/// `n` zero bytes.
pub open spec fn zeros(n: int) -> Seq<u8> {
    Seq::new(
        if n > 0 {
            n as nat
        } else {
            0
        },
        |i: int| 0u8,
    )
}

/// `p` with everything from `start` on replaced by `payload`. Where `payload`
/// is shorter than what it replaces, the bytes behind it are zero, so that
/// the buffer keeps its length and nothing of the old payload is left.
pub open spec fn with_payload(p: Seq<u8>, start: int, payload: Seq<u8>) -> Seq<u8> {
    p.take(start) + payload + zeros(p.len() - start - payload.len())
}

/// What replacing the payload leaves: everything before `start` is kept,
/// and behind it stands `payload`, followed by zeros where it is shorter
/// than what it replaces. A payload that is at least as long as what it
/// replaces makes the buffer exactly as long as the kept part and the
/// payload, and is all that stands behind the kept part.
pub proof fn lemma_with_payload(p: Seq<u8>, start: int, payload: Seq<u8>)
    requires
        0 <= start <= p.len(),
    ensures
        with_payload(p, start, payload).take(start) == p.take(start),
        with_payload(p, start, payload).skip(start) == payload + zeros(
            p.len() - start - payload.len(),
        ),
        with_payload(p, start, payload).len() == if payload.len() >= p.len() - start {
            start + payload.len()
        } else {
            p.len() as int
        },
        payload.len() >= p.len() - start ==> with_payload(p, start, payload).skip(start)
            == payload,
        start > 0 ==> with_payload(p, start, payload)[0] == p[0],
{
    let r = with_payload(p, start, payload);
    assert(r.take(start) =~= p.take(start));
    assert(r.skip(start) =~= payload + zeros(p.len() - start - payload.len()));
    if payload.len() >= p.len() - start {
        assert(r.skip(start) =~= payload);
    }
}

/// Replaces the bytes of `buf` from `start` on by `payload`.
fn overwrite_tail(buf: &mut Vec<u8>, start: usize, payload: &[u8])
    requires
        start <= old(buf)@.len(),
    ensures
        final(buf)@ == with_payload(old(buf)@, start as int, payload@),
{
    let plen: usize = payload.len();
    let len: usize = buf.len();
    let room: usize = len - start;
    let common: usize = if plen < room {
        plen
    } else {
        room
    };
    let mut i: usize = 0;
    while i < common
        invariant
            plen == payload@.len(),
            len == old(buf)@.len(),
            start + room == len,
            common <= plen,
            common <= room,
            buf@.len() == len,
            i <= common,
            forall|k: int| 0 <= k < start ==> buf@[k] == old(buf)@[k],
            forall|k: int| start <= k < start + i ==> buf@[k] == payload@[k - start],
        decreases common - i,
    {
        buf[start + i] = payload[i];
        i = i + 1;
    }
    if plen > room {
        while i < plen
            invariant
                plen == payload@.len(),
                len == old(buf)@.len(),
                start + room == len,
                room <= i <= plen,
                buf@.len() == start + i,
                forall|k: int| 0 <= k < start ==> buf@[k] == old(buf)@[k],
                forall|k: int| start <= k < start + i ==> buf@[k] == payload@[k - start],
            decreases plen - i,
        {
            buf.push(payload[i]);
            i = i + 1;
        }
    } else {
        while i < room
            invariant
                plen == payload@.len(),
                len == old(buf)@.len(),
                start + room == len,
                plen <= i <= room,
                buf@.len() == len,
                forall|k: int| 0 <= k < start ==> buf@[k] == old(buf)@[k],
                forall|k: int| start <= k < start + plen ==> buf@[k] == payload@[k - start],
                forall|k: int| start + plen <= k < start + i ==> buf@[k] == 0,
            decreases room - i,
        {
            buf[start + i] = 0;
            i = i + 1;
        }
    }
    proof {
        assert(buf@ =~= with_payload(old(buf)@, start as int, payload@));
    }
}

/// An IPv4 packet: the header and what it carries, in one buffer.
pub struct Ipv4(Vec<u8>);

impl View for Ipv4 {
    type V = Seq<u8>;

    /// The bytes of the packet.
    closed spec fn view(&self) -> Seq<u8> {
        self.0@
    }
}

impl Ipv4 {
    /// The header is complete and lies within the buffer, and the buffer is
    /// no longer than an IPv4 packet can be.
    pub open spec fn well_formed(&self) -> bool {
        well_formed_packet(self@)
    }

    /// Takes `data` as the bytes of a packet. Nothing is checked.
    pub fn new(data: Vec<u8>) -> (packet: Self)
        ensures
            packet@ == data@,
    {
        Ipv4(data)
    }

    /// Whether the packet is well formed.
    pub fn is_well_formed(&self) -> (ok: bool)
        ensures
            ok == self.well_formed(),
    {
        let n: usize = self.0.len();
        if n < 20 || n > 0xffff {
            return false;
        }
        let h: usize = self.head_len() as usize;
        20 <= h && h <= n
    }

    /// The version field: the high four bits of the first byte.
    pub fn version(&self) -> (v: u8)
        requires
            self@.len() > 0,
        ensures
            v == self@[0] / 16,
    {
        let b: u8 = self.0[0];
        proof {
            assert(b >> 4 == b / 16) by (bit_vector);
        }
        b >> 4
    }

    /// The time-to-live field.
    pub fn ttl(&self) -> (ttl: u8)
        requires
            self@.len() > 8,
        ensures
            ttl == self@[8],
    {
        self.0[8]
    }

    /// Sets the time-to-live field. The header checksum is left as it is.
    pub fn set_ttl(&mut self, ttl: u8)
        requires
            old(self)@.len() > 8,
        ensures
            final(self)@ == old(self)@.update(8, ttl),
    {
        self.0[8] = ttl;
    }

    /// The protocol field.
    pub fn protocol(&self) -> (protocol: Protocol)
        requires
            self@.len() > 9,
        ensures
            protocol == Protocol::spec_from(self@[9]),
    {
        Protocol::from(self.0[9])
    }

    /// Sets the protocol field. The header checksum is left as it is.
    pub fn set_protocol(&mut self, protocol: Protocol)
        requires
            old(self)@.len() > 9,
        ensures
            final(self)@ == old(self)@.update(9, protocol.spec_value()),
    {
        self.0[9] = protocol.value();
    }

    /// The header length in bytes.
    pub fn head_len(&self) -> (len: u16)
        requires
            self@.len() > 0,
        ensures
            len == header_len(self@),
            len <= 60,
    {
        let b: u8 = self.0[0];
        let words: u16 = (b & 0x0f) as u16;
        proof {
            assert(words == b % 16 && words << 2 == words * 4) by (bit_vector)
                requires
                    words == (b & 0x0f) as u16,
            ;
        }
        words << 2
    }

    /// The total-length field.
    pub fn total_len(&self) -> (len: u16)
        requires
            self@.len() >= 4,
        ensures
            len == be16(self@[2], self@[3]),
    {
        read_u16_be(self.0.as_slice(), 2)
    }

    /// Writes the length of the buffer into the total-length field. A length
    /// above 65535 is written modulo 65536.
    pub fn set_total_length(&mut self)
        requires
            old(self)@.len() >= 4,
        ensures
            final(self)@ == with_be16(old(self)@, 2, (old(self)@.len() % 0x1_0000) as int),
    {
        let n: usize = self.0.len();
        let field: u16 = (n % 0x1_0000) as u16;
        write_u16_be(&mut self.0, 2, field);
    }

    /// The source address.
    pub fn src(&self) -> (addr: [u8; 4])
        requires
            self@.len() >= 16,
        ensures
            addr@ == self@.subrange(12, 16),
    {
        let addr: [u8; 4] = [self.0[12], self.0[13], self.0[14], self.0[15]];
        proof {
            assert(addr@ =~= self@.subrange(12, 16));
        }
        addr
    }

    /// Sets the source address. The header checksum is left as it is.
    pub fn set_src(&mut self, addr: [u8; 4])
        requires
            old(self)@.len() >= 16,
        ensures
            final(self)@ == old(self)@.take(12) + addr@ + old(self)@.skip(16),
    {
        self.0[12] = addr[0];
        self.0[13] = addr[1];
        self.0[14] = addr[2];
        self.0[15] = addr[3];
        proof {
            assert(self@ =~= old(self)@.take(12) + addr@ + old(self)@.skip(16));
        }
    }

    /// The destination address.
    pub fn dst(&self) -> (addr: [u8; 4])
        requires
            self@.len() >= 20,
        ensures
            addr@ == self@.subrange(16, 20),
    {
        let addr: [u8; 4] = [self.0[16], self.0[17], self.0[18], self.0[19]];
        proof {
            assert(addr@ =~= self@.subrange(16, 20));
        }
        addr
    }

    /// Sets the destination address. The header checksum is left as it is.
    pub fn set_dst(&mut self, addr: [u8; 4])
        requires
            old(self)@.len() >= 20,
        ensures
            final(self)@ == old(self)@.take(16) + addr@ + old(self)@.skip(20),
    {
        self.0[16] = addr[0];
        self.0[17] = addr[1];
        self.0[18] = addr[2];
        self.0[19] = addr[3];
        proof {
            assert(self@ =~= old(self)@.take(16) + addr@ + old(self)@.skip(20));
        }
    }

    /// What the packet carries: the bytes behind the header.
    pub fn payload(&self) -> (bytes: &[u8])
        requires
            self@.len() > 0,
            header_len(self@) <= self@.len(),
        ensures
            bytes@ == self@.skip(header_len(self@)),
    {
        let a: usize = self.head_len() as usize;
        slice_subrange(self.0.as_slice(), a, self.0.len())
    }

    /// Replaces what the packet carries by `payload`. The header is kept. A
    /// longer payload makes the buffer grow to hold exactly header and
    /// payload; behind a shorter one the rest of the buffer is zeroed.
    /// Where the packet has a header at all, its header length stays what
    /// it was, and what the packet then carries is the payload, with the
    /// zeros behind it where it was the shorter one.
    pub fn set_payload(&mut self, payload: &[u8])
        requires
            old(self)@.len() > 0,
            header_len(old(self)@) <= old(self)@.len(),
        ensures
            final(self)@ == with_payload(old(self)@, header_len(old(self)@), payload@),
            final(self)@.take(header_len(old(self)@)) == old(self)@.take(header_len(old(self)@)),
            final(self)@.len() == if header_len(old(self)@) + payload@.len() > old(self)@.len() {
                header_len(old(self)@) + payload@.len()
            } else {
                old(self)@.len() as int
            },
            header_len(old(self)@) > 0 ==> header_len(final(self)@) == header_len(old(self)@),
            header_len(old(self)@) > 0 ==> final(self)@.skip(header_len(final(self)@))
                == payload@ + zeros(old(self)@.len() - header_len(old(self)@) - payload@.len()),
            header_len(old(self)@) > 0 && payload@.len() >= old(self)@.len() - header_len(
                old(self)@,
            ) ==> final(self)@.skip(header_len(final(self)@)) == payload@,
    {
        let a: usize = self.head_len() as usize;
        overwrite_tail(&mut self.0, a, payload);
        proof {
            lemma_with_payload(old(self)@, header_len(old(self)@), payload@);
        }
    }

    /// The bytes of the packet, for writing in place.
    pub fn get_mut(&mut self) -> (bytes: &mut [u8])
        ensures
            bytes@ == old(self)@,
            final(self)@ == final(bytes)@,
    {
        self.0.as_mut_slice()
    }

    /// Recomputes the header checksum: the field is zeroed, the checksum is
    /// taken over the header, and the result is written into the field.
    /// Afterwards the header verifies.
    pub fn update_checksum(&mut self)
        requires
            old(self)@.len() >= 12,
            header_len(old(self)@) <= old(self)@.len(),
        ensures
            final(self)@ == with_be16(
                old(self)@,
                10,
                internet_checksum(0, with_be16(old(self)@, 10, 0).take(header_len(old(self)@))),
            ),
            header_len(old(self)@) >= 12 ==> checksum_valid(
                0,
                final(self)@.take(header_len(final(self)@)),
            ),
    {
        self.0[10] = 0;
        self.0[11] = 0;
        let h: usize = self.head_len() as usize;
        let ghost zeroed = self@;
        let ghost span = zeroed.take(h as int);
        proof {
            assert(zeroed =~= with_be16(old(self)@, 10, 0));
        }
        let r: [u8; 2] = checksum(0, slice_subrange(self.0.as_slice(), 0, h));
        self.0[10] = r[0];
        self.0[11] = r[1];
        proof {
            let c = internet_checksum(0, span);
            assert(r@[0] == high_byte(c) && r@[1] == low_byte(c));
            assert(self@ =~= with_be16(old(self)@, 10, c));
            if h >= 12 {
                let head = old(self)@.take(h as int);
                assert(span =~= with_be16(head, 10, 0));
                assert(self@.take(h as int) =~= with_be16(head, 10, c));
                lemma_checksum_round_trip(0, head, 10);
            }
        }
    }

    /// The bytes of the packet.
    pub fn packet(&self) -> (bytes: &[u8])
        ensures
            bytes@ == self@,
    {
        self.0.as_slice()
    }
}

/// An ICMP message: four bytes of type, code and checksum, four bytes that
/// depend on the type, and the payload behind them.
pub struct ICMP(Vec<u8>);

impl View for ICMP {
    type V = Seq<u8>;

    /// The bytes of the message.
    closed spec fn view(&self) -> Seq<u8> {
        self.0@
    }
}

impl ICMP {
    /// Takes `data` as the bytes of a message. Nothing is checked.
    pub fn new(data: Vec<u8>) -> (message: Self)
        ensures
            message@ == data@,
    {
        ICMP(data)
    }

    /// The type field.
    pub fn kind(&self) -> (kind: u8)
        requires
            self@.len() > 0,
        ensures
            kind == self@[0],
    {
        self.0[0]
    }

    /// Sets the type field. The checksum is left as it is.
    pub fn set_kind(&mut self, kind: u8)
        requires
            old(self)@.len() > 0,
        ensures
            final(self)@ == old(self)@.update(0, kind),
    {
        self.0[0] = kind;
    }

    /// The code field.
    pub fn code(&self) -> (code: u8)
        requires
            self@.len() > 1,
        ensures
            code == self@[1],
    {
        self.0[1]
    }

    /// Sets the code field. The checksum is left as it is.
    pub fn set_code(&mut self, code: u8)
        requires
            old(self)@.len() > 1,
        ensures
            final(self)@ == old(self)@.update(1, code),
    {
        self.0[1] = code;
    }

    /// What the message carries: the bytes behind its first eight.
    pub fn payload(&self) -> (bytes: &[u8])
        requires
            self@.len() >= 8,
        ensures
            bytes@ == self@.skip(8),
    {
        slice_subrange(self.0.as_slice(), 8, self.0.len())
    }

    /// Replaces what the message carries by `payload`. The first eight bytes
    /// are kept. A longer payload makes the buffer grow to hold exactly
    /// those and the payload; behind a shorter one the rest of the buffer is
    /// zeroed.
    pub fn set_payload(&mut self, payload: &[u8])
        requires
            old(self)@.len() >= 8,
        ensures
            final(self)@ == with_payload(old(self)@, 8, payload@),
            final(self)@.take(8) == old(self)@.take(8),
            final(self)@.len() == if 8 + payload@.len() > old(self)@.len() {
                8 + payload@.len()
            } else {
                old(self)@.len()
            },
            final(self)@.skip(8) == payload@ + zeros(old(self)@.len() - 8 - payload@.len()),
            payload@.len() >= old(self)@.len() - 8 ==> final(self)@.skip(8) == payload@,
    {
        overwrite_tail(&mut self.0, 8, payload);
        proof {
            lemma_with_payload(old(self)@, 8, payload@);
        }
    }

    /// Recomputes the checksum: the field is zeroed, the checksum is taken
    /// over the whole message, and the result is written into the field.
    /// Afterwards the message verifies.
    pub fn update_checksum(&mut self)
        requires
            old(self)@.len() >= 4,
        ensures
            final(self)@ == with_be16(
                old(self)@,
                2,
                internet_checksum(0, with_be16(old(self)@, 2, 0)),
            ),
            checksum_valid(0, final(self)@),
    {
        self.0[2] = 0;
        self.0[3] = 0;
        proof {
            assert(self@ =~= with_be16(old(self)@, 2, 0));
        }
        let r: [u8; 2] = checksum(0, self.0.as_slice());
        let ghost c = internet_checksum(0, self@);
        self.0[2] = r[0];
        self.0[3] = r[1];
        proof {
            assert(r@[0] == high_byte(c) && r@[1] == low_byte(c));
            assert(self@ =~= with_be16(old(self)@, 2, c));
            lemma_checksum_round_trip(0, old(self)@, 2);
        }
    }

    /// The bytes of the message.
    pub fn packet(&self) -> (bytes: &[u8])
        ensures
            bytes@ == self@,
    {
        self.0.as_slice()
    }
}

/// A TCP segment. It is carried along and never looked into.
pub struct TCP(Vec<u8>);

impl View for TCP {
    type V = Seq<u8>;

    /// The bytes of the segment.
    closed spec fn view(&self) -> Seq<u8> {
        self.0@
    }
}

impl TCP {
    /// Takes `data` as the bytes of a segment. Nothing is checked.
    pub fn new(data: Vec<u8>) -> (segment: Self)
        ensures
            segment@ == data@,
    {
        TCP(data)
    }
}

/// A UDP datagram: source port, destination port, length and checksum, two
/// bytes each, and the payload behind them.
pub struct UDP(Vec<u8>);

impl View for UDP {
    type V = Seq<u8>;

    /// The bytes of the datagram.
    closed spec fn view(&self) -> Seq<u8> {
        self.0@
    }
}

impl UDP {
    /// Takes `data` as the bytes of a datagram. Nothing is checked.
    pub fn new(data: Vec<u8>) -> (datagram: Self)
        ensures
            datagram@ == data@,
    {
        UDP(data)
    }

    /// The source port.
    pub fn src(&self) -> (port: u16)
        requires
            self@.len() >= 2,
        ensures
            port == be16(self@[0], self@[1]),
    {
        read_u16_be(self.0.as_slice(), 0)
    }

    /// Sets the source port. A buffer of fewer than two bytes grows to two.
    /// The checksum is left as it is.
    pub fn set_src(&mut self, port: u16)
        ensures
            final(self)@ == seq![high_byte(port as int), low_byte(port as int)] + (if old(self)@.len()
                > 2 {
                old(self)@.skip(2)
            } else {
                Seq::<u8>::empty()
            }),
    {
        while self.0.len() < 2
            invariant
                old(self)@.len() < 2 ==> self.0@.len() <= 2,
                old(self)@.len() >= 2 ==> self.0@ == old(self)@,
            decreases 2 - self.0@.len(),
        {
            self.0.push(0);
        }
        write_u16_be(&mut self.0, 0, port);
        proof {
            assert(self@ =~= seq![high_byte(port as int), low_byte(port as int)] + (if old(
                self,
            )@.len() > 2 {
                old(self)@.skip(2)
            } else {
                Seq::<u8>::empty()
            }));
        }
    }

    /// The destination port.
    pub fn dst(&self) -> (port: u16)
        requires
            self@.len() >= 4,
        ensures
            port == be16(self@[2], self@[3]),
    {
        read_u16_be(self.0.as_slice(), 2)
    }

    /// Sets the destination port. The checksum is left as it is.
    pub fn set_dst(&mut self, port: u16)
        requires
            old(self)@.len() >= 4,
        ensures
            final(self)@ == with_be16(old(self)@, 2, port as int),
    {
        write_u16_be(&mut self.0, 2, port);
    }

    /// Recomputes the checksum: the field is zeroed, the checksum is taken
    /// over the whole datagram, started from the partial sum `psum` of the
    /// pseudo-header, and the result is written into the field. Afterwards
    /// the datagram verifies against the same partial sum.
    pub fn update_checksum(&mut self, psum: u32)
        requires
            old(self)@.len() >= 8,
        ensures
            final(self)@ == with_be16(
                old(self)@,
                6,
                internet_checksum(psum as nat, with_be16(old(self)@, 6, 0)),
            ),
            checksum_valid(psum as nat, final(self)@),
    {
        self.0[6] = 0;
        self.0[7] = 0;
        proof {
            assert(self@ =~= with_be16(old(self)@, 6, 0));
        }
        let r: [u8; 2] = checksum(psum, self.0.as_slice());
        let ghost c = internet_checksum(psum as nat, self@);
        self.0[6] = r[0];
        self.0[7] = r[1];
        proof {
            assert(r@[0] == high_byte(c) && r@[1] == low_byte(c));
            assert(self@ =~= with_be16(old(self)@, 6, c));
            lemma_checksum_round_trip(psum as nat, old(self)@, 6);
        }
    }

    /// The bytes of the datagram.
    pub fn packet(&self) -> (bytes: &[u8])
        ensures
            bytes@ == self@,
    {
        self.0.as_slice()
    }
}

} // verus!
