//! What a gateway answers: the replies to an ICMP message and to a UDP
//! traceroute probe, byte for byte, and the rule that picks between them.

use vstd::prelude::*;
use crate::checksum::{
    checksum_valid, internet_checksum, lemma_checksum_round_trip, lemma_word_sum_update, word_sum,
};
use crate::ipv4::{
    header_len, well_formed_packet, Protocol, ICMP_KIND_DESTINATION_UNREACHABLE, ICMP_KIND_ECHO,
    ICMP_KIND_ECHO_REPLY,
};
use crate::subnet::VirtualSubnet;
use crate::wire::{be16, lemma_be16_round_trip, with_be16};

verus! {

/// A UDP datagram is taken for a traceroute probe only with a time-to-live
/// below this.
pub const PROBE_TTL_LIMIT: u8 = 10;

/// A UDP datagram is taken for a traceroute probe only with a destination
/// port of at least this.
pub const PROBE_PORT_FLOOR: u16 = 33000;

/// The time-to-live of the packets that a gateway makes up.
pub const REPLY_TTL: u8 = 64;

/// ICMP code of a destination-unreachable message that says the port is
/// unreachable.
pub const ICMP_CODE_PORT_UNREACHABLE: u8 = 0x03;

/// The source address of the IPv4 packet `p`.
pub open spec fn source(p: Seq<u8>) -> Seq<u8> {
    p.subrange(12, 16)
}

/// The destination address of the IPv4 packet `p`.
pub open spec fn destination(p: Seq<u8>) -> Seq<u8> {
    p.subrange(16, 20)
}

/// The IPv4 packet `p` with source and destination address exchanged.
pub open spec fn swap_addresses(p: Seq<u8>) -> Seq<u8> {
    p.take(12) + destination(p) + source(p) + p.skip(20)
}

/// The ICMP message `m` with its checksum field recomputed.
pub open spec fn with_message_checksum(m: Seq<u8>) -> Seq<u8> {
    with_be16(m, 2, internet_checksum(0, with_be16(m, 2, 0)))
}

/// The IPv4 packet `p` with its header checksum recomputed.
pub open spec fn with_header_checksum(p: Seq<u8>) -> Seq<u8> {
    with_be16(p, 10, internet_checksum(0, with_be16(p, 10, 0).take(header_len(p))))
}

/// What a gateway sends back for the IPv4 packet `p` that carries an ICMP
/// message. An echo request becomes an echo reply with a fresh ICMP
/// checksum; any other message is left as it is. In both cases source and
/// destination address change places.
pub open spec fn echo_reply(p: Seq<u8>) -> Seq<u8> {
    let h = header_len(p);
    let message = p.skip(h);
    if message[0] == ICMP_KIND_ECHO {
        swap_addresses(p.take(h) + with_message_checksum(message.update(0, ICMP_KIND_ECHO_REPLY)))
    } else {
        swap_addresses(p)
    }
}

/// The ICMP message that reports the destination port of the packet `p` as
/// unreachable. It carries all of `p`.
pub open spec fn port_unreachable(p: Seq<u8>) -> Seq<u8> {
    with_message_checksum(
        seq![
            ICMP_KIND_DESTINATION_UNREACHABLE,
            ICMP_CODE_PORT_UNREACHABLE,
            0u8,
            0u8,
            0u8,
            0u8,
            0u8,
            0u8,
        ] + p,
    )
}

/// The IPv4 packet that a gateway makes up in answer to the traceroute
/// probe `p`: the header of `p` with the time-to-live reset, the protocol
/// set to ICMP, the total length of the new packet, source and destination
/// exchanged and a fresh header checksum, followed by the ICMP message.
pub open spec fn unreachable_reply(p: Seq<u8>) -> Seq<u8> {
    let h = header_len(p);
    let message = port_unreachable(p);
    let whole = p.take(h) + message;
    with_header_checksum(
        swap_addresses(
            with_be16(
                whole.update(8, REPLY_TTL).update(9, Protocol::ICMP.spec_value()),
                2,
                (whole.len() % 0x1_0000) as int,
            ),
        ),
    )
}

/// Whether the well-formed IPv4 packet `p`, which carries a UDP datagram, is
/// a traceroute probe into the network `net`.
pub open spec fn is_probe(net: VirtualSubnet, p: Seq<u8>) -> bool {
    let h = header_len(p);
    &&& p[8] < PROBE_TTL_LIMIT
    &&& be16(p[h + 2], p[h + 3]) >= PROBE_PORT_FLOOR
    &&& net.spec_contains(destination(p))
}

/// What a gateway does with one packet, as a mathematical value.
pub enum Verdict {
    Ignore,
    Send(Seq<u8>),
    Malformed,
}

/// What the gateway of the network `net` does with the bytes `p` that it has
/// read from its interface. An ICMP message is answered, a UDP traceroute
/// probe into `net` is reported as unreachable, and every other packet that
/// can be taken apart is passed over in silence.
pub open spec fn verdict(net: VirtualSubnet, p: Seq<u8>) -> Verdict {
    if !well_formed_packet(p) {
        Verdict::Malformed
    } else {
        match Protocol::spec_from(p[9]) {
            Protocol::ICMP => if header_len(p) + 4 <= p.len() {
                Verdict::Send(echo_reply(p))
            } else {
                Verdict::Malformed
            },
            Protocol::UDP => if header_len(p) + 8 <= p.len() {
                if is_probe(net, p) {
                    Verdict::Send(unreachable_reply(p))
                } else {
                    Verdict::Ignore
                }
            } else {
                Verdict::Malformed
            },
            _ => Verdict::Ignore,
        }
    }
}

/// The sum of a span does not change when two of its 16-bit words, both at
/// even offsets, change places.
proof fn lemma_word_sum_swap_words(p: Seq<u8>, a: int, b: int)
    requires
        0 <= a,
        a + 1 < b,
        b + 1 < p.len(),
        a % 2 == 0,
        b % 2 == 0,
    ensures
        word_sum(
            p.update(a, p[b]).update(a + 1, p[b + 1]).update(b, p[a]).update(b + 1, p[a + 1]),
        ) == word_sum(p),
{
    let p1 = p.update(a, p[b]);
    let p2 = p1.update(a + 1, p[b + 1]);
    let p3 = p2.update(b, p[a]);
    lemma_word_sum_update(p, a, p[b]);
    lemma_word_sum_update(p1, a + 1, p[b + 1]);
    lemma_word_sum_update(p2, b, p[a]);
    lemma_word_sum_update(p3, b + 1, p[a + 1]);
}

/// Exchanging source and destination address leaves the header checksum as
/// good as it was: a header that verified still does.
pub proof fn lemma_swap_keeps_header_checksum(p: Seq<u8>)
    requires
        20 <= header_len(p) <= p.len(),
    ensures
        header_len(swap_addresses(p)) == header_len(p),
        word_sum(swap_addresses(p).take(header_len(p))) == word_sum(p.take(header_len(p))),
        checksum_valid(0, p.take(header_len(p))) ==> checksum_valid(
            0,
            swap_addresses(p).take(header_len(p)),
        ),
{
    let h = header_len(p);
    let q = p.take(h);
    let q1 = q.update(12, q[16]).update(13, q[17]).update(16, q[12]).update(17, q[13]);
    let q2 = q1.update(14, q1[18]).update(15, q1[19]).update(18, q1[14]).update(19, q1[15]);
    lemma_word_sum_swap_words(q, 12, 16);
    lemma_word_sum_swap_words(q1, 14, 18);
    assert(swap_addresses(p).take(h) =~= q2);
}

/// When a UDP datagram is answered. For a well-formed packet `p` that
/// carries a UDP datagram with its whole header: where the time-to-live is
/// below ten, the destination port is at least 33000 and the destination
/// lies in the network of the gateway, exactly the packet
/// `unreachable_reply(p)` is sent; where the time-to-live is ten or more,
/// or the destination port is below 33000, or the destination lies outside
/// the network, nothing is sent.
pub proof fn lemma_probe_interception(net: VirtualSubnet, p: Seq<u8>)
    requires
        well_formed_packet(p),
        Protocol::spec_from(p[9]) == Protocol::UDP,
        header_len(p) + 8 <= p.len(),
    ensures
        p[8] < 10 && be16(p[header_len(p) + 2], p[header_len(p) + 3]) >= 33000
            && net.spec_contains(destination(p)) ==> verdict(net, p) == Verdict::Send(
            unreachable_reply(p),
        ),
        p[8] >= 10 || be16(p[header_len(p) + 2], p[header_len(p) + 3]) < 33000
            || !net.spec_contains(destination(p)) ==> verdict(net, p) == Verdict::Ignore,
{
}

/// What is neither an ICMP message nor a UDP datagram is never answered.
pub proof fn lemma_other_protocols_are_ignored(net: VirtualSubnet, p: Seq<u8>)
    requires
        well_formed_packet(p),
        p[9] != Protocol::ICMP.spec_value(),
        p[9] != Protocol::UDP.spec_value(),
    ensures
        verdict(net, p) == Verdict::Ignore,
{
}

/// Exchanging the addresses keeps the length and every byte outside the two
/// address fields, and puts each address into the other's field.
pub proof fn lemma_swap_addresses(p: Seq<u8>)
    requires
        p.len() >= 20,
    ensures
        swap_addresses(p).len() == p.len(),
        source(swap_addresses(p)) == destination(p),
        destination(swap_addresses(p)) == source(p),
        swap_addresses(p).take(12) == p.take(12),
        swap_addresses(p).skip(20) == p.skip(20),
{
    let r = swap_addresses(p);
    assert(source(r) =~= destination(p));
    assert(destination(r) =~= source(p));
    assert(r.take(12) =~= p.take(12));
    assert(r.skip(20) =~= p.skip(20));
}

/// Recomputing the ICMP checksum changes the checksum field only, and the
/// message verifies afterwards.
pub proof fn lemma_message_checksum(m: Seq<u8>)
    requires
        m.len() >= 4,
    ensures
        with_message_checksum(m).len() == m.len(),
        with_message_checksum(m).take(2) == m.take(2),
        with_message_checksum(m).skip(4) == m.skip(4),
        checksum_valid(0, with_message_checksum(m)),
{
    let r = with_message_checksum(m);
    assert(r.take(2) =~= m.take(2));
    assert(r.skip(4) =~= m.skip(4));
    lemma_checksum_round_trip(0, m, 2);
}

/// Recomputing the header checksum changes the checksum field only, and
/// the header verifies afterwards.
pub proof fn lemma_header_checksum(p: Seq<u8>)
    requires
        12 <= header_len(p) <= p.len(),
    ensures
        with_header_checksum(p).len() == p.len(),
        with_header_checksum(p).take(10) == p.take(10),
        with_header_checksum(p).skip(12) == p.skip(12),
        checksum_valid(0, with_header_checksum(p).take(header_len(p))),
{
    let h = header_len(p);
    let r = with_header_checksum(p);
    let head = p.take(h);
    assert(r.take(10) =~= p.take(10));
    assert(r.skip(12) =~= p.skip(12));
    assert(with_be16(p, 10, 0).take(h) =~= with_be16(head, 10, 0));
    assert(r.take(h) =~= with_be16(head, 10, internet_checksum(0, with_be16(head, 10, 0))));
    lemma_checksum_round_trip(0, head, 10);
}

/// The answer to an echo request. For a well-formed packet `p` that carries
/// an echo request with its identifier and sequence number, `echo_reply(p)`
/// is as long as `p` and has the same header length; it carries an echo
/// reply; its source is the destination of `p` and its destination the
/// source of `p`; identifier, sequence number and data are those of `p`; the
/// ICMP message verifies, and so does the header if that of `p` did.
pub proof fn lemma_echo_reply(p: Seq<u8>)
    requires
        20 <= header_len(p),
        header_len(p) + 8 <= p.len(),
        p[header_len(p)] == ICMP_KIND_ECHO,
    ensures
        echo_reply(p).len() == p.len(),
        header_len(echo_reply(p)) == header_len(p),
        echo_reply(p)[header_len(p)] == ICMP_KIND_ECHO_REPLY,
        source(echo_reply(p)) == destination(p),
        destination(echo_reply(p)) == source(p),
        echo_reply(p).skip(header_len(p) + 4) == p.skip(header_len(p) + 4),
        checksum_valid(0, echo_reply(p).skip(header_len(p))),
        checksum_valid(0, p.take(header_len(p))) ==> checksum_valid(
            0,
            echo_reply(p).take(header_len(p)),
        ),
{
    let h = header_len(p);
    let reply = p.skip(h).update(0, ICMP_KIND_ECHO_REPLY);
    let message = with_message_checksum(reply);
    let answered = p.take(h) + message;
    let r = echo_reply(p);
    assert(r == swap_addresses(answered));
    lemma_message_checksum(reply);
    lemma_swap_addresses(answered);
    assert(source(answered) =~= source(p));
    assert(destination(answered) =~= destination(p));
    assert(r[0] == r.take(12)[0]);
    assert(answered[0] == p[0]);
    assert(r.skip(h) =~= r.skip(20).skip(h - 20));
    assert(answered.skip(h) =~= answered.skip(20).skip(h - 20));
    assert(answered.skip(h) =~= message);
    assert(r[h] == r.skip(h)[0]);
    assert(message[0] == message.take(2)[0]);
    assert(r.skip(h + 4) =~= r.skip(h).skip(4));
    assert(p.skip(h + 4) =~= reply.skip(4));
    lemma_swap_keeps_header_checksum(answered);
    assert(answered.take(h) =~= p.take(h));
}

/// The message that reports an unreachable port is a destination-unreachable
/// message with the code for a port; behind the eight bytes of its header
/// it carries all of `p`; and it verifies.
pub proof fn lemma_port_unreachable(p: Seq<u8>)
    ensures
        port_unreachable(p).len() == 8 + p.len(),
        port_unreachable(p)[0] == ICMP_KIND_DESTINATION_UNREACHABLE,
        port_unreachable(p)[1] == ICMP_CODE_PORT_UNREACHABLE,
        port_unreachable(p).skip(8) == p,
        checksum_valid(0, port_unreachable(p)),
{
    let body = seq![
        ICMP_KIND_DESTINATION_UNREACHABLE,
        ICMP_CODE_PORT_UNREACHABLE,
        0u8,
        0u8,
        0u8,
        0u8,
        0u8,
        0u8,
    ] + p;
    let message = port_unreachable(p);
    lemma_message_checksum(body);
    assert(message[0] == message.take(2)[0]);
    assert(message[1] == message.take(2)[1]);
    assert(message.skip(8) =~= message.skip(4).skip(4));
    assert(body.skip(4).skip(4) =~= p);
}

/// Byte by byte, what exchanging the addresses does.
proof fn lemma_swap_addresses_bytes(p: Seq<u8>)
    requires
        p.len() >= 20,
    ensures
        swap_addresses(p).len() == p.len(),
        forall|k: int| 0 <= k < 12 ==> #[trigger] swap_addresses(p)[k] == p[k],
        forall|k: int| 12 <= k < 16 ==> #[trigger] swap_addresses(p)[k] == p[k + 4],
        forall|k: int| 16 <= k < 20 ==> #[trigger] swap_addresses(p)[k] == p[k - 4],
        forall|k: int| 20 <= k < p.len() ==> #[trigger] swap_addresses(p)[k] == p[k],
{
}

/// The packet before its addresses change places and its header checksum is
/// taken: the header of `p` and the message, with time-to-live, protocol
/// and total length set.
spec fn marked_reply(p: Seq<u8>) -> Seq<u8> {
    let whole = p.take(header_len(p)) + port_unreachable(p);
    with_be16(
        whole.update(8, REPLY_TTL).update(9, Protocol::ICMP.spec_value()),
        2,
        (whole.len() % 0x1_0000) as int,
    )
}

/// Byte by byte, what `marked_reply` is.
#[verifier::rlimit(50)]
proof fn lemma_marked_reply_bytes(p: Seq<u8>)
    requires
        20 <= header_len(p) <= p.len(),
    ensures
        marked_reply(p).len() == header_len(p) + 8 + p.len(),
        marked_reply(p)[0] == p[0],
        be16(marked_reply(p)[2], marked_reply(p)[3]) == marked_reply(p).len() % 0x1_0000,
        marked_reply(p)[8] == REPLY_TTL,
        marked_reply(p)[9] == Protocol::ICMP.spec_value(),
        forall|k: int| 12 <= k < 20 ==> #[trigger] marked_reply(p)[k] == p[k],
        forall|k: int|
            header_len(p) <= k < marked_reply(p).len() ==> #[trigger] marked_reply(p)[k]
                == port_unreachable(p)[k - header_len(p)],
{
    let h = header_len(p);
    let whole = p.take(h) + port_unreachable(p);
    lemma_port_unreachable(p);
    lemma_be16_round_trip((whole.len() % 0x1_0000) as u16);
}

/// Byte by byte, what `unreachable_reply` is outside its header checksum.
#[verifier::rlimit(50)]
proof fn lemma_unreachable_reply_bytes(p: Seq<u8>)
    requires
        20 <= header_len(p) <= p.len(),
    ensures
        unreachable_reply(p) == with_header_checksum(swap_addresses(marked_reply(p))),
        unreachable_reply(p).len() == header_len(p) + 8 + p.len(),
        unreachable_reply(p)[0] == p[0],
        be16(unreachable_reply(p)[2], unreachable_reply(p)[3]) == unreachable_reply(p).len()
            % 0x1_0000,
        unreachable_reply(p)[8] == REPLY_TTL,
        unreachable_reply(p)[9] == Protocol::ICMP.spec_value(),
        forall|k: int| 12 <= k < 16 ==> #[trigger] unreachable_reply(p)[k] == p[k + 4],
        forall|k: int| 16 <= k < 20 ==> #[trigger] unreachable_reply(p)[k] == p[k - 4],
        forall|k: int|
            header_len(p) <= k < unreachable_reply(p).len() ==> #[trigger] unreachable_reply(
                p,
            )[k] == port_unreachable(p)[k - header_len(p)],
{
    let marked = marked_reply(p);
    let addressed = swap_addresses(marked);
    let r = with_header_checksum(addressed);
    lemma_marked_reply_bytes(p);
    lemma_swap_addresses_bytes(marked);
    assert(r.len() == addressed.len());
    assert forall|k: int| 0 <= k < r.len() && k != 10 && k != 11 implies r[k] == addressed[k] by {}
    assert(r[0] == p[0]);
    assert(r[2] == marked[2] && r[3] == marked[3]);
    assert(r[8] == marked[8] && r[9] == marked[9]);
    assert forall|k: int| 12 <= k < 16 implies #[trigger] r[k] == p[k + 4] by {
        assert(r[k] == addressed[k]);
        assert(addressed[k] == marked[k + 4]);
    }
    assert forall|k: int| 16 <= k < 20 implies #[trigger] r[k] == p[k - 4] by {
        assert(r[k] == addressed[k]);
        assert(addressed[k] == marked[k - 4]);
    }
    assert forall|k: int| header_len(p) <= k < r.len() implies #[trigger] r[k]
        == port_unreachable(p)[k - header_len(p)] by {
        assert(r[k] == addressed[k]);
        assert(addressed[k] == marked[k]);
    }
}

/// The answer to a traceroute probe. For a well-formed packet `p`,
/// `unreachable_reply(p)` is an IPv4 packet with the header length of `p`,
/// the time-to-live 64 and the protocol ICMP; its total-length field holds
/// its length, as far as 16 bits can hold it; its source is the destination
/// of `p` and its destination the source of `p`; it carries a
/// destination-unreachable message with the code for an unreachable port
/// and all of `p` behind the eight bytes of the ICMP header; and both the
/// header and the ICMP message verify.
#[verifier::rlimit(50)]
pub proof fn lemma_unreachable_reply(p: Seq<u8>)
    requires
        20 <= header_len(p) <= p.len(),
    ensures
        unreachable_reply(p).len() == header_len(p) + 8 + p.len(),
        header_len(unreachable_reply(p)) == header_len(p),
        unreachable_reply(p)[8] == REPLY_TTL,
        Protocol::spec_from(unreachable_reply(p)[9]) == Protocol::ICMP,
        be16(unreachable_reply(p)[2], unreachable_reply(p)[3]) == unreachable_reply(p).len()
            % 0x1_0000,
        unreachable_reply(p).len() <= 0xffff ==> be16(
            unreachable_reply(p)[2],
            unreachable_reply(p)[3],
        ) == unreachable_reply(p).len(),
        source(unreachable_reply(p)) == destination(p),
        destination(unreachable_reply(p)) == source(p),
        unreachable_reply(p)[header_len(p)] == ICMP_KIND_DESTINATION_UNREACHABLE,
        unreachable_reply(p)[header_len(p) + 1] == ICMP_CODE_PORT_UNREACHABLE,
        unreachable_reply(p).skip(header_len(p) + 8) == p,
        checksum_valid(0, unreachable_reply(p).take(header_len(p))),
        checksum_valid(0, unreachable_reply(p).skip(header_len(p))),
{
    lemma_unreachable_reply_fields(p);
    lemma_unreachable_reply_addresses(p);
    lemma_unreachable_reply_message(p);
    lemma_unreachable_reply_header(p);
}

/// The length of the answer to a traceroute probe and the fields of its
/// header that are set outright.
proof fn lemma_unreachable_reply_fields(p: Seq<u8>)
    requires
        20 <= header_len(p) <= p.len(),
    ensures
        unreachable_reply(p).len() == header_len(p) + 8 + p.len(),
        unreachable_reply(p)[8] == REPLY_TTL,
        Protocol::spec_from(unreachable_reply(p)[9]) == Protocol::ICMP,
        be16(unreachable_reply(p)[2], unreachable_reply(p)[3]) == unreachable_reply(p).len()
            % 0x1_0000,
{
    lemma_unreachable_reply_bytes(p);
}

/// The addresses of the answer to a traceroute probe are those of the
/// probe, each in the other's place.
proof fn lemma_unreachable_reply_addresses(p: Seq<u8>)
    requires
        20 <= header_len(p) <= p.len(),
    ensures
        source(unreachable_reply(p)) == destination(p),
        destination(unreachable_reply(p)) == source(p),
{
    let r = unreachable_reply(p);
    lemma_unreachable_reply_bytes(p);
    assert(source(r) =~= destination(p)) by {
        assert(source(r).len() == 4);
        assert forall|k: int| 0 <= k < 4 implies source(r)[k] == destination(p)[k] by {
            assert(source(r)[k] == r[12 + k]);
            assert(destination(p)[k] == p[16 + k]);
        }
    }
    assert(destination(r) =~= source(p)) by {
        assert(destination(r).len() == 4);
        assert forall|k: int| 0 <= k < 4 implies destination(r)[k] == source(p)[k] by {
            assert(destination(r)[k] == r[16 + k]);
            assert(source(p)[k] == p[12 + k]);
        }
    }
}

/// Behind its header the answer to a traceroute probe holds the message
/// that reports the port as unreachable.
proof fn lemma_unreachable_reply_message(p: Seq<u8>)
    requires
        20 <= header_len(p) <= p.len(),
    ensures
        unreachable_reply(p)[header_len(p)] == ICMP_KIND_DESTINATION_UNREACHABLE,
        unreachable_reply(p)[header_len(p) + 1] == ICMP_CODE_PORT_UNREACHABLE,
        unreachable_reply(p).skip(header_len(p)) == port_unreachable(p),
        unreachable_reply(p).skip(header_len(p) + 8) == p,
        checksum_valid(0, unreachable_reply(p).skip(header_len(p))),
{
    let h = header_len(p);
    let r = unreachable_reply(p);
    let message = port_unreachable(p);
    lemma_unreachable_reply_bytes(p);
    lemma_port_unreachable(p);
    assert(r.skip(h) =~= message) by {
        assert(r.skip(h).len() == message.len());
        assert forall|k: int| 0 <= k < message.len() implies r.skip(h)[k] == message[k] by {
            assert(r.skip(h)[k] == r[h + k]);
        }
    }
    assert(r.skip(h + 8) =~= r.skip(h).skip(8));
}

/// The header of the answer to a traceroute probe has the length of the
/// probe's header, and it verifies.
proof fn lemma_unreachable_reply_header(p: Seq<u8>)
    requires
        20 <= header_len(p) <= p.len(),
    ensures
        header_len(unreachable_reply(p)) == header_len(p),
        checksum_valid(0, unreachable_reply(p).take(header_len(p))),
{
    let marked = marked_reply(p);
    let addressed = swap_addresses(marked);
    lemma_unreachable_reply_bytes(p);
    lemma_marked_reply_bytes(p);
    lemma_swap_addresses_bytes(marked);
    assert(addressed[0] == p[0]);
    lemma_header_checksum(addressed);
}

} // verus!
