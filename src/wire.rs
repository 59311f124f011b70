//! Serialisation of outbound segments into IPv4 frames.
use vstd::prelude::*;
use crate::segment::Segment;

verus! {

/// Largest frame handed to the transport (the link MTU).
pub const MAX_FRAME: usize = 1500;

/// Length of an IPv4 header without options.
pub const IPV4_HEADER_LEN: usize = 20;

/// Length of a TCP header without options.
pub const TCP_HEADER_LEN: usize = 20;

/// Time-to-live written into outbound IPv4 headers.
pub const TTL: u8 = 64;

/// Big-endian bytes of a 16-bit value.
pub open spec fn be16(v: u16) -> Seq<u8> {
    seq![(v / 0x100) as u8, (v % 0x100) as u8]
}

/// Big-endian bytes of a 32-bit value.
pub open spec fn be32(v: u32) -> Seq<u8> {
    seq![
        (v / 0x100_0000) as u8,
        ((v / 0x1_0000) % 0x100) as u8,
        ((v / 0x100) % 0x100) as u8,
        (v % 0x100) as u8,
    ]
}

/// The TCP flag byte: FIN is bit 0, SYN bit 1, RST bit 2, ACK bit 4.
pub open spec fn flag_byte(h: Segment) -> u8 {
    ((if h.fin { 1int } else { 0int }) + (if h.syn { 2int } else { 0int }) + (if h.rst {
        4int
    } else {
        0int
    }) + (if h.ack { 16int } else { 0int })) as u8
}

/// A TCP header without options: ports, sequence and acknowledgment numbers,
/// a data offset of five words, the flags, the window, and a zero checksum and
/// urgent pointer.
pub open spec fn tcp_header_spec(h: Segment) -> Seq<u8> {
    be16(h.source_port) + be16(h.destination_port) + be32(h.sequence_number) + be32(
        h.acknowledgment_number,
    ) + seq![0x50u8, flag_byte(h)] + be16(h.window_size) + seq![0u8, 0u8, 0u8, 0u8]
}

/// The IPv4 header checksum that etherparse computes for a header built by
/// `Ipv4Header::new` with these values.
pub uninterp spec fn ipv4_checksum_of(payload_len: u16, source: Seq<u8>, destination: Seq<u8>) -> u16;

/// An IPv4 header without options carrying TCP: version 4 and five words,
/// no DSCP/ECN, the total length, identification zero, don't-fragment set,
/// the time-to-live, protocol 6, the checksum, and both addresses.
pub open spec fn ipv4_header_spec(
    payload_len: u16,
    source: Seq<u8>,
    destination: Seq<u8>,
    checksum: u16,
) -> Seq<u8> {
    seq![0x45u8, 0u8] + be16((payload_len + 20) as u16) + seq![0u8, 0u8, 0x40u8, 0u8, TTL, 6u8]
        + be16(checksum) + source + destination
}

/// Relies on etherparse's `Ipv4Header::new` and `Ipv4Header::write`: a header
/// without options, with the given payload length, protocol TCP and addresses,
/// written with its checksum computed. The range checks of `write` pass when
/// the payload length leaves room for the 20 header bytes.
#[verifier::external_body]
fn ipv4_header_bytes(payload_len: u16, source: [u8; 4], destination: [u8; 4]) -> (r: Vec<u8>)
    requires
        payload_len <= 0xffff - 20,
    ensures
        r@ == ipv4_header_spec(
            payload_len,
            source@,
            destination@,
            ipv4_checksum_of(payload_len, source@, destination@),
        ),
{
    let h = etherparse::Ipv4Header::new(
        payload_len,
        TTL,
        etherparse::IpTrafficClass::Tcp,
        source,
        destination,
    );
    let mut out: Vec<u8> = Vec::new();
    let _ = h.write(&mut out);
    out
}

/// Relies on etherparse's `TcpHeader::new` and `TcpHeader::write`: a header
/// without options, with the checksum and urgent pointer left at zero.
#[verifier::external_body]
fn tcp_header_bytes(h: &Segment) -> (r: Vec<u8>)
    ensures
        r@ == tcp_header_spec(*h),
{
    let mut t = etherparse::TcpHeader::new(
        h.source_port,
        h.destination_port,
        h.sequence_number,
        h.window_size,
    );
    t.acknowledgment_number = h.acknowledgment_number;
    t.syn = h.syn;
    t.ack = h.ack;
    t.fin = h.fin;
    t.rst = h.rst;
    let mut out: Vec<u8> = Vec::new();
    let _ = t.write(&mut out);
    out
}

/// How many payload bytes fit into one frame after both headers.
pub open spec fn fitting(payload_len: nat) -> nat {
    let room = (MAX_FRAME - IPV4_HEADER_LEN - TCP_HEADER_LEN) as nat;
    if payload_len < room {
        payload_len
    } else {
        room
    }
}

/// The frame that carries segment `h` with payload `data`: the IPv4 header,
/// the TCP header and the data.
pub open spec fn frame_spec(h: Segment, data: Seq<u8>) -> Seq<u8> {
    let plen = (TCP_HEADER_LEN + data.len()) as u16;
    ipv4_header_spec(plen, h.source@, h.destination@, ipv4_checksum_of(plen, h.source@, h.destination@))
        + tcp_header_spec(h) + data
}

/// Serialises segment `h` with as much of `payload` as fits into one frame.
/// Returns the frame and the number of payload bytes it carries.
pub fn encode_frame(h: &Segment, payload: &[u8]) -> (r: (Vec<u8>, usize))
    ensures
        r.1 == fitting(payload@.len()),
        r.0@ == frame_spec(*h, payload@.take(r.1 as int)),
        r.0@.len() <= MAX_FRAME,
{
    let room: usize = MAX_FRAME - IPV4_HEADER_LEN - TCP_HEADER_LEN;
    let n: usize = if payload.len() < room { payload.len() } else { room };
    let plen: u16 = (TCP_HEADER_LEN + n) as u16;
    let mut frame = ipv4_header_bytes(plen, h.source, h.destination);
    let mut tcp = tcp_header_bytes(h);
    frame.append(&mut tcp);
    let ghost head = frame@;
    let mut i: usize = 0;
    while i < n
        invariant
            n <= payload@.len(),
            i <= n,
            frame@ == head + payload@.take(i as int),
        decreases n - i,
    {
        frame.push(payload[i]);
        i = i + 1;
        assert(payload@.take(i as int) =~= payload@.take(i - 1) .push(payload@[i - 1]));
    }
    assert(payload@.take(n as int) =~= payload@.take(n as int));
    (frame, n)
}

} // verus!
