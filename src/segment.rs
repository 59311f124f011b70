//! Header values of one TCP segment carried in an IPv4 datagram.
use vstd::prelude::*;

verus! {

/// The header fields of a TCP/IPv4 segment that the connection logic reads or
/// writes. Inbound segments arrive in this form once their bytes are parsed;
/// outbound segments are described in this form before being serialised.
#[derive(Clone, Copy, Debug)]
pub struct Segment {
    pub source: [u8; 4],
    pub destination: [u8; 4],
    pub source_port: u16,
    pub destination_port: u16,
    pub sequence_number: u32,
    pub acknowledgment_number: u32,
    pub window_size: u16,
    pub syn: bool,
    pub ack: bool,
    pub fin: bool,
    pub rst: bool,
}

/// Number of sequence numbers a segment occupies: its payload, plus one for
/// each of SYN and FIN.
pub open spec fn seg_len(seg: Segment, payload_len: nat) -> int {
    payload_len + (if seg.fin { 1int } else { 0int }) + (if seg.syn { 1int } else { 0int })
}

} // verus!
