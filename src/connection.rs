//! One passively opened TCP connection: the segment-acceptance tests, the
//! sequence-space bookkeeping and the state transitions.
use vstd::prelude::*;
use crate::seqnum::{
    between_wrapped, is_between_wrapped, lemma_dist, lemma_wrap, seq_add, seq_dist, seq_le, seq_sub,
    wrap,
};
use crate::segment::{seg_len, Segment};
use crate::state::State;
use crate::wire::{encode_frame, fitting, frame_spec};

verus! {

/// Initial send sequence number chosen for every connection.
pub const ISS: u32 = 0;

/// Window this side advertises.
pub const LOCAL_WINDOW: u16 = 10;

/// Send sequence space (RFC 793, section 3.2).
#[derive(Clone, Copy, Debug)]
pub struct SendSequenceSpace {
    /// oldest unacknowledged sequence number
    pub una: u32,
    /// next sequence number to send
    pub nxt: u32,
    /// send window
    pub wnd: u16,
    /// urgent flag
    pub up: bool,
    /// segment sequence number used for the last window update
    pub wl1: usize,
    /// segment acknowledgment number used for the last window update
    pub wl2: usize,
    /// initial send sequence number
    pub iss: u32,
}

/// Receive sequence space (RFC 793, section 3.2).
#[derive(Clone, Copy, Debug)]
pub struct RecvSequenceSpace {
    /// next sequence number expected from the peer
    pub nxt: u32,
    /// receive window
    pub wnd: u16,
    /// urgent flag
    pub up: bool,
    /// initial receive sequence number
    pub irs: u32,
}

/// A connection. `hdr` is the template of outbound headers: addresses and
/// ports towards the peer, the window, and the control flags still to be sent.
/// Its sequence and acknowledgment numbers are refreshed at each emission.
#[derive(Clone, Copy, Debug)]
pub struct Connection {
    pub state: State,
    pub send: SendSequenceSpace,
    pub recv: RecvSequenceSpace,
    pub hdr: Segment,
}

/// A segment ready for the transport: its header values, how many payload
/// bytes it carries, and its bytes.
pub struct Outgoing {
    pub header: Segment,
    pub written: usize,
    pub frame: Vec<u8>,
}

/// Header of the next segment `c` emits.
pub open spec fn out_header(c: Connection) -> Segment {
    Segment { sequence_number: c.send.nxt, acknowledgment_number: c.recv.nxt, ..c.hdr }
}

/// `c` after emitting a segment with `n` payload bytes: `send.nxt` moves past
/// the payload and past a pending SYN and FIN, which are then consumed.
pub open spec fn after_write(c: Connection, n: nat) -> Connection {
    let adv = n + (if c.hdr.syn { 1int } else { 0int }) + (if c.hdr.fin { 1int } else { 0int });
    Connection {
        send: SendSequenceSpace { nxt: wrap(c.send.nxt + adv), ..c.send },
        hdr: Segment { syn: false, fin: false, ..c.hdr },
        ..c
    }
}

/// The connection that a SYN creates, before it answers.
pub open spec fn opened(seg: Segment) -> Connection {
    Connection {
        state: State::SynRcvd,
        send: SendSequenceSpace {
            una: ISS,
            nxt: ISS,
            wnd: LOCAL_WINDOW,
            up: false,
            wl1: 0,
            wl2: 0,
            iss: ISS,
        },
        recv: RecvSequenceSpace {
            nxt: wrap(seg.sequence_number + 1),
            wnd: seg.window_size,
            up: false,
            irs: seg.sequence_number,
        },
        hdr: Segment {
            source: seg.destination,
            destination: seg.source,
            source_port: seg.destination_port,
            destination_port: seg.source_port,
            sequence_number: ISS,
            acknowledgment_number: 0,
            window_size: LOCAL_WINDOW,
            syn: true,
            ack: true,
            fin: false,
            rst: false,
        },
    }
}

/// The acknowledgment number of `seg` acknowledges something not yet
/// acknowledged and nothing not yet sent.
pub open spec fn ack_acceptable(c: Connection, seg: Segment) -> bool {
    between_wrapped(c.send.una, seg.acknowledgment_number, wrap(c.send.nxt + 1))
}

/// A segment starting at `seq` and occupying `slen` sequence numbers falls in
/// the receive window.
pub open spec fn segment_acceptable(recv: RecvSequenceSpace, seq: u32, slen: int) -> bool {
    let start = wrap(recv.nxt - 1);
    let wend = wrap(recv.nxt + recv.wnd);
    if slen == 0 {
        if recv.wnd == 0 {
            seq == recv.nxt
        } else {
            between_wrapped(start, seq, wend)
        }
    } else {
        recv.wnd != 0 && (between_wrapped(start, seq, wend) || between_wrapped(
            start,
            wrap(seq + slen - 1),
            wend,
        ))
    }
}

/// Reset answering `seg`, whose length is `slen`: its sequence number is the
/// segment's acknowledgment number when that is present; otherwise it is zero
/// and it acknowledges everything the segment occupied.
pub open spec fn rst_header(c: Connection, seg: Segment, slen: int) -> Segment {
    if seg.ack {
        Segment {
            sequence_number: seg.acknowledgment_number,
            acknowledgment_number: 0,
            syn: false,
            ack: false,
            fin: false,
            rst: true,
            ..c.hdr
        }
    } else {
        Segment {
            sequence_number: 0,
            acknowledgment_number: wrap(seg.sequence_number + slen),
            syn: false,
            ack: true,
            fin: false,
            rst: true,
            ..c.hdr
        }
    }
}

/// Empty acknowledgment restating the current sequence numbers.
pub open spec fn ack_header(c: Connection) -> Segment {
    Segment {
        sequence_number: c.send.nxt,
        acknowledgment_number: c.recv.nxt,
        syn: false,
        ack: true,
        fin: false,
        rst: false,
        ..c.hdr
    }
}

/// What the current state makes of an accepted segment: the next connection
/// and the header of the segment emitted, if any.
pub open spec fn react(c: Connection, seg: Segment, dlen: nat) -> (Connection, Option<Segment>) {
    match c.state {
        State::SynRcvd => if seg.ack {
            let closing = Connection { hdr: Segment { fin: true, ..c.hdr }, ..c };
            (Connection { state: State::FinWait1, ..after_write(closing, 0) }, Some(out_header(closing)))
        } else {
            (c, None)
        },
        State::FinWait1 => if seg.fin && dlen == 0 {
            (Connection { state: State::FinWait2, ..c }, None)
        } else {
            (c, None)
        },
        State::Closing => if seg.fin && dlen == 0 {
            let again = Connection { hdr: Segment { fin: false, ..c.hdr }, ..c };
            (after_write(again, 0), Some(out_header(again)))
        } else {
            (c, None)
        },
        _ => (c, None),
    }
}

/// One inbound segment with `dlen` payload bytes processed by `c`: the next
/// connection and the header of the segment emitted, if any.
pub open spec fn step(c: Connection, seg: Segment, dlen: nat) -> (Connection, Option<Segment>) {
    let slen = seg_len(seg, dlen);
    if !ack_acceptable(c, seg) {
        if !c.state.synchronized() {
            (c, Some(rst_header(c, seg, slen)))
        } else {
            (c, Some(ack_header(c)))
        }
    } else {
        let acked = Connection {
            send: SendSequenceSpace { una: seg.acknowledgment_number, ..c.send },
            ..c
        };
        if !segment_acceptable(acked.recv, seg.sequence_number, slen) {
            (acked, None)
        } else {
            let advanced = Connection {
                recv: RecvSequenceSpace { nxt: wrap(seg.sequence_number + slen), ..acked.recv },
                ..acked
            };
            react(advanced, seg, dlen)
        }
    }
}

impl Connection {
    /// Answers a segment that arrives while no connection exists. Only a SYN
    /// opens a connection; it is answered with a SYN-ACK.
    pub fn accept(seg: &Segment, _data: &[u8]) -> (r: Option<(Connection, Outgoing)>)
        ensures
            r is Some <==> seg.syn,
            r matches Some((c, o)) ==> {
                &&& c == after_write(opened(*seg), 0)
                &&& o.header == out_header(opened(*seg))
                &&& o.written == 0
                &&& o.frame@ == frame_spec(o.header, seq![])
            },
    {
        if !seg.syn {
            return None;
        }
        let mut c = Connection {
            state: State::SynRcvd,
            send: SendSequenceSpace {
                una: ISS,
                nxt: ISS,
                wnd: LOCAL_WINDOW,
                up: false,
                wl1: 0,
                wl2: 0,
                iss: ISS,
            },
            recv: RecvSequenceSpace {
                nxt: seq_add(seg.sequence_number, 1),
                wnd: seg.window_size,
                up: false,
                irs: seg.sequence_number,
            },
            hdr: Segment {
                source: seg.destination,
                destination: seg.source,
                source_port: seg.destination_port,
                destination_port: seg.source_port,
                sequence_number: ISS,
                acknowledgment_number: 0,
                window_size: LOCAL_WINDOW,
                syn: true,
                ack: true,
                fin: false,
                rst: false,
            },
        };
        let empty: [u8; 0] = [];
        let o = c.write(&empty);
        Some((c, o))
    }

    /// Emits a segment carrying as much of `payload` as fits into one frame,
    /// then advances `send.nxt` past what was sent.
    pub fn write(&mut self, payload: &[u8]) -> (r: Outgoing)
        ensures
            r.written == fitting(payload@.len()),
            r.header == out_header(*old(self)),
            r.frame@ == frame_spec(r.header, payload@.take(r.written as int)),
            *final(self) == after_write(*old(self), r.written as nat),
    {
        let mut h = self.hdr;
        h.sequence_number = self.send.nxt;
        h.acknowledgment_number = self.recv.nxt;
        let (frame, written) = encode_frame(&h, payload);
        let mut nxt = seq_add(self.send.nxt, written as u32);
        if self.hdr.syn {
            nxt = seq_add(nxt, 1);
            self.hdr.syn = false;
        }
        if self.hdr.fin {
            nxt = seq_add(nxt, 1);
            self.hdr.fin = false;
        }
        self.send.nxt = nxt;
        Outgoing { header: h, written, frame }
    }

    /// Builds the reset that answers `seg`, which carried `data_len` payload
    /// bytes. The connection is left as it is.
    pub fn send_rst(&self, seg: &Segment, data_len: usize) -> (r: Outgoing)
        requires
            data_len <= 0xffff,
        ensures
            r.header == rst_header(*self, *seg, seg_len(*seg, data_len as nat)),
            r.written == 0,
            r.frame@ == frame_spec(r.header, seq![]),
    {
        let mut h = self.hdr;
        h.syn = false;
        h.fin = false;
        h.rst = true;
        if seg.ack {
            h.sequence_number = seg.acknowledgment_number;
            h.acknowledgment_number = 0;
            h.ack = false;
        } else {
            let slen: u32 = segment_len(seg, data_len);
            h.sequence_number = 0;
            h.acknowledgment_number = seq_add(seg.sequence_number, slen);
            h.ack = true;
        }
        let empty: [u8; 0] = [];
        let (frame, written) = encode_frame(&h, &empty);
        Outgoing { header: h, written, frame }
    }
}

impl Connection {
    /// Processes one inbound segment carrying `data`. Returns the segment to
    /// transmit in answer, if any: a reset for an unacceptable acknowledgment
    /// before synchronization, an empty acknowledgment for one after it, or
    /// what the state transition emits.
    pub fn on_packet(&mut self, seg: &Segment, data: &[u8]) -> (r: Option<Outgoing>)
        requires
            data@.len() <= 0xffff,
        ensures
            *final(self) == step(*old(self), *seg, data@.len()).0,
            r is Some <==> step(*old(self), *seg, data@.len()).1 is Some,
            r matches Some(o) ==> {
                &&& Some(o.header) == step(*old(self), *seg, data@.len()).1
                &&& o.written == 0
                &&& o.frame@ == frame_spec(o.header, seq![])
            },
    {
        let ackn = seg.acknowledgment_number;
        if !is_between_wrapped(self.send.una, ackn, seq_add(self.send.nxt, 1)) {
            if !self.state.is_synchronized() {
                return Some(self.send_rst(seg, data.len()));
            }
            return Some(self.send_ack());
        }
        self.send.una = ackn;

        let seqn = seg.sequence_number;
        let slen: u32 = segment_len(seg, data.len());
        let wend = seq_add(self.recv.nxt, self.recv.wnd as u32);
        let start = seq_sub(self.recv.nxt, 1);
        if slen == 0 {
            if self.recv.wnd == 0 {
                if seqn != self.recv.nxt {
                    return None;
                }
            } else if !is_between_wrapped(start, seqn, wend) {
                return None;
            }
        } else if self.recv.wnd == 0 {
            return None;
        } else if !is_between_wrapped(start, seqn, wend) && !is_between_wrapped(
            start,
            seq_add(seqn, slen - 1),
            wend,
        ) {
            return None;
        }
        self.recv.nxt = seq_add(seqn, slen);

        let empty: [u8; 0] = [];
        match self.state {
            State::SynRcvd => {
                if !seg.ack {
                    return None;
                }
                // the acknowledgment covers our SYN: the handshake is complete,
                // and this side closes at once
                self.state = State::Estab;
                self.hdr.fin = true;
                let o = self.write(&empty);
                self.state = State::FinWait1;
                Some(o)
            },
            State::FinWait1 => {
                if seg.fin && data.len() == 0 {
                    self.state = State::FinWait2;
                }
                None
            },
            State::Closing => {
                if seg.fin && data.len() == 0 {
                    self.hdr.fin = false;
                    let o = self.write(&empty);
                    Some(o)
                } else {
                    None
                }
            },
            _ => None,
        }
    }

    /// Builds an empty acknowledgment restating the current send and receive
    /// sequence numbers. The connection is left as it is.
    pub fn send_ack(&self) -> (r: Outgoing)
        ensures
            r.header == ack_header(*self),
            r.written == 0,
            r.frame@ == frame_spec(r.header, seq![]),
    {
        let mut h = self.hdr;
        h.sequence_number = self.send.nxt;
        h.acknowledgment_number = self.recv.nxt;
        h.syn = false;
        h.ack = true;
        h.fin = false;
        h.rst = false;
        let empty: [u8; 0] = [];
        let (frame, written) = encode_frame(&h, &empty);
        Outgoing { header: h, written, frame }
    }
}

/// A segment accepted by a receive window of `wnd` from `nxt` ends at or
/// after `nxt`.
proof fn lemma_accepted_end(nxt: u32, wnd: u16, seq: u32, slen: int)
    requires
        0 <= slen <= 0x1_0001,
        segment_acceptable(RecvSequenceSpace { nxt, wnd, up: false, irs: 0 }, seq, slen),
    ensures
        seq_le(nxt, wrap(seq + slen)),
{
    let start = wrap(nxt - 1);
    let wend = wrap(nxt + wnd);
    lemma_wrap(nxt - 1);
    lemma_wrap(nxt + wnd);
    lemma_wrap(seq + slen);
    lemma_wrap(seq + slen - 1);
    lemma_dist(start, seq);
    lemma_dist(start, wend);
    lemma_dist(nxt, wrap(seq + slen));
    lemma_dist(start, wrap(seq + slen - 1));
}

/// An accepted segment moves `recv.nxt` to just past itself, and no segment,
/// accepted or not, moves `recv.nxt` backwards in sequence-space order.
pub proof fn lemma_recv_nxt_advances(c: Connection, seg: Segment, dlen: nat)
    requires
        dlen <= 0xffff,
    ensures
        ack_acceptable(c, seg) && segment_acceptable(
            c.recv,
            seg.sequence_number,
            seg_len(seg, dlen),
        ) ==> step(c, seg, dlen).0.recv.nxt == wrap(seg.sequence_number + seg_len(seg, dlen)),
        seq_le(c.recv.nxt, step(c, seg, dlen).0.recv.nxt),
{
    let slen = seg_len(seg, dlen);
    let nxt = c.recv.nxt;
    if ack_acceptable(c, seg) && segment_acceptable(c.recv, seg.sequence_number, slen) {
        assert(segment_acceptable(
            RecvSequenceSpace { nxt, wnd: c.recv.wnd, up: false, irs: 0 },
            seg.sequence_number,
            slen,
        ));
        lemma_accepted_end(nxt, c.recv.wnd, seg.sequence_number, slen);
    } else {
        lemma_dist(nxt, nxt);
    }
}

/// Sequence numbers this side may still consume: a pending SYN, a pending
/// FIN, and the FIN it sends once the handshake completes.
pub open spec fn still_to_send(c: Connection) -> int {
    (if c.hdr.syn { 1int } else { 0int }) + (if c.hdr.fin { 1int } else { 0int }) + (if c.state
        is SynRcvd {
        1int
    } else {
        0int
    })
}

/// The send sequence space is in order: `una` is at or before `nxt`, counting
/// from `iss`, and this side sends no data, so that `nxt` never gets more than
/// a SYN and a FIN past `iss`.
pub open spec fn send_ordered(c: Connection) -> bool {
    &&& seq_dist(c.send.iss, c.send.una) <= seq_dist(c.send.iss, c.send.nxt)
    &&& seq_dist(c.send.iss, c.send.nxt) + still_to_send(c) <= 2
}

/// A connection opened by a SYN has its send sequence space in order.
pub proof fn lemma_accept_send_ordered(seg: Segment)
    ensures
        send_ordered(after_write(opened(seg), 0)),
{
    lemma_wrap(ISS + 1);
    lemma_dist(ISS, ISS);
    lemma_dist(ISS, 1);
}

/// Moving `d` sequence numbers forward from a point `k` steps past `base`,
/// without completing the circle, lands `k + d` steps past `base`.
proof fn lemma_dist_forward(base: u32, a: u32, d: int)
    requires
        0 <= d,
        seq_dist(base, a) + d < 0x1_0000_0000,
    ensures
        seq_dist(base, wrap(a + d)) == seq_dist(base, a) + d,
{
    lemma_dist(base, a);
    lemma_wrap(a + d);
    lemma_dist(base, wrap(a + d));
}

/// Processing any segment keeps the send sequence space in order.
pub proof fn lemma_step_send_ordered(c: Connection, seg: Segment, dlen: nat)
    requires
        send_ordered(c),
    ensures
        send_ordered(step(c, seg, dlen).0),
{
    let slen = seg_len(seg, dlen);
    let iss = c.send.iss;
    if ack_acceptable(c, seg) {
        let ackn = seg.acknowledgment_number;
        let una = c.send.una;
        let nxt = c.send.nxt;
        lemma_dist_forward(iss, nxt, 1);
        lemma_dist(una, ackn);
        lemma_dist(una, wrap(nxt + 1));
        lemma_dist(iss, una);
        lemma_dist(iss, ackn);
        lemma_dist(iss, wrap(nxt + 1));
        assert(seq_dist(iss, ackn) <= seq_dist(iss, nxt));
        let acked = Connection { send: SendSequenceSpace { una: ackn, ..c.send }, ..c };
        if segment_acceptable(acked.recv, seg.sequence_number, slen) {
            let advanced = Connection {
                recv: RecvSequenceSpace { nxt: wrap(seg.sequence_number + slen), ..acked.recv },
                ..acked
            };
            assert(send_ordered(advanced));
            let syn_adv = if c.hdr.syn { 1int } else { 0int };
            lemma_dist_forward(iss, nxt, 1 + syn_adv);
            lemma_dist_forward(iss, nxt, syn_adv);
        }
    }
}

/// A write consumes the pending SYN and FIN flags, and advances `send.nxt`
/// by the payload written plus one for each of them that was pending.
pub proof fn lemma_write_consumes_flags(c: Connection, n: nat)
    ensures
        !after_write(c, n).hdr.syn,
        !after_write(c, n).hdr.fin,
        c.hdr.syn && !c.hdr.fin ==> after_write(c, n).send.nxt == wrap(c.send.nxt + n + 1),
        c.hdr.fin && !c.hdr.syn ==> after_write(c, n).send.nxt == wrap(c.send.nxt + n + 1),
        c.hdr.syn && c.hdr.fin ==> after_write(c, n).send.nxt == wrap(c.send.nxt + n + 2),
        !c.hdr.syn && !c.hdr.fin ==> after_write(c, n).send.nxt == wrap(c.send.nxt + n),
{
}

/// Number of sequence numbers `seg` occupies with `data_len` payload bytes.
fn segment_len(seg: &Segment, data_len: usize) -> (r: u32)
    requires
        data_len <= 0xffff,
    ensures
        r == seg_len(*seg, data_len as nat),
{
    let mut slen: u32 = data_len as u32;
    if seg.fin {
        slen = slen + 1;
    }
    if seg.syn {
        slen = slen + 1;
    }
    slen
}

} // verus!
