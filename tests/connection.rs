use tcp_endpoint::connection::{Connection, Outgoing};
use tcp_endpoint::segment::Segment;
use tcp_endpoint::seqnum::is_between_wrapped;
use tcp_endpoint::state::State;
use tcp_endpoint::wire::encode_frame;

const PEER: [u8; 4] = [10, 0, 0, 2];
const LOCAL: [u8; 4] = [10, 0, 0, 1];

fn from_peer(seq: u32, ack: u32, window: u16) -> Segment {
    Segment {
        source: PEER,
        destination: LOCAL,
        source_port: 40000,
        destination_port: 80,
        sequence_number: seq,
        acknowledgment_number: ack,
        window_size: window,
        syn: false,
        ack: false,
        fin: false,
        rst: false,
    }
}

fn syn(seq: u32, window: u16) -> Segment {
    let mut s = from_peer(seq, 0, window);
    s.syn = true;
    s
}

fn opened() -> Connection {
    let (c, _) = Connection::accept(&syn(1000, 5000), &[]).expect("a SYN opens a connection");
    c
}

fn in_fin_wait1() -> Connection {
    let mut c = opened();
    let mut a = from_peer(1001, 1, 5000);
    a.ack = true;
    assert!(c.on_packet(&a, &[]).is_some());
    c
}

fn same(a: &Connection, b: &Connection) -> bool {
    a.state == b.state
        && a.send.una == b.send.una
        && a.send.nxt == b.send.nxt
        && a.send.wnd == b.send.wnd
        && a.send.iss == b.send.iss
        && a.recv.nxt == b.recv.nxt
        && a.recv.wnd == b.recv.wnd
        && a.recv.irs == b.recv.irs
        && a.hdr.syn == b.hdr.syn
        && a.hdr.fin == b.hdr.fin
}

fn model_between(start: u32, x: u32, end: u32) -> bool {
    x != start && x.wrapping_sub(start) < end.wrapping_sub(start)
}

fn parse(o: &Outgoing) -> (etherparse::Ipv4HeaderSlice<'_>, etherparse::TcpHeaderSlice<'_>, &[u8]) {
    let ip = etherparse::Ipv4HeaderSlice::from_slice(&o.frame).expect("IPv4 header");
    let rest = &o.frame[20..];
    let tcp = etherparse::TcpHeaderSlice::from_slice(rest).expect("TCP header");
    (ip, tcp, &rest[20..])
}

#[test]
fn between_excludes_start() {
    for &s in &[0u32, 1, 1000, u32::MAX - 1, u32::MAX] {
        for &e in &[0u32, 5, 1000, u32::MAX] {
            assert!(!is_between_wrapped(s, s, e));
        }
    }
}

#[test]
fn between_matches_modular_model() {
    let points = [0u32, 1, 2, 99, 100, 101, 0x7fff_ffff, 0x8000_0000, u32::MAX - 1, u32::MAX];
    for &s in &points {
        for &x in &points {
            for &e in &points {
                assert_eq!(is_between_wrapped(s, x, e), model_between(s, x, e), "{} {} {}", s, x, e);
            }
        }
    }
}

#[test]
fn between_plain_and_wrapped_cases() {
    assert!(is_between_wrapped(10, 15, 20));
    assert!(!is_between_wrapped(10, 20, 20));
    assert!(!is_between_wrapped(10, 25, 20));
    assert!(!is_between_wrapped(10, 15, 10));
    assert!(is_between_wrapped(u32::MAX - 5, 2, 10));
    assert!(is_between_wrapped(u32::MAX - 5, u32::MAX, 10));
    assert!(!is_between_wrapped(u32::MAX - 5, 10, 10));
    assert!(!is_between_wrapped(u32::MAX - 5, u32::MAX - 6, 10));
    assert!(is_between_wrapped(20, 5, 10));
    assert!(!is_between_wrapped(20, 15, 10));
}

#[test]
fn passive_open() {
    let (c, o) = Connection::accept(&syn(1000, 5000), &[]).expect("a SYN opens a connection");
    assert_eq!(c.state, State::SynRcvd);
    assert_eq!(c.recv.irs, 1000);
    assert_eq!(c.recv.nxt, 1001);
    assert_eq!(c.recv.wnd, 5000);
    assert_eq!(c.send.iss, 0);
    assert_eq!(c.send.una, 0);
    assert_eq!(c.send.nxt, 1);
    assert!(!c.hdr.syn);
    assert!(o.header.syn && o.header.ack && !o.header.fin && !o.header.rst);
    assert_eq!(o.header.acknowledgment_number, 1001);
    assert_eq!(o.header.sequence_number, 0);
    assert_eq!(o.written, 0);
    assert_eq!(o.frame.len(), 40);
    let (ip, tcp, payload) = parse(&o);
    assert_eq!(ip.source(), &LOCAL[..]);
    assert_eq!(ip.destination(), &PEER[..]);
    assert_eq!(ip.protocol(), 6);
    assert_eq!(ip.payload_len(), 20);
    assert_eq!(tcp.source_port(), 80);
    assert_eq!(tcp.destination_port(), 40000);
    assert!(tcp.syn() && tcp.ack() && !tcp.fin() && !tcp.rst());
    assert_eq!(tcp.acknowledgment_number(), 1001);
    assert_eq!(tcp.sequence_number(), 0);
    assert_eq!(tcp.window_size(), 10);
    assert!(payload.is_empty());
}

#[test]
fn accept_ignores_non_syn() {
    let mut s = from_peer(1000, 0, 5000);
    s.ack = true;
    assert!(Connection::accept(&s, &[]).is_none());
}

#[test]
fn accept_wraps_receive_sequence() {
    let (c, o) = Connection::accept(&syn(u32::MAX, 100), &[]).unwrap();
    assert_eq!(c.recv.irs, u32::MAX);
    assert_eq!(c.recv.nxt, 0);
    assert_eq!(o.header.acknowledgment_number, 0);
}

#[test]
fn syn_rcvd_to_fin_wait1() {
    let mut c = opened();
    let mut a = from_peer(1001, 1, 5000);
    a.ack = true;
    let o = c.on_packet(&a, &[]).expect("the FIN is emitted");
    assert_eq!(c.state, State::FinWait1);
    assert_eq!(c.send.una, 1);
    assert_eq!(c.send.nxt, 2);
    assert_eq!(c.recv.nxt, 1001);
    assert!(!c.hdr.fin);
    assert!(o.header.fin && o.header.ack && !o.header.syn && !o.header.rst);
    assert_eq!(o.header.sequence_number, 1);
    assert_eq!(o.header.acknowledgment_number, 1001);
    let (_, tcp, _) = parse(&o);
    assert!(tcp.fin() && tcp.ack());
}

#[test]
fn syn_rcvd_without_ack_flag_stays() {
    let mut c = opened();
    let s = from_peer(1001, 1, 5000);
    assert!(c.on_packet(&s, &[]).is_none());
    assert_eq!(c.state, State::SynRcvd);
    assert_eq!(c.send.una, 1);
    assert_eq!(c.send.nxt, 1);
}

#[test]
fn unacceptable_ack_unsynchronized_resets() {
    let mut c = opened();
    let before = c;
    let mut a = from_peer(1001, 5, 5000);
    a.ack = true;
    let o = c.on_packet(&a, &[]).expect("a reset is emitted");
    assert!(same(&c, &before));
    assert_eq!(c.state, State::SynRcvd);
    assert!(o.header.rst && !o.header.ack && !o.header.syn && !o.header.fin);
    assert_eq!(o.header.sequence_number, 5);
    let (_, tcp, _) = parse(&o);
    assert!(tcp.rst());
    assert_eq!(tcp.sequence_number(), 5);
}

#[test]
fn ack_equal_to_una_is_unacceptable() {
    let mut c = opened();
    let mut a = from_peer(1001, 0, 5000);
    a.ack = true;
    let o = c.on_packet(&a, &[]).expect("a reset is emitted");
    assert!(o.header.rst);
    assert_eq!(c.state, State::SynRcvd);
}

#[test]
fn reset_without_ack_acknowledges_segment() {
    let mut c = opened();
    let mut s = from_peer(1001, 9, 5000);
    s.fin = true;
    let o = c.on_packet(&s, b"abc").expect("a reset is emitted");
    assert!(o.header.rst && o.header.ack);
    assert_eq!(o.header.sequence_number, 0);
    assert_eq!(o.header.acknowledgment_number, 1005);
    assert_eq!(c.state, State::SynRcvd);
}

#[test]
fn unacceptable_ack_synchronized_restates() {
    let mut c = in_fin_wait1();
    let before = c;
    let mut a = from_peer(1001, 100, 5000);
    a.ack = true;
    let o = c.on_packet(&a, &[]).expect("an acknowledgment is emitted");
    assert!(same(&c, &before));
    assert!(o.header.ack && !o.header.rst && !o.header.fin && !o.header.syn);
    assert_eq!(o.header.sequence_number, 2);
    assert_eq!(o.header.acknowledgment_number, 1001);
}

#[test]
fn zero_window_zero_length_dropped() {
    let mut c = in_fin_wait1();
    c.recv.wnd = 0;
    let mut a = from_peer(1005, 2, 5000);
    a.ack = true;
    let before = c;
    assert!(c.on_packet(&a, &[]).is_none());
    assert_eq!(c.state, before.state);
    assert_eq!(c.recv.nxt, before.recv.nxt);
    assert_eq!(c.send.nxt, before.send.nxt);
}

#[test]
fn zero_window_data_dropped() {
    let mut c = in_fin_wait1();
    c.recv.wnd = 0;
    let mut a = from_peer(1001, 2, 5000);
    a.ack = true;
    assert!(c.on_packet(&a, b"x").is_none());
    assert_eq!(c.recv.nxt, 1001);
    assert_eq!(c.state, State::FinWait1);
}

#[test]
fn zero_window_in_order_empty_accepted() {
    let mut c = in_fin_wait1();
    c.recv.wnd = 0;
    let mut a = from_peer(1001, 2, 5000);
    a.ack = true;
    assert!(c.on_packet(&a, &[]).is_none());
    assert_eq!(c.send.una, 2);
    assert_eq!(c.recv.nxt, 1001);
}

#[test]
fn segment_outside_window_dropped() {
    let mut c = in_fin_wait1();
    let mut s = from_peer(9000, 2, 5000);
    s.ack = true;
    s.fin = true;
    assert!(c.on_packet(&s, &[]).is_none());
    assert_eq!(c.state, State::FinWait1);
    assert_eq!(c.recv.nxt, 1001);
}

#[test]
fn fin_wait1_to_fin_wait2() {
    let mut c = in_fin_wait1();
    let mut f = from_peer(1001, 2, 5000);
    f.ack = true;
    f.fin = true;
    assert!(c.on_packet(&f, &[]).is_none());
    assert_eq!(c.state, State::FinWait2);
    assert_eq!(c.recv.nxt, 1002);
    assert_eq!(c.send.una, 2);
}

#[test]
fn fin_wait1_data_stays() {
    let mut c = in_fin_wait1();
    let mut d = from_peer(1001, 2, 5000);
    d.ack = true;
    assert!(c.on_packet(&d, b"hello").is_none());
    assert_eq!(c.state, State::FinWait1);
    assert_eq!(c.recv.nxt, 1006);
}

#[test]
fn last_byte_in_window_accepted() {
    let mut c = in_fin_wait1();
    let mut d = from_peer(998, 2, 5000);
    d.ack = true;
    assert!(c.on_packet(&d, b"hello").is_none());
    assert_eq!(c.recv.nxt, 1003);
}

#[test]
fn closing_fin_retransmits() {
    let mut c = in_fin_wait1();
    c.state = State::Closing;
    c.hdr.fin = true;
    let mut f = from_peer(1001, 2, 5000);
    f.ack = true;
    f.fin = true;
    let o = c.on_packet(&f, &[]).expect("a segment is emitted");
    assert_eq!(c.state, State::Closing);
    assert!(!o.header.fin && o.header.ack);
    assert!(!c.hdr.fin);
    assert_eq!(c.send.nxt, 2);
    assert_eq!(c.recv.nxt, 1002);
}

#[test]
fn write_consumes_syn_and_advances() {
    let mut c = opened();
    c.hdr.syn = true;
    let o = c.write(b"hello");
    assert_eq!(o.written, 5);
    assert_eq!(c.send.nxt, 1 + 5 + 1);
    assert!(!c.hdr.syn);
    let (ip, tcp, payload) = parse(&o);
    assert_eq!(payload, b"hello");
    assert_eq!(ip.payload_len(), 25);
    assert!(tcp.syn());
    let again = c.write(b"hello");
    assert!(!again.header.syn);
    assert_eq!(c.send.nxt, 12);
}

#[test]
fn write_consumes_fin_and_advances() {
    let mut c = opened();
    c.hdr.fin = true;
    let o = c.write(b"abc");
    assert_eq!(o.written, 3);
    assert_eq!(c.send.nxt, 1 + 3 + 1);
    assert!(!c.hdr.fin);
    assert!(o.header.fin);
}

#[test]
fn write_wraps_send_sequence() {
    let mut c = opened();
    c.send.nxt = u32::MAX - 1;
    c.hdr.fin = true;
    c.write(b"ab");
    assert_eq!(c.send.nxt, 1);
}

#[test]
fn write_truncates_to_frame() {
    let mut c = opened();
    let big = vec![7u8; 2000];
    let o = c.write(&big);
    assert_eq!(o.written, 1460);
    assert_eq!(o.frame.len(), 1500);
    assert_eq!(c.send.nxt, 1461);
    let (ip, _, payload) = parse(&o);
    assert_eq!(ip.payload_len(), 1480);
    assert_eq!(payload.len(), 1460);
}

#[test]
fn encode_frame_lays_out_headers() {
    let h = Segment {
        source: LOCAL,
        destination: PEER,
        source_port: 0x1234,
        destination_port: 0x5678,
        sequence_number: 0x0102_0304,
        acknowledgment_number: 0x0a0b_0c0d,
        window_size: 0xabcd,
        syn: true,
        ack: true,
        fin: false,
        rst: false,
    };
    let (frame, n) = encode_frame(&h, b"xy");
    assert_eq!(n, 2);
    assert_eq!(frame.len(), 42);
    assert_eq!(&frame[0..4], &[0x45, 0, 0, 42]);
    assert_eq!(&frame[12..16], &LOCAL);
    assert_eq!(&frame[16..20], &PEER);
    assert_eq!(
        &frame[20..40],
        &[0x12, 0x34, 0x56, 0x78, 1, 2, 3, 4, 0x0a, 0x0b, 0x0c, 0x0d, 0x50, 0x12, 0xab, 0xcd, 0, 0, 0, 0]
    );
    assert_eq!(&frame[40..], b"xy");
}

#[test]
fn send_rst_leaves_state() {
    let c = opened();
    let mut s = from_peer(1001, 77, 5000);
    s.ack = true;
    let o = c.send_rst(&s, 0);
    assert!(o.header.rst);
    assert_eq!(o.header.sequence_number, 77);
    assert_eq!(c.state, State::SynRcvd);
}

#[test]
fn is_synchronized_by_state() {
    assert!(!State::SynRcvd.is_synchronized());
    assert!(State::Estab.is_synchronized());
    assert!(State::FinWait1.is_synchronized());
    assert!(State::FinWait2.is_synchronized());
    assert!(State::Closing.is_synchronized());
}
