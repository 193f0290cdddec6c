use trust::seq::{
    is_between_wrapped, s_lt_x_lt_e_wrapping, s_lt_x_lte_e_wrapping, s_lte_x_lt_e_wrapping,
    wrapping_lt,
};
use trust::table::{Connections, FrameError, Quad};
use trust::tcp::{Connection, State};
use trust::wire::{encode, IpHeader, TcpHeader};

fn check(s: u32, x: u32, e: u32, expected: bool) {
    assert_eq!(expected, s_lt_x_lte_e_wrapping(s, x, e));
}

#[test]
fn case_eq_a() {
    check(0, 2, 2, true);
}

#[test]
fn case_eq_b() {
    check(u32::max_value(), 2, 2, true);
}

#[test]
fn case_eq_c() {
    check(u32::max_value().wrapping_add(1), 2, 2, true);
}

#[test]
fn all_eq() {
    check(u32::max_value(), u32::max_value(), u32::max_value(), false);
}

#[test]
fn no_wrap() {
    check(5, 18, 23, true);
}

#[test]
fn x_e_wrapped() {
    check(50, u32::max_value().wrapping_add(18), u32::max_value().wrapping_add(23), true);
}

#[test]
fn e_wrapped() {
    check(5, 18, u32::max_value().wrapping_add(2), true);
}

#[test]
fn start_wrapped() {
    check(3, 2, 1, false);
}

#[test]
fn no_bound_wrap_x_left() {
    check(2, 1, 3, false);
}

#[test]
fn no_bound_wrap_x_right() {
    check(1, 3, 2, false);
}

#[test]
fn before_is_antisymmetric() {
    for &(s, e) in &[(0u32, 1u32), (5, u32::MAX), (u32::MAX, 0), (7, 0x8000_0006), (100, 0x7fff_ff00)] {
        assert_ne!(wrapping_lt(s, e), wrapping_lt(e, s));
    }
    assert!(wrapping_lt(u32::MAX, 0));
    assert!(!wrapping_lt(0, u32::MAX));
    // exactly half the ring apart: each is before the other
    assert!(wrapping_lt(0, 0x8000_0000) && wrapping_lt(0x8000_0000, 0));
}

#[test]
fn half_open_windows() {
    assert!(s_lte_x_lt_e_wrapping(10, 10, 20));
    assert!(!s_lte_x_lt_e_wrapping(10, 20, 20));
    assert!(s_lte_x_lt_e_wrapping(u32::MAX - 1, 3, 5));
    assert!(!s_lte_x_lt_e_wrapping(u32::MAX - 1, 5, 5));
    assert!(!s_lt_x_lt_e_wrapping(10, 10, 20));
    assert!(s_lt_x_lt_e_wrapping(7, 3, 7));
    assert!(is_between_wrapped(u32::MAX, 1, 2));
    assert!(!is_between_wrapped(4, 4, 4));
}

fn peer_ip() -> IpHeader {
    IpHeader {
        source: 0x0a00_0002,
        destination: 0x0a00_0001,
        protocol: 6,
        time_to_live: 64,
        payload_len: 20,
    }
}

fn segment(seq: u32, ack_num: u32, syn: bool, ack: bool) -> TcpHeader {
    TcpHeader {
        source_port: 40000,
        destination_port: 80,
        sequence_number: seq,
        acknowledgment_number: ack_num,
        window_size: 64240,
        fin: false,
        syn,
        rst: false,
        ack,
    }
}

#[test]
fn accept_ignores_non_syn() {
    assert!(Connection::accept(&peer_ip(), &segment(1000, 0, false, true), &[], 0).is_none());
}

#[test]
fn accept_opens_syn_received() {
    let (c, reply) = Connection::accept(&peer_ip(), &segment(1000, 0, true, false), &[], 0).unwrap();
    assert_eq!(c.state, State::SynReceived);
    assert_eq!(c.send.una, c.send.iss);
    assert_eq!(c.send.nxt, c.send.iss + 1);
    assert_eq!(c.send.wnd, 10);
    assert_eq!(c.recv.irs, 1000);
    assert_eq!(c.recv.nxt, 1001);
    assert_eq!(c.recv.wnd, 64240);
    assert_eq!(c.ip.source, 0x0a00_0001);
    assert_eq!(c.ip.destination, 0x0a00_0002);
    assert!(reply.syn && reply.ack && !reply.fin && !reply.rst);
    assert_eq!(reply.acknowledgment_number, c.recv.nxt);
    assert_eq!(reply.sequence_number, c.send.iss);
    assert_eq!((reply.source_port, reply.destination_port), (80, 40000));
}

#[test]
fn accept_wraps_sequence_numbers() {
    let (c, reply) =
        Connection::accept(&peer_ip(), &segment(u32::MAX, 0, true, false), &[], u32::MAX).unwrap();
    assert_eq!(c.send.iss, u32::MAX);
    assert_eq!(c.send.nxt, 0);
    assert_eq!(c.recv.nxt, 0);
    assert_eq!(reply.acknowledgment_number, 0);
}

#[test]
fn ack_of_syn_establishes() {
    let (mut c, _) = Connection::accept(&peer_ip(), &segment(1000, 0, true, false), &[], 0).unwrap();
    assert_eq!(c.on_packet(&peer_ip(), &segment(1001, 1, false, true), &[]), None);
    assert_eq!(c.state, State::Established);
}

#[test]
fn segment_without_ack_flag_keeps_syn_received() {
    let (mut c, _) = Connection::accept(&peer_ip(), &segment(1000, 0, true, false), &[], 0).unwrap();
    let before = c;
    assert_eq!(c.on_packet(&peer_ip(), &segment(1001, 1, false, false), &[]), None);
    assert_eq!(c, before);
}

#[test]
fn unacceptable_ack_changes_nothing() {
    let (mut c, _) = Connection::accept(&peer_ip(), &segment(1000, 0, true, false), &[], 0).unwrap();
    let before = c;
    for &ack_num in &[0u32, 2, u32::MAX, 0x8000_0000] {
        assert_eq!(c.on_packet(&peer_ip(), &segment(1001, ack_num, false, true), &[]), None);
        assert_eq!(c, before);
    }
}

#[test]
fn sequence_outside_window_is_dropped() {
    let (mut c, _) = Connection::accept(&peer_ip(), &segment(1000, 0, true, false), &[], 0).unwrap();
    let before = c;
    // window is [1001, 1001 + 64240)
    assert_eq!(c.on_packet(&peer_ip(), &segment(1000, 1, false, true), &[]), None);
    assert_eq!(c.on_packet(&peer_ip(), &segment(1001 + 64240, 1, false, true), &[]), None);
    assert_eq!(c, before);
    // last byte inside the window is enough
    assert_eq!(c.on_packet(&peer_ip(), &segment(990, 1, false, true), &[0u8; 12]), None);
    assert_eq!(c.state, State::Established);
}

#[test]
fn zero_window_takes_only_empty_segment_at_next() {
    let mut seg = segment(1000, 0, true, false);
    seg.window_size = 0;
    let (mut c, _) = Connection::accept(&peer_ip(), &seg, &[], 0).unwrap();
    let before = c;
    assert_eq!(c.on_packet(&peer_ip(), &segment(1001, 1, false, true), &[1u8]), None);
    assert_eq!(c, before);
    assert_eq!(c.on_packet(&peer_ip(), &segment(1002, 1, false, true), &[]), None);
    assert_eq!(c, before);
    assert_eq!(c.on_packet(&peer_ip(), &segment(1001, 1, false, true), &[]), None);
    assert_eq!(c.state, State::Established);
}

#[test]
fn replayed_ack_changes_nothing() {
    let (mut c, _) = Connection::accept(&peer_ip(), &segment(1000, 0, true, false), &[], 0).unwrap();
    assert_eq!(c.on_packet(&peer_ip(), &segment(1001, 1, false, true), &[]), None);
    let after_first = c;
    assert_eq!(c.on_packet(&peer_ip(), &segment(1001, 1, false, true), &[]), None);
    assert_eq!(c, after_first);
    assert_eq!(c.state, State::Established);
}

#[test]
fn data_when_established_resets() {
    let (mut c, _) = Connection::accept(&peer_ip(), &segment(1000, 0, true, false), &[], 0).unwrap();
    c.on_packet(&peer_ip(), &segment(1001, 1, false, true), &[]);
    let rst = c.on_packet(&peer_ip(), &segment(1001, 1, false, true), b"hello").unwrap();
    assert!(rst.rst && !rst.syn && !rst.ack);
    assert_eq!(rst.sequence_number, 1);
    assert_eq!((rst.source_port, rst.destination_port), (80, 40000));
}

#[test]
fn table_drops_unknown_non_syn() {
    let mut table = Connections::new();
    assert_eq!(table.on_segment(&peer_ip(), &segment(5, 1, false, true), &[], 0), None);
    assert_eq!(table.len(), 0);
}

#[test]
fn table_opens_and_routes_flows() {
    let mut table = Connections::new();
    let quad = Quad { src_addr: 0x0a00_0002, src_port: 40000, dst_addr: 0x0a00_0001, dst_port: 80 };
    let (ip, syn_ack) = table.on_segment(&peer_ip(), &segment(1000, 0, true, false), &[], 7).unwrap();
    assert_eq!(ip.destination, 0x0a00_0002);
    assert_eq!((syn_ack.sequence_number, syn_ack.acknowledgment_number), (7, 1001));
    assert_eq!(table.len(), 1);
    assert_eq!(table.get(&quad).unwrap().state, State::SynReceived);
    // a second SYN of the same flow goes to the connection, not to accept
    assert_eq!(table.on_segment(&peer_ip(), &segment(1000, 0, true, false), &[], 9), None);
    assert_eq!(table.len(), 1);
    assert_eq!(table.on_segment(&peer_ip(), &segment(1001, 8, false, true), &[], 9), None);
    assert_eq!(table.get(&quad).unwrap().state, State::Established);
    let other = Quad { src_port: 40001, ..quad };
    assert!(table.get(&other).is_none());
    // data on the established flow resets it and forgets it
    let (_, rst) = table.on_segment(&peer_ip(), &segment(1001, 8, false, true), b"x", 9).unwrap();
    assert!(rst.rst);
    assert_eq!(table.len(), 0);
}

#[test]
fn syn_ack_is_encoded_with_checksums() {
    let (c, reply) = Connection::accept(&peer_ip(), &segment(1000, 0, true, false), &[], 0).unwrap();
    let bytes = encode(&c.ip, &reply).unwrap();
    assert_eq!(
        bytes,
        vec![
            69, 0, 0, 40, 0, 0, 64, 0, 64, 6, 38, 206, 10, 0, 0, 1, 10, 0, 0, 2, 0, 80, 156, 64, 0, 0,
            0, 0, 0, 0, 3, 233, 80, 18, 0, 10, 251, 76, 0, 0
        ]
    );
}

#[test]
fn largest_payload_length_is_encoded() {
    let mut ip = peer_ip();
    ip.payload_len = 65515;
    let bytes = encode(&ip, &segment(1, 2, false, true)).unwrap();
    assert_eq!(bytes.len(), 40);
    assert_eq!((bytes[2], bytes[3]), (0xff, 0xff));
}

#[test]
fn oversized_payload_length_is_refused() {
    let mut ip = peer_ip();
    ip.payload_len = 65516;
    assert_eq!(encode(&ip, &segment(1, 2, false, true)), None);
}

fn frame(protocol: u8, flags: u8, seq: u32, ack_num: u32, payload: &[u8]) -> Vec<u8> {
    let total = (40 + payload.len()) as u16;
    let mut f = vec![0x45, 0];
    f.extend_from_slice(&total.to_be_bytes());
    f.extend_from_slice(&[0, 0, 0x40, 0, 64, protocol, 0, 0, 10, 0, 0, 2, 10, 0, 0, 1]);
    f.extend_from_slice(&40000u16.to_be_bytes());
    f.extend_from_slice(&80u16.to_be_bytes());
    f.extend_from_slice(&seq.to_be_bytes());
    f.extend_from_slice(&ack_num.to_be_bytes());
    f.extend_from_slice(&[0x50, flags]);
    f.extend_from_slice(&64240u16.to_be_bytes());
    f.extend_from_slice(&[0, 0, 0, 0]);
    f.extend_from_slice(payload);
    f
}

#[test]
fn frame_with_syn_opens_connection() {
    let mut table = Connections::new();
    let (ip, syn_ack) = table.on_frame(&frame(6, 0x02, 1000, 0, &[]), 0).unwrap().unwrap();
    assert_eq!((ip.source, ip.destination), (0x0a00_0001, 0x0a00_0002));
    assert_eq!((syn_ack.source_port, syn_ack.destination_port), (80, 40000));
    assert_eq!((syn_ack.sequence_number, syn_ack.acknowledgment_number), (0, 1001));
    assert_eq!(syn_ack.window_size, 10);
    let quad = Quad { src_addr: 0x0a00_0002, src_port: 40000, dst_addr: 0x0a00_0001, dst_port: 80 };
    assert_eq!(table.get(&quad).unwrap().recv.wnd, 64240);
    assert_eq!(table.on_frame(&frame(6, 0x10, 1001, 1, &[]), 0), Ok(None));
    assert_eq!(table.get(&quad).unwrap().state, State::Established);
    let (_, rst) = table.on_frame(&frame(6, 0x11, 1001, 1, &[]), 0).unwrap().unwrap();
    assert!(rst.rst);
    assert_eq!(table.len(), 0);
}

#[test]
fn frame_not_tcp_or_malformed_is_ignored() {
    let mut table = Connections::new();
    assert_eq!(table.on_frame(&frame(17, 0x02, 1000, 0, &[]), 0), Ok(None));
    assert_eq!(
        table.on_frame(&frame(6, 0x02, 1000, 0, &[])[..30], 0),
        Err(FrameError::BadTcpHeader)
    );
    let mut bad_version = frame(6, 0x02, 1000, 0, &[]);
    bad_version[0] = 0x65;
    assert_eq!(table.on_frame(&bad_version, 0), Err(FrameError::BadIpv4Header));
    assert_eq!(table.on_frame(&[], 0), Err(FrameError::BadIpv4Header));
    assert_eq!(table.len(), 0);
}
