//! One connection's state machine: the passive open that answers a SYN, and
//! the acceptability checks and transitions applied to each later segment.
use vstd::prelude::*;
use vstd::arithmetic::div_mod::{lemma_add_mod_noop_right, lemma_mod_add_multiples_vanish};
use crate::seq::{
    ring,
    dist,
    in_arc_open_closed,
    in_arc_closed_open,
    s_lt_x_lte_e_wrapping,
    s_lte_x_lt_e_wrapping,
};
use crate::wire::{IpHeader, TcpHeader, TCP_PROTOCOL, TCP_HEADER_LEN};

verus! {

/// Where a connection stands. A flow without a connection is closed.
#[derive(Clone, Copy, Debug, PartialEq, Eq, Structural)]
pub enum State {
    SynReceived,
    Established,
}

/// The send sequence space.
#[derive(Clone, Copy, Debug, PartialEq, Eq, Structural)]
pub struct SendSequenceSpace {
    /// oldest unacknowledged byte
    pub una: u32,
    /// next byte to send
    pub nxt: u32,
    /// advertised send window
    pub wnd: u16,
    /// urgent flag
    pub up: bool,
    /// sequence number of the segment of the last window update
    pub wl1: u32,
    /// acknowledgment number of the segment of the last window update
    pub wl2: u32,
    /// initial send sequence number
    pub iss: u32,
}

/// The receive sequence space.
#[derive(Clone, Copy, Debug, PartialEq, Eq, Structural)]
pub struct RecvSequenceSpace {
    /// next byte expected
    pub nxt: u32,
    /// advertised receive window
    pub wnd: u16,
    /// urgent flag
    pub up: bool,
    /// initial receive sequence number (the peer's)
    pub irs: u32,
}

/// One flow's connection: its state, both sequence spaces, and the IPv4
/// header reused for every reply on the flow.
#[derive(Clone, Copy, Debug, PartialEq, Eq, Structural)]
pub struct Connection {
    pub state: State,
    pub send: SendSequenceSpace,
    pub recv: RecvSequenceSpace,
    pub ip: IpHeader,
}

/// The send window this endpoint advertises.
pub const SEND_WINDOW: u16 = 10;

/// Time to live of every datagram this endpoint sends.
pub const TIME_TO_LIVE: u8 = 64;

/// `a + b` on the 32-bit ring.
pub open spec fn add32(a: u32, b: int) -> u32 {
    ((a + b) % ring()) as u32
}

/// The ring size of sequence numbers, as an executable value.
const RING: u64 = 0x1_0000_0000;

/// The last sequence number of a segment, computed from its payload length
/// reduced modulo the ring, is the one counted from the full length.
proof fn lemma_last_byte(seq: u32, data_len: int, extra: int)
    requires
        0 <= data_len,
        0 <= extra <= 2,
    ensures
        ((seq + data_len % ring() + extra + ring() - 1) % ring()) as u32 == add32(seq, data_len + extra - 1),
{
    let r = ring();
    lemma_add_mod_noop_right(seq + extra + r - 1, data_len, r);
    lemma_mod_add_multiples_vanish(seq + data_len + extra - 1, r);
}

impl Connection {
    /// The oldest unacknowledged byte is never after the next byte to send,
    /// and the next byte expected follows the last one accepted, which (no
    /// data being taken in) is the peer's SYN.
    pub open spec fn wf(self) -> bool {
        &&& dist(self.send.una, self.send.nxt) < 0x8000_0000
        &&& self.recv.nxt == add32(self.recv.irs, 1)
    }
}

/// The connection that a SYN opens, with `iss` as the initial send sequence
/// number, and the SYN+ACK that answers it; nothing for any other segment.
pub open spec fn accept_spec(iph: IpHeader, tcph: TcpHeader, iss: u32) -> Option<(Connection, TcpHeader)> {
    if !tcph.syn {
        None
    } else {
        let c = Connection {
            state: State::SynReceived,
            send: SendSequenceSpace {
                una: iss,
                nxt: add32(iss, 1),
                wnd: SEND_WINDOW,
                up: false,
                wl1: 0,
                wl2: 0,
                iss,
            },
            recv: RecvSequenceSpace {
                nxt: add32(tcph.sequence_number, 1),
                wnd: tcph.window_size,
                up: false,
                irs: tcph.sequence_number,
            },
            ip: IpHeader {
                source: iph.destination,
                destination: iph.source,
                protocol: TCP_PROTOCOL,
                time_to_live: TIME_TO_LIVE,
                payload_len: TCP_HEADER_LEN,
            },
        };
        let syn_ack = TcpHeader {
            source_port: tcph.destination_port,
            destination_port: tcph.source_port,
            sequence_number: iss,
            acknowledgment_number: c.recv.nxt,
            window_size: SEND_WINDOW,
            fin: false,
            syn: true,
            rst: false,
            ack: true,
        };
        Some((c, syn_ack))
    }
}

/// Sequence space a segment occupies: its payload, plus one for each of FIN
/// and SYN.
pub open spec fn seg_len(tcph: TcpHeader, data_len: int) -> int {
    data_len + (if tcph.fin { 1int } else { 0 }) + (if tcph.syn { 1int } else { 0 })
}

/// The acknowledgment number lies in `(send.una, send.nxt]`.
pub open spec fn ack_acceptable(c: Connection, ack: u32) -> bool {
    in_arc_open_closed(c.send.una, ack, c.send.nxt)
}

/// The segment's sequence numbers meet the receive window
/// `[recv.nxt, recv.nxt + recv.wnd)`.
pub open spec fn seq_acceptable(c: Connection, tcph: TcpHeader, len: int) -> bool {
    let wend = add32(c.recv.nxt, c.recv.wnd as int);
    if len == 0 {
        if c.recv.wnd == 0 {
            tcph.sequence_number == c.recv.nxt
        } else {
            in_arc_closed_open(c.recv.nxt, tcph.sequence_number, wend)
        }
    } else {
        c.recv.wnd != 0 && (in_arc_closed_open(c.recv.nxt, tcph.sequence_number, wend)
            || in_arc_closed_open(c.recv.nxt, add32(tcph.sequence_number, len - 1), wend))
    }
}

/// The reset that ends a connection: sent from the next send sequence number,
/// back to the segment's sender.
pub open spec fn reset_for(c: Connection, tcph: TcpHeader) -> TcpHeader {
    TcpHeader {
        source_port: tcph.destination_port,
        destination_port: tcph.source_port,
        sequence_number: c.send.nxt,
        acknowledgment_number: 0,
        window_size: 0,
        fin: false,
        syn: false,
        rst: true,
        ack: false,
    }
}

/// What a segment with `data_len` bytes of payload does to a connection, and
/// the reply it draws. An unacceptable segment is dropped. In `SynReceived` an
/// acceptable segment with ACK completes the handshake. In `Established` a
/// bare acknowledgment needs nothing; a segment that carries data or FIN is
/// answered by a reset, which ends the connection.
pub open spec fn on_packet_spec(c: Connection, tcph: TcpHeader, data_len: int) -> (Connection, Option<TcpHeader>) {
    let len = seg_len(tcph, data_len);
    if !ack_acceptable(c, tcph.acknowledgment_number) || !seq_acceptable(c, tcph, len) {
        (c, None)
    } else {
        match c.state {
            State::SynReceived => {
                if tcph.ack {
                    (Connection { state: State::Established, ..c }, None)
                } else {
                    (c, None)
                }
            },
            State::Established => {
                if len == 0 {
                    (c, None)
                } else {
                    (c, Some(reset_for(c, tcph)))
                }
            },
        }
    }
}

impl Connection {
    /// Answers a SYN that opens a new flow, with `iss` as the initial send
    /// sequence number: the new connection in `SynReceived`, and the SYN+ACK
    /// to send back (encoded with the connection's `ip` header). A segment
    /// without SYN opens nothing.
    pub fn accept(iph: &IpHeader, tcph: &TcpHeader, data: &[u8], iss: u32) -> (r: Option<(Connection, TcpHeader)>)
        ensures
            r == accept_spec(*iph, *tcph, iss),
            r matches Some(p) ==> p.0.wf(),
    {
        if !tcph.syn {
            return None;
        }
        let c = Connection {
            state: State::SynReceived,
            send: SendSequenceSpace {
                una: iss,
                nxt: iss.wrapping_add(1),
                wnd: SEND_WINDOW,
                up: false,
                wl1: 0,
                wl2: 0,
                iss,
            },
            recv: RecvSequenceSpace {
                nxt: tcph.sequence_number.wrapping_add(1),
                wnd: tcph.window_size,
                up: false,
                irs: tcph.sequence_number,
            },
            ip: IpHeader {
                source: iph.destination,
                destination: iph.source,
                protocol: TCP_PROTOCOL,
                time_to_live: TIME_TO_LIVE,
                payload_len: TCP_HEADER_LEN,
            },
        };
        let syn_ack = TcpHeader {
            source_port: tcph.destination_port,
            destination_port: tcph.source_port,
            sequence_number: c.send.iss,
            acknowledgment_number: c.recv.nxt,
            window_size: c.send.wnd,
            fin: false,
            syn: true,
            rst: false,
            ack: true,
        };
        Some((c, syn_ack))
    }

    /// Applies an inbound segment with payload `data` to this connection.
    /// Returns the reset to send where the segment ends the connection; the
    /// caller then forgets the connection.
    pub fn on_packet(&mut self, iph: &IpHeader, tcph: &TcpHeader, data: &[u8]) -> (r: Option<TcpHeader>)
        ensures
            (*final(self), r) == on_packet_spec(*old(self), *tcph, data@.len() as int),
            old(self).wf() ==> final(self).wf(),
    {
        // SND.UNA < SEG.ACK =< SND.NXT
        if !s_lt_x_lte_e_wrapping(self.send.una, tcph.acknowledgment_number, self.send.nxt) {
            return None;
        }
        // RCV.NXT =< SEG.SEQ < RCV.NXT + RCV.WND, or the same of the last
        // byte SEG.SEQ + SEG.LEN - 1
        let seg_seqn = tcph.sequence_number;
        let empty = data.len() == 0 && !tcph.fin && !tcph.syn;
        let wend = ((self.recv.nxt as u64 + self.recv.wnd as u64) % RING) as u32;
        if empty {
            if self.recv.wnd == 0 {
                if seg_seqn != self.recv.nxt {
                    return None;
                }
            } else if !s_lte_x_lt_e_wrapping(self.recv.nxt, seg_seqn, wend) {
                return None;
            }
        } else {
            let extra: u64 = if tcph.fin { 1 } else { 0 };
            let extra: u64 = if tcph.syn { extra + 1 } else { extra };
            let data_len_mod = data.len() as u64 % RING;
            let last = ((seg_seqn as u64 + data_len_mod + extra + RING - 1) % RING) as u32;
            proof {
                lemma_last_byte(seg_seqn, data@.len() as int, extra as int);
            }
            if self.recv.wnd == 0 {
                return None;
            } else if !s_lte_x_lt_e_wrapping(self.recv.nxt, seg_seqn, wend)
                && !s_lte_x_lt_e_wrapping(self.recv.nxt, last, wend) {
                return None;
            }
        }
        match self.state {
            State::SynReceived => {
                // the handshake completes with an ACK of our SYN
                if tcph.ack {
                    self.state = State::Established;
                }
                None
            },
            State::Established => {
                // data transfer and close are not handled: a segment that
                // carries either resets the connection
                if empty {
                    None
                } else {
                    Some(
                        TcpHeader {
                            source_port: tcph.destination_port,
                            destination_port: tcph.source_port,
                            sequence_number: self.send.nxt,
                            acknowledgment_number: 0,
                            window_size: 0,
                            fin: false,
                            syn: false,
                            rst: true,
                            ack: false,
                        },
                    )
                }
            },
        }
    }
}

/// A SYN opens a connection in `SynReceived` whose send sequence space starts
/// at `iss` with the SYN counted, whose receive sequence space starts just
/// after the peer's SYN, and whose SYN+ACK carries `iss` and acknowledges the
/// peer's SYN.
pub proof fn lemma_accept_opens(iph: IpHeader, tcph: TcpHeader, iss: u32)
    requires
        tcph.syn,
    ensures
        accept_spec(iph, tcph, iss) matches Some((c, reply)) && c.state == State::SynReceived
            && c.send.iss == iss && c.send.una == c.send.iss && c.send.nxt == add32(c.send.iss, 1)
            && c.recv.nxt == add32(tcph.sequence_number, 1) && reply.syn && reply.ack
            && reply.acknowledgment_number == c.recv.nxt && reply.sequence_number == c.send.iss,
{
}

/// In `SynReceived`, an acceptable segment with ACK whose acknowledgment
/// number is `send.nxt` completes the handshake. (With `send.una == send.nxt`
/// no acknowledgment number is acceptable.)
pub proof fn lemma_handshake_completes(c: Connection, tcph: TcpHeader, data_len: int)
    requires
        0 <= data_len,
        c.state == State::SynReceived,
        c.send.una != c.send.nxt,
        tcph.ack,
        tcph.acknowledgment_number == c.send.nxt,
        seq_acceptable(c, tcph, seg_len(tcph, data_len)),
    ensures
        on_packet_spec(c, tcph, data_len).0.state == State::Established,
        on_packet_spec(c, tcph, data_len).1 is None,
{
}

/// The handshake as a peer completes it: after a SYN opens a connection, a
/// bare ACK of our SYN, sent from the next sequence number the peer owes,
/// moves the connection to `Established`.
pub proof fn lemma_handshake_after_accept(iph: IpHeader, syn: TcpHeader, iss: u32, ack: TcpHeader)
    requires
        syn.syn,
        ack.ack,
        !ack.syn,
        !ack.fin,
        ack.acknowledgment_number == add32(iss, 1),
        ack.sequence_number == add32(syn.sequence_number, 1),
    ensures
        accept_spec(iph, syn, iss) matches Some((c, _)) && on_packet_spec(c, ack, 0) == (
            Connection { state: State::Established, ..c },
            None::<TcpHeader>,
        ),
{
}

/// A segment whose acknowledgment number lies outside `(send.una, send.nxt]`
/// changes nothing and draws no reply.
pub proof fn lemma_unacceptable_ack_ignored(c: Connection, tcph: TcpHeader, data_len: int)
    requires
        !ack_acceptable(c, tcph.acknowledgment_number),
    ensures
        on_packet_spec(c, tcph, data_len) == (c, None::<TcpHeader>),
{
}

/// A bare acknowledgment (no payload, SYN or FIN) draws no reply, and
/// delivering it a second time changes nothing more.
pub proof fn lemma_ack_replay(c: Connection, tcph: TcpHeader)
    requires
        !tcph.syn,
        !tcph.fin,
    ensures
        on_packet_spec(c, tcph, 0).1 is None,
        on_packet_spec(on_packet_spec(c, tcph, 0).0, tcph, 0) == (on_packet_spec(c, tcph, 0).0, None::<TcpHeader>),
{
}

} // verus!
