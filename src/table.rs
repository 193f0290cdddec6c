//! The connection table: finds each inbound segment's connection by its flow
//! key, or opens one when the segment is a SYN.
use vstd::prelude::*;
use crate::tcp::{Connection, accept_spec, on_packet_spec};
use crate::wire::{
    IpHeader,
    TcpHeader,
    TCP_PROTOCOL,
    ipv4_parses,
    ipv4_read,
    ipv4_header_len,
    tcp_parses,
    tcp_read,
    tcp_header_len,
    parse_ipv4,
    parse_tcp,
};

verus! {

/// A flow key: source address and port, destination address and port.
#[derive(Clone, Copy, Debug, PartialEq, Eq, Structural, Hash)]
pub struct Quad {
    pub src_addr: u32,
    pub src_port: u16,
    pub dst_addr: u32,
    pub dst_port: u16,
}

/// The flow key of an inbound segment.
pub open spec fn quad_of(iph: IpHeader, tcph: TcpHeader) -> Quad {
    Quad {
        src_addr: iph.source,
        src_port: tcph.source_port,
        dst_addr: iph.destination,
        dst_port: tcph.destination_port,
    }
}

/// Some entry of `s` has the key `q`.
pub open spec fn has_key(s: Seq<(Quad, Connection)>, q: Quad) -> bool {
    exists|i: int| 0 <= i < s.len() && #[trigger] s[i].0 == q
}

/// The position of the entry with key `q`.
pub open spec fn key_index(s: Seq<(Quad, Connection)>, q: Quad) -> int {
    choose|i: int| 0 <= i < s.len() && #[trigger] s[i].0 == q
}

/// No two entries share a key.
pub open spec fn unique_keys(s: Seq<(Quad, Connection)>) -> bool {
    forall|i: int, j: int| 0 <= i < j < s.len() ==> #[trigger] s[i].0 != #[trigger] s[j].0
}

/// The table after one inbound segment with `data_len` bytes of payload, and
/// the reply to send with the IPv4 header that frames it. A segment of a
/// known flow goes to its connection. Where the connection answers with a
/// reset it is closed, and a closed flow has no entry: this is the one way an
/// entry leaves the table (idle or half-open flows are never evicted). A SYN of an unknown flow opens a connection with `iss` as its
/// initial send sequence number; any other segment of an unknown flow is
/// dropped.
pub open spec fn table_step(
    s: Seq<(Quad, Connection)>,
    iph: IpHeader,
    tcph: TcpHeader,
    data_len: int,
    iss: u32,
) -> (Seq<(Quad, Connection)>, Option<(IpHeader, TcpHeader)>) {
    let q = quad_of(iph, tcph);
    if has_key(s, q) {
        let i = key_index(s, q);
        let (c, out) = on_packet_spec(s[i].1, tcph, data_len);
        match out {
            None => (s.update(i, (q, c)), None),
            Some(rst) => (s.remove(i), Some((s[i].1.ip, rst))),
        }
    } else {
        match accept_spec(iph, tcph, iss) {
            None => (s, None),
            Some((c, syn_ack)) => (s.push((q, c)), Some((c.ip, syn_ack))),
        }
    }
}

/// Why an inbound datagram was dropped as malformed.
#[derive(Clone, Copy, Debug, PartialEq, Eq, Structural)]
pub enum FrameError {
    /// It does not start with a well-formed IPv4 header.
    BadIpv4Header,
    /// It carries TCP, but not a well-formed TCP header.
    BadTcpHeader,
}

/// The table after one inbound IPv4 datagram `f`, and the reply to send. A
/// malformed datagram changes nothing and is reported; one that does not
/// carry TCP changes nothing; otherwise its TCP segment is handled as
/// `table_step` says, with all that follows the TCP header as payload.
pub open spec fn frame_step(s: Seq<(Quad, Connection)>, f: Seq<u8>, iss: u32) -> (
    Seq<(Quad, Connection)>,
    Result<Option<(IpHeader, TcpHeader)>, FrameError>,
) {
    if !ipv4_parses(f) {
        (s, Err(FrameError::BadIpv4Header))
    } else if ipv4_read(f).protocol != TCP_PROTOCOL {
        (s, Ok(None))
    } else {
        let t = f.skip(ipv4_header_len(f));
        if !tcp_parses(t) {
            (s, Err(FrameError::BadTcpHeader))
        } else {
            let (s2, reply) = table_step(s, ipv4_read(f), tcp_read(t), t.len() - tcp_header_len(t), iss);
            (s2, Ok(reply))
        }
    }
}

/// The connections of all open flows, in the order they were opened.
pub struct Connections {
    entries: Vec<(Quad, Connection)>,
}

impl View for Connections {
    type V = Seq<(Quad, Connection)>;

    closed spec fn view(&self) -> Seq<(Quad, Connection)> {
        self.entries@
    }
}

impl Connections {
    /// Each flow has at most one connection, and each connection is well
    /// formed.
    pub open spec fn wf(&self) -> bool {
        &&& unique_keys(self@)
        &&& forall|i: int| 0 <= i < self@.len() ==> (#[trigger] self@[i]).1.wf()
    }

    /// An empty table.
    pub fn new() -> (r: Connections)
        ensures
            r@ == Seq::<(Quad, Connection)>::empty(),
            r.wf(),
    {
        Connections { entries: Vec::new() }
    }

    /// Number of open flows.
    pub fn len(&self) -> (r: usize)
        ensures
            r == self@.len(),
    {
        self.entries.len()
    }

    /// Position of the entry with key `q`, if any.
    fn find(&self, q: &Quad) -> (r: Option<usize>)
        requires
            self.wf(),
        ensures
            r is None <==> !has_key(self@, *q),
            r matches Some(i) ==> i == key_index(self@, *q) && i < self@.len(),
    {
        let mut i: usize = 0;
        while i < self.entries.len()
            invariant
                i <= self@.len(),
                self.wf(),
                self@ == self.entries@,
                forall|k: int| 0 <= k < i ==> #[trigger] self@[k].0 != *q,
            decreases self.entries.len() - i,
        {
            if self.entries[i].0 == *q {
                proof {
                    assert(self@[i as int].0 == *q);
                    assert(has_key(self@, *q));
                    let j = key_index(self@, *q);
                    assert(0 <= j < self@.len());
                    assert(self@[j].0 == *q);
                    if j != i {
                        if j < i {
                            assert(self@[j].0 != *q);
                        } else {
                            assert(self@[i as int].0 != self@[j].0);
                        }
                    }
                }
                return Some(i);
            }
            i += 1;
        }
        None
    }

    /// The connection of flow `q`, if it is open.
    pub fn get(&self, q: &Quad) -> (r: Option<Connection>)
        requires
            self.wf(),
        ensures
            r == (if has_key(self@, *q) {
                Some(self@[key_index(self@, *q)].1)
            } else {
                None
            }),
    {
        match self.find(q) {
            Some(i) => Some(self.entries[i].1),
            None => None,
        }
    }

    /// Handles one inbound segment with payload `data`: hands it to its
    /// flow's connection, or opens a connection for a SYN of an unknown flow
    /// with `iss` as the initial send sequence number. A connection that
    /// answers with a reset is closed and leaves the table. Returns the reply
    /// to send and the IPv4 header that frames it.
    pub fn on_segment(&mut self, iph: &IpHeader, tcph: &TcpHeader, data: &[u8], iss: u32) -> (r: Option<(IpHeader, TcpHeader)>)
        requires
            old(self).wf(),
        ensures
            (final(self)@, r) == table_step(old(self)@, *iph, *tcph, data@.len() as int, iss),
            final(self).wf(),
    {
        let q = Quad {
            src_addr: iph.source,
            src_port: tcph.source_port,
            dst_addr: iph.destination,
            dst_port: tcph.destination_port,
        };
        match self.find(&q) {
            Some(i) => {
                let mut c = self.entries[i].1;
                let ip = c.ip;
                match c.on_packet(iph, tcph, data) {
                    None => {
                        self.entries.set(i, (q, c));
                        proof {
                            assert(self@ =~= old(self)@.update(i as int, (q, c)));
                        }
                        None
                    },
                    Some(rst) => {
                        self.entries.remove(i);
                        proof {
                            assert(self@ =~= old(self)@.remove(i as int));
                        }
                        Some((ip, rst))
                    },
                }
            },
            None => {
                match Connection::accept(iph, tcph, data, iss) {
                    None => None,
                    Some((c, syn_ack)) => {
                        let ip = c.ip;
                        self.entries.push((q, c));
                        proof {
                            assert(self@ =~= old(self)@.push((q, c)));
                        }
                        Some((ip, syn_ack))
                    },
                }
            },
        }
    }

    /// Handles one inbound IPv4 datagram: parses its headers, reports it
    /// where it is malformed, ignores it where it does not carry TCP, and
    /// otherwise handles its segment as `on_segment` does. Returns the reply
    /// to send and the IPv4 header that frames it.
    pub fn on_frame(&mut self, frame: &[u8], iss: u32) -> (r: Result<Option<(IpHeader, TcpHeader)>, FrameError>)
        requires
            old(self).wf(),
        ensures
            (final(self)@, r) == frame_step(old(self)@, frame@, iss),
            final(self).wf(),
    {
        let (iph, ip_len) = match parse_ipv4(frame) {
            Some(p) => p,
            None => {
                return Err(FrameError::BadIpv4Header);
            },
        };
        if iph.protocol != TCP_PROTOCOL {
            return Ok(None);
        }
        let segment = &frame[ip_len..frame.len()];
        let (tcph, tcp_len) = match parse_tcp(segment) {
            Some(p) => p,
            None => {
                return Err(FrameError::BadTcpHeader);
            },
        };
        let data = &segment[tcp_len..segment.len()];
        proof {
            assert(segment@ =~= frame@.skip(ipv4_header_len(frame@)));
        }
        Ok(self.on_segment(&iph, &tcph, data, iss))
    }
}

/// A segment without SYN of an unknown flow opens no connection and draws no
/// reply.
pub proof fn lemma_unknown_flow_without_syn(
    s: Seq<(Quad, Connection)>,
    iph: IpHeader,
    tcph: TcpHeader,
    data_len: int,
    iss: u32,
)
    requires
        !has_key(s, quad_of(iph, tcph)),
        !tcph.syn,
    ensures
        table_step(s, iph, tcph, data_len, iss) == (s, None::<(IpHeader, TcpHeader)>),
{
}

} // verus!
