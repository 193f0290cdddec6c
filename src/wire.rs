//! Header fields as plain values, and their encoding on the wire through
//! etherparse's serializers and checksums.
use vstd::prelude::*;

verus! {

/// The IPv4 header fields that this endpoint reads and writes. Addresses
/// hold the four octets of a dotted quad, most significant first.
#[derive(Clone, Copy, Debug, PartialEq, Eq, Structural)]
pub struct IpHeader {
    pub source: u32,
    pub destination: u32,
    pub protocol: u8,
    pub time_to_live: u8,
    pub payload_len: u16,
}

/// The TCP header fields that this endpoint reads and writes (no options).
#[derive(Clone, Copy, Debug, PartialEq, Eq, Structural)]
pub struct TcpHeader {
    pub source_port: u16,
    pub destination_port: u16,
    pub sequence_number: u32,
    pub acknowledgment_number: u32,
    pub window_size: u16,
    pub fin: bool,
    pub syn: bool,
    pub rst: bool,
    pub ack: bool,
}

/// IP protocol number of TCP.
pub const TCP_PROTOCOL: u8 = 6;

/// Length in bytes of an IPv4 header without options.
pub const IPV4_HEADER_LEN: u16 = 20;

/// Length in bytes of a TCP header without options.
pub const TCP_HEADER_LEN: u16 = 20;

/// Largest IPv4 payload length that fits the total-length field.
pub const IPV4_MAX_PAYLOAD_LEN: u16 = 65515;

/// A 16-bit value in network byte order.
pub open spec fn be16(v: u16) -> Seq<u8> {
    seq![(v / 0x100) as u8, (v % 0x100) as u8]
}

/// A 32-bit value in network byte order.
pub open spec fn be32(v: u32) -> Seq<u8> {
    be16((v / 0x10000) as u16) + be16((v % 0x10000) as u16)
}

/// An IPv4 header without options as it stands on the wire, with the given
/// header checksum: version 4, header length 5 words, no DSCP or ECN,
/// identification 0, "don't fragment" set, fragment offset 0.
pub open spec fn ipv4_wire(h: IpHeader, checksum: u16) -> Seq<u8> {
    seq![0x45u8, 0u8] + be16((h.payload_len + IPV4_HEADER_LEN) as u16) + seq![
        0u8,
        0u8,
        0x40u8,
        0u8,
        h.time_to_live,
        h.protocol,
    ] + be16(checksum) + be32(h.source) + be32(h.destination)
}

/// The flags octet of a TCP header.
pub open spec fn tcp_flags(h: TcpHeader) -> u8 {
    ((if h.fin { 1int } else { 0 }) + (if h.syn { 2int } else { 0 }) + (if h.rst { 4int } else { 0 })
        + (if h.ack { 16int } else { 0 })) as u8
}

/// A TCP header without options as it stands on the wire, with the given
/// checksum and a zero urgent pointer.
pub open spec fn tcp_wire(h: TcpHeader, checksum: u16) -> Seq<u8> {
    be16(h.source_port) + be16(h.destination_port) + be32(h.sequence_number) + be32(
        h.acknowledgment_number,
    ) + seq![0x50u8, tcp_flags(h)] + be16(h.window_size) + be16(checksum) + seq![0u8, 0u8]
}

/// The internet checksum of an IPv4 header, given with a zero checksum field.
pub uninterp spec fn ipv4_checksum_of(header: Seq<u8>) -> u16;

/// The TCP checksum over the IPv4 pseudo-header of `source` and
/// `destination` and the segment, given with a zero checksum field.
pub uninterp spec fn tcp_checksum_of(source: u32, destination: u32, segment: Seq<u8>) -> u16;

#[verifier::external_type_specification]
#[verifier::external_body]
pub struct ExValueError(etherparse::ValueError);

#[verifier::external_type_specification]
#[verifier::external_body]
pub struct ExWriteError(etherparse::WriteError);

#[verifier::external_type_specification]
#[verifier::external_body]
pub struct ExIoError(std::io::Error);

/// Relies on etherparse::TcpHeader::calc_checksum_ipv4_raw: the checksum of a
/// header without options and an empty payload; it fails only where header
/// and payload exceed 65535 bytes, which 20 bytes never do.
#[verifier::external_body]
fn tcp_checksum(ip: &IpHeader, h: &TcpHeader) -> (r: Result<u16, etherparse::ValueError>)
    ensures
        r is Ok,
        r->Ok_0 == tcp_checksum_of(ip.source, ip.destination, tcp_wire(*h, 0)),
{
    let mut t = etherparse::TcpHeader::new(h.source_port, h.destination_port, h.sequence_number, h.window_size);
    t.acknowledgment_number = h.acknowledgment_number;
    t.fin = h.fin;
    t.syn = h.syn;
    t.rst = h.rst;
    t.ack = h.ack;
    t.calc_checksum_ipv4_raw(ip.source.to_be_bytes(), ip.destination.to_be_bytes(), &[])
}

/// Relies on etherparse::Ipv4Header::write: it checks the field ranges (here
/// only the payload length can be out of range: `Ipv4Header::new` fixes the
/// others), computes the header checksum and writes the 20 header bytes into
/// a `Vec`, which appends and cannot fail.
#[verifier::external_body]
fn ipv4_header_bytes(ip: &IpHeader) -> (r: Result<Vec<u8>, etherparse::WriteError>)
    ensures
        r is Ok ==> r->Ok_0@ == ipv4_wire(*ip, ipv4_checksum_of(ipv4_wire(*ip, 0))),
        r is Ok <==> ip.payload_len <= IPV4_MAX_PAYLOAD_LEN,
{
    let mut h = etherparse::Ipv4Header::new(
        ip.payload_len,
        ip.time_to_live,
        etherparse::IpNumber::Tcp,
        ip.source.to_be_bytes(),
        ip.destination.to_be_bytes(),
    );
    h.protocol = ip.protocol;
    let mut v: Vec<u8> = Vec::new();
    h.write(&mut v).map(|_| v)
}

/// Relies on etherparse::TcpHeader::write: it writes the 20 header bytes with
/// the checksum field as given, and fails only where the writer fails; a
/// `Vec` appends and cannot fail.
#[verifier::external_body]
fn tcp_header_bytes(h: &TcpHeader, checksum: u16) -> (r: Result<Vec<u8>, std::io::Error>)
    ensures
        r is Ok,
        r->Ok_0@ == tcp_wire(*h, checksum),
{
    let mut t = etherparse::TcpHeader::new(h.source_port, h.destination_port, h.sequence_number, h.window_size);
    t.acknowledgment_number = h.acknowledgment_number;
    t.fin = h.fin;
    t.syn = h.syn;
    t.rst = h.rst;
    t.ack = h.ack;
    t.checksum = checksum;
    let mut v: Vec<u8> = Vec::new();
    t.write(&mut v).map(|_| v)
}

/// The datagram that carries `tcp` (with no payload) inside an IPv4 header
/// built from `ip`, both checksums filled in. `None` exactly where the IPv4
/// header cannot encode the payload length (above 65515).
pub fn encode(ip: &IpHeader, tcp: &TcpHeader) -> (r: Option<Vec<u8>>)
    ensures
        r is Some ==> r->Some_0@ == ipv4_wire(*ip, ipv4_checksum_of(ipv4_wire(*ip, 0))) + tcp_wire(
            *tcp,
            tcp_checksum_of(ip.source, ip.destination, tcp_wire(*tcp, 0)),
        ),
        r is None <==> ip.payload_len > IPV4_MAX_PAYLOAD_LEN,
{
    let checksum = tcp_checksum(ip, tcp).unwrap();
    let mut out = match ipv4_header_bytes(ip) {
        Ok(v) => v,
        Err(_) => {
            return None;
        },
    };
    let mut t = tcp_header_bytes(tcp, checksum).unwrap();
    out.append(&mut t);
    Some(out)
}

/// A 16-bit big-endian value read at byte `i` of `f`.
pub open spec fn be16_at(f: Seq<u8>, i: int) -> int {
    f[i] as int * 0x100 + f[i + 1] as int
}

/// A 32-bit big-endian value read at byte `i` of `f`.
pub open spec fn be32_at(f: Seq<u8>, i: int) -> int {
    be16_at(f, i) * 0x10000 + be16_at(f, i + 2)
}

/// Bit `bit` (a power of two) is set in `b`.
pub open spec fn flag(b: u8, bit: int) -> bool {
    (b as int / bit) % 2 == 1
}

/// Length in bytes of the IPv4 header at the front of `f`, options included.
pub open spec fn ipv4_header_len(f: Seq<u8>) -> int {
    (f[0] % 16) as int * 4
}

/// `f` starts with a well-formed IPv4 header: version 4, a header length of
/// at least 5 words that `f` holds, and a total length that covers the header.
pub open spec fn ipv4_parses(f: Seq<u8>) -> bool {
    &&& f.len() >= IPV4_HEADER_LEN
    &&& f[0] / 16 == 4
    &&& f[0] % 16 >= 5
    &&& f.len() >= ipv4_header_len(f)
    &&& be16_at(f, 2) >= ipv4_header_len(f)
}

/// The fields of the IPv4 header at the front of `f`.
pub open spec fn ipv4_read(f: Seq<u8>) -> IpHeader {
    IpHeader {
        source: be32_at(f, 12) as u32,
        destination: be32_at(f, 16) as u32,
        protocol: f[9],
        time_to_live: f[8],
        payload_len: (be16_at(f, 2) - ipv4_header_len(f)) as u16,
    }
}

/// Length in bytes of the TCP header at the front of `f`, options included.
pub open spec fn tcp_header_len(f: Seq<u8>) -> int {
    (f[12] / 16) as int * 4
}

/// `f` starts with a well-formed TCP header: a data offset of at least 5
/// words that `f` holds.
pub open spec fn tcp_parses(f: Seq<u8>) -> bool {
    &&& f.len() >= TCP_HEADER_LEN
    &&& f[12] / 16 >= 5
    &&& f.len() >= tcp_header_len(f)
}

/// The fields of the TCP header at the front of `f`.
pub open spec fn tcp_read(f: Seq<u8>) -> TcpHeader {
    TcpHeader {
        source_port: be16_at(f, 0) as u16,
        destination_port: be16_at(f, 2) as u16,
        sequence_number: be32_at(f, 4) as u32,
        acknowledgment_number: be32_at(f, 8) as u32,
        window_size: be16_at(f, 14) as u16,
        fin: flag(f[13], 1),
        syn: flag(f[13], 2),
        rst: flag(f[13], 4),
        ack: flag(f[13], 16),
    }
}

/// Relies on etherparse::Ipv4HeaderSlice::from_slice, which checks the length,
/// version, header length and total length, and on the slice's accessors,
/// which read the fields at their fixed offsets.
#[verifier::external_body]
pub(crate) fn parse_ipv4(frame: &[u8]) -> (r: Option<(IpHeader, usize)>)
    ensures
        r is Some <==> ipv4_parses(frame@),
        r is Some ==> r->Some_0.0 == ipv4_read(frame@) && r->Some_0.1 == ipv4_header_len(frame@),
{
    let h = etherparse::Ipv4HeaderSlice::from_slice(frame).ok()?;
    let (source, destination) = (u32::from_be_bytes(h.source()), u32::from_be_bytes(h.destination()));
    let (protocol, time_to_live, payload_len) = (h.protocol(), h.ttl(), h.payload_len());
    Some((IpHeader { source, destination, protocol, time_to_live, payload_len }, h.slice().len()))
}

/// Relies on etherparse::TcpHeaderSlice::from_slice, which checks the length
/// and data offset, and on the slice's accessors, which read the fields at
/// their fixed offsets.
#[verifier::external_body]
pub(crate) fn parse_tcp(segment: &[u8]) -> (r: Option<(TcpHeader, usize)>)
    ensures
        r is Some <==> tcp_parses(segment@),
        r is Some ==> r->Some_0.0 == tcp_read(segment@) && r->Some_0.1 == tcp_header_len(segment@),
{
    let h = etherparse::TcpHeaderSlice::from_slice(segment).ok()?;
    let t = TcpHeader {
        source_port: h.source_port(),
        destination_port: h.destination_port(),
        sequence_number: h.sequence_number(),
        acknowledgment_number: h.acknowledgment_number(),
        window_size: h.window_size(),
        fin: h.fin(),
        syn: h.syn(),
        rst: h.rst(),
        ack: h.ack(),
    };
    Some((t, h.slice().len()))
}

} // verus!
