//! The frame codec: fixed-offset, big-endian field access into a raw
//! Ethernet frame held as a byte vector, validity predicates for the nested
//! ARP, IPv4, ICMP and UDP headers, and the small read and write helpers the
//! protocol handlers build replies with.
//!
//! Offsets are absolute within the frame: the Ethernet header occupies bytes
//! 0..14, an ARP payload 14..42, an IPv4 header 14..34 (no options), and the
//! IPv4 payload starts at 34.

use vstd::prelude::*;

verus! {

/// Ethertype of ARP.
pub const ETHERTYPE_ARP: u16 = 0x0806;

/// Ethertype of IPv4.
pub const ETHERTYPE_IPV4: u16 = 0x0800;

/// IPv4 protocol number of ICMP.
pub const IP_PROTO_ICMP: u8 = 1;

/// IPv4 protocol number of UDP.
pub const IP_PROTO_UDP: u8 = 17;

/// Why a frame was refused: shorter than the headers it declares, or a
/// structurally sound header of the wrong protocol variant.
#[derive(Debug, PartialEq, Eq, Structural, Clone, Copy)]
pub enum FrameError {
    Malformed,
    WrongKind,
}

/// The 16-bit big-endian field at byte offset `i`.
pub open spec fn be16(s: Seq<u8>, i: int) -> int {
    256 * (s[i] as int) + (s[i + 1] as int)
}

/// The 32-bit big-endian value of the four bytes at offset `i`; IPv4
/// addresses are compared and cached under this key.
pub open spec fn be32(s: Seq<u8>, i: int) -> int {
    0x1000000 * (s[i] as int) + 0x10000 * (s[i + 1] as int) + 256 * (s[i + 2] as int) + (s[i
        + 3] as int)
}

/// Whether the six bytes at offset `i` are the broadcast MAC address.
pub open spec fn is_broadcast_mac(s: Seq<u8>, i: int) -> bool {
    forall|k: int| i <= k < i + 6 ==> s[k] == 0xFF
}

// Ethernet header fields.
pub open spec fn eth_dst(s: Seq<u8>) -> Seq<u8> {
    s.subrange(0, 6)
}

pub open spec fn eth_src(s: Seq<u8>) -> Seq<u8> {
    s.subrange(6, 12)
}

pub open spec fn eth_type(s: Seq<u8>) -> int {
    be16(s, 12)
}

/// A buffer long enough to hold an Ethernet header at all.
pub open spec fn eth_sized(s: Seq<u8>) -> bool {
    s.len() >= 14
}

// ARP message fields (absolute offsets; the payload is bytes 14..42).
pub open spec fn arp_sized(s: Seq<u8>) -> bool {
    s.len() >= 42
}

/// The ARP hardware/protocol address-type fields that mark an
/// Ethernet/IPv4 message; anything else is a different kind of ARP.
pub open spec fn arp_kind_ethernet_ipv4(s: Seq<u8>) -> bool {
    be16(s, 14) == 1 && be16(s, 16) == ETHERTYPE_IPV4 && s[18] == 6 && s[19] == 4
}

pub open spec fn arp_oper(s: Seq<u8>) -> int {
    be16(s, 20)
}

pub open spec fn arp_sha(s: Seq<u8>) -> Seq<u8> {
    s.subrange(22, 28)
}

pub open spec fn arp_spa(s: Seq<u8>) -> Seq<u8> {
    s.subrange(28, 32)
}

pub open spec fn arp_tha(s: Seq<u8>) -> Seq<u8> {
    s.subrange(32, 38)
}

pub open spec fn arp_tpa(s: Seq<u8>) -> Seq<u8> {
    s.subrange(38, 42)
}

/// An ARP probe carries the unspecified sender IP 0.0.0.0 and must never be
/// learned into the cache.
pub open spec fn arp_is_probe(s: Seq<u8>) -> bool {
    be32(s, 28) == 0
}

// IPv4 header fields (the header is bytes 14..34, no options).
pub open spec fn ipv4_total_len(s: Seq<u8>) -> int {
    be16(s, 16)
}

pub open spec fn ipv4_protocol(s: Seq<u8>) -> int {
    s[23] as int
}

pub open spec fn ipv4_checksum(s: Seq<u8>) -> int {
    be16(s, 24)
}

pub open spec fn ipv4_src(s: Seq<u8>) -> Seq<u8> {
    s.subrange(26, 30)
}

pub open spec fn ipv4_dst(s: Seq<u8>) -> Seq<u8> {
    s.subrange(30, 34)
}

/// A well-formed IPv4 frame: room for the 20-byte header, the fixed
/// version/header-length byte 0x45 (version 4, no options), and a declared
/// total length that covers the header and lies within the buffer.
pub open spec fn ipv4_ok(s: Seq<u8>) -> bool {
    &&& s.len() >= 34
    &&& s[14] == 0x45
    &&& ipv4_total_len(s) >= 20
    &&& 14 + ipv4_total_len(s) <= s.len()
}

/// Where the IPv4 payload ends: the declared frame end, padding excluded.
pub open spec fn ipv4_end(s: Seq<u8>) -> int {
    14 + ipv4_total_len(s)
}

// ICMP message fields (the message is bytes 34..ipv4_end).
pub open spec fn icmp_sized(s: Seq<u8>) -> bool {
    ipv4_total_len(s) >= 24
}

pub open spec fn icmp_type(s: Seq<u8>) -> int {
    s[34] as int
}

pub open spec fn icmp_code(s: Seq<u8>) -> int {
    s[35] as int
}

pub open spec fn icmp_checksum(s: Seq<u8>) -> int {
    be16(s, 36)
}

/// The identifier, sequence number and data of an echo message: everything
/// after the type, code and checksum, echoed back verbatim in a reply.
pub open spec fn icmp_rest(s: Seq<u8>) -> Seq<u8> {
    s.subrange(38, ipv4_end(s))
}

// UDP header fields (the header is bytes 34..42).
pub open spec fn udp_src_port(s: Seq<u8>) -> int {
    be16(s, 34)
}

pub open spec fn udp_dst_port(s: Seq<u8>) -> int {
    be16(s, 36)
}

pub open spec fn udp_len(s: Seq<u8>) -> int {
    be16(s, 38)
}

pub open spec fn udp_checksum(s: Seq<u8>) -> int {
    be16(s, 40)
}

/// A well-formed UDP frame: room for the 8-byte header, and a declared UDP
/// length that covers the header and agrees with the IPv4 total length.
pub open spec fn udp_ok(s: Seq<u8>) -> bool {
    &&& ipv4_total_len(s) >= 28
    &&& udp_len(s) == ipv4_total_len(s) - 20
}

/// The UDP payload: bytes 42..ipv4_end.
pub open spec fn udp_payload(s: Seq<u8>) -> Seq<u8> {
    s.subrange(42, ipv4_end(s))
}

/// A parsed Ethernet header.
#[derive(Debug, PartialEq, Eq)]
pub struct EthernetHeader {
    pub dst: [u8; 6],
    pub src: [u8; 6],
    pub ethertype: u16,
}

/// A parsed ARP message, already narrowed to the Ethernet/IPv4 kind.
#[derive(Debug, PartialEq, Eq)]
pub struct ArpMessage {
    pub oper: u16,
    pub sha: [u8; 6],
    pub spa: [u8; 4],
    pub tha: [u8; 6],
    pub tpa: [u8; 4],
}

/// A parsed IPv4 header.
#[derive(Debug, PartialEq, Eq)]
pub struct Ipv4Header {
    pub total_len: u16,
    pub protocol: u8,
    pub checksum: u16,
    pub src: [u8; 4],
    pub dst: [u8; 4],
}

/// A parsed ICMP message head; the echo payload stays in the frame.
#[derive(Debug, PartialEq, Eq)]
pub struct IcmpMessage {
    pub mtype: u8,
    pub code: u8,
    pub checksum: u16,
}

/// A parsed UDP header; the payload stays in the frame.
#[derive(Debug, PartialEq, Eq)]
pub struct UdpHeader {
    pub src_port: u16,
    pub dst_port: u16,
    pub length: u16,
    pub checksum: u16,
}

/// Reads the 16-bit big-endian field at offset `i`.
pub fn read_be16(v: &Vec<u8>, i: usize) -> (r: u16)
    requires
        i + 2 <= v@.len(),
    ensures
        r as int == be16(v@, i as int),
{
    let _n = v.len();
    256 * (v[i] as u16) + (v[i + 1] as u16)
}

/// Reads the four bytes at offset `i` as a big-endian 32-bit value.
pub fn read_be32(v: &Vec<u8>, i: usize) -> (r: u32)
    requires
        i + 4 <= v@.len(),
    ensures
        r as int == be32(v@, i as int),
{
    let _n = v.len();
    0x1000000 * (v[i] as u32) + 0x10000 * (v[i + 1] as u32) + 256 * (v[i + 2] as u32) + (v[i
        + 3] as u32)
}

/// Copies the six bytes at offset `i` out as a MAC address.
pub fn read_mac(v: &Vec<u8>, i: usize) -> (r: [u8; 6])
    requires
        i + 6 <= v@.len(),
    ensures
        r@ == v@.subrange(i as int, i as int + 6),
{
    let _n = v.len();
    let r: [u8; 6] = [v[i], v[i + 1], v[i + 2], v[i + 3], v[i + 4], v[i + 5]];
    proof {
        assert(r@ =~= v@.subrange(i as int, i as int + 6));
    }
    r
}

/// Copies the four bytes at offset `i` out as an IPv4 address.
pub fn read_ip(v: &Vec<u8>, i: usize) -> (r: [u8; 4])
    requires
        i + 4 <= v@.len(),
    ensures
        r@ == v@.subrange(i as int, i as int + 4),
{
    let _n = v.len();
    let r: [u8; 4] = [v[i], v[i + 1], v[i + 2], v[i + 3]];
    proof {
        assert(r@ =~= v@.subrange(i as int, i as int + 4));
    }
    r
}

/// Whether the six bytes at offset `i` are the broadcast MAC.
pub fn broadcast_mac_at(v: &Vec<u8>, i: usize) -> (r: bool)
    requires
        i + 6 <= v@.len(),
    ensures
        r == is_broadcast_mac(v@, i as int),
{
    let _n = v.len();
    let r = v[i] == 0xFF && v[i + 1] == 0xFF && v[i + 2] == 0xFF && v[i + 3] == 0xFF && v[i + 4]
        == 0xFF && v[i + 5] == 0xFF;
    proof {
        if r {
            assert forall|k: int| i <= k < i + 6 implies v@[k] == 0xFF by {
                assert(v@[i as int] == 0xFF && v@[i as int + 1] == 0xFF && v@[i as int + 2] == 0xFF
                    && v@[i as int + 3] == 0xFF && v@[i as int + 4] == 0xFF && v@[i as int + 5]
                    == 0xFF);
            }
        }
    }
    r
}

/// Appends a 16-bit value, big-endian, to a frame being built.
pub fn push_be16(v: &mut Vec<u8>, x: u16)
    ensures
        final(v)@ == old(v)@ + seq![(x / 256) as u8, (x % 256) as u8],
{
    v.push((x / 256) as u8);
    v.push((x % 256) as u8);
    proof {
        assert(final(v)@ =~= old(v)@ + seq![(x / 256) as u8, (x % 256) as u8]);
    }
}

/// Appends `v[a..b]` of a source buffer to a frame being built.
pub fn push_range(out: &mut Vec<u8>, src: &Vec<u8>, a: usize, b: usize)
    requires
        a <= b,
        b <= src@.len(),
    ensures
        final(out)@ == old(out)@ + src@.subrange(a as int, b as int),
{
    let mut i: usize = a;
    while i < b
        invariant
            a <= i <= b,
            b <= src@.len(),
            out@ == old(out)@ + src@.subrange(a as int, i as int),
        decreases b - i,
    {
        out.push(src[i]);
        proof {
            assert(out@ =~= old(out)@ + src@.subrange(a as int, i as int + 1));
        }
        i = i + 1;
    }
    proof {
        assert(out@ =~= old(out)@ + src@.subrange(a as int, b as int));
    }
}

/// Appends a MAC address to a frame being built.
pub fn push_mac(out: &mut Vec<u8>, mac: &[u8; 6])
    ensures
        final(out)@ == old(out)@ + mac@,
{
    out.push(mac[0]);
    out.push(mac[1]);
    out.push(mac[2]);
    out.push(mac[3]);
    out.push(mac[4]);
    out.push(mac[5]);
    proof {
        assert(final(out)@ =~= old(out)@ + mac@);
    }
}

/// Appends an IPv4 address to a frame being built.
pub fn push_ip(out: &mut Vec<u8>, ip: &[u8; 4])
    ensures
        final(out)@ == old(out)@ + ip@,
{
    out.push(ip[0]);
    out.push(ip[1]);
    out.push(ip[2]);
    out.push(ip[3]);
    proof {
        assert(final(out)@ =~= old(out)@ + ip@);
    }
}

/// Parses the Ethernet header, failing on a buffer shorter than 14 bytes.
pub fn parse_ethernet(f: &Vec<u8>) -> (r: Result<EthernetHeader, FrameError>)
    ensures
        r is Ok <==> eth_sized(f@),
        r matches Ok(h) ==> h.dst@ == eth_dst(f@) && h.src@ == eth_src(f@) && h.ethertype as int
            == eth_type(f@),
        r matches Err(e) ==> e == FrameError::Malformed,
{
    if f.len() < 14 {
        return Err(FrameError::Malformed);
    }
    Ok(
        EthernetHeader {
            dst: read_mac(f, 0),
            src: read_mac(f, 6),
            ethertype: read_be16(f, 12),
        },
    )
}

/// Parses an ARP message and narrows it to the Ethernet/IPv4 kind; a buffer
/// too short for the 28-byte payload is malformed, and other address types
/// are the wrong kind.
pub fn parse_arp(f: &Vec<u8>) -> (r: Result<ArpMessage, FrameError>)
    ensures
        r is Ok <==> arp_sized(f@) && arp_kind_ethernet_ipv4(f@),
        r matches Ok(m) ==> m.oper as int == arp_oper(f@) && m.sha@ == arp_sha(f@) && m.spa@
            == arp_spa(f@) && m.tha@ == arp_tha(f@) && m.tpa@ == arp_tpa(f@),
        r matches Err(e) ==> (e == FrameError::Malformed <==> !arp_sized(f@)),
{
    if f.len() < 42 {
        return Err(FrameError::Malformed);
    }
    if !(read_be16(f, 14) == 1 && read_be16(f, 16) == ETHERTYPE_IPV4 && f[18] == 6 && f[19] == 4) {
        return Err(FrameError::WrongKind);
    }
    Ok(
        ArpMessage {
            oper: read_be16(f, 20),
            sha: read_mac(f, 22),
            spa: read_ip(f, 28),
            tha: read_mac(f, 32),
            tpa: read_ip(f, 38),
        },
    )
}

/// Parses the IPv4 header: malformed when the buffer or the declared total
/// length cannot hold it, the wrong kind when the version/header-length byte
/// is not 0x45.
pub fn parse_ipv4(f: &Vec<u8>) -> (r: Result<Ipv4Header, FrameError>)
    ensures
        r is Ok <==> ipv4_ok(f@),
        r matches Ok(h) ==> h.total_len as int == ipv4_total_len(f@) && h.protocol as int
            == ipv4_protocol(f@) && h.checksum as int == ipv4_checksum(f@) && h.src@ == ipv4_src(
            f@,
        ) && h.dst@ == ipv4_dst(f@),
        r matches Err(e) ==> (e == FrameError::WrongKind <==> f@.len() >= 34 && f@[14] != 0x45),
{
    if f.len() < 34 {
        return Err(FrameError::Malformed);
    }
    if f[14] != 0x45 {
        return Err(FrameError::WrongKind);
    }
    let total_len = read_be16(f, 16);
    if total_len < 20 || (total_len as usize) > f.len() - 14 {
        return Err(FrameError::Malformed);
    }
    Ok(
        Ipv4Header {
            total_len,
            protocol: f[23],
            checksum: read_be16(f, 24),
            src: read_ip(f, 26),
            dst: read_ip(f, 30),
        },
    )
}

/// Parses the head of the ICMP message inside a well-formed IPv4 frame;
/// malformed when the IPv4 payload cannot hold the four fixed bytes.
pub fn parse_icmp(f: &Vec<u8>) -> (r: Result<IcmpMessage, FrameError>)
    requires
        ipv4_ok(f@),
    ensures
        r is Ok <==> icmp_sized(f@),
        r matches Ok(m) ==> m.mtype as int == icmp_type(f@) && m.code as int == icmp_code(f@)
            && m.checksum as int == icmp_checksum(f@),
        r matches Err(e) ==> e == FrameError::Malformed,
{
    let total_len = read_be16(f, 16);
    if total_len < 24 {
        return Err(FrameError::Malformed);
    }
    Ok(IcmpMessage { mtype: f[34], code: f[35], checksum: read_be16(f, 36) })
}

/// Parses the UDP header inside a well-formed IPv4 frame; malformed when
/// the payload cannot hold it or the declared UDP length disagrees with the
/// IPv4 total length.
pub fn parse_udp(f: &Vec<u8>) -> (r: Result<UdpHeader, FrameError>)
    requires
        ipv4_ok(f@),
    ensures
        r is Ok <==> udp_ok(f@),
        r matches Ok(h) ==> h.src_port as int == udp_src_port(f@) && h.dst_port as int
            == udp_dst_port(f@) && h.length as int == udp_len(f@) && h.checksum as int
            == udp_checksum(f@),
        r matches Err(e) ==> e == FrameError::Malformed,
{
    let total_len = read_be16(f, 16);
    if total_len < 28 {
        return Err(FrameError::Malformed);
    }
    let length = read_be16(f, 38);
    if length != total_len - 20 {
        return Err(FrameError::Malformed);
    }
    Ok(
        UdpHeader {
            src_port: read_be16(f, 34),
            dst_port: read_be16(f, 36),
            length,
            checksum: read_be16(f, 40),
        },
    )
}

/// Compares two IPv4 addresses for equality.
pub fn ips_eq(a: &[u8; 4], b: &[u8; 4]) -> (r: bool)
    ensures
        r == (a@ == b@),
{
    let r = a[0] == b[0] && a[1] == b[1] && a[2] == b[2] && a[3] == b[3];
    proof {
        if r {
            assert(a@ =~= b@);
        } else {
            if a@ == b@ {
                assert(a@[0] == b@[0] && a@[1] == b@[1] && a@[2] == b@[2] && a@[3] == b@[3]);
            }
        }
    }
    r
}

/// Compares two byte buffers for equality.
pub fn bytes_eq(a: &Vec<u8>, b: &Vec<u8>) -> (r: bool)
    ensures
        r == (a@ == b@),
{
    let n = a.len();
    if n != b.len() {
        proof {
            assert(a@.len() != b@.len());
        }
        return false;
    }
    let mut i: usize = 0;
    while i < n
        invariant
            0 <= i <= n,
            n == a@.len(),
            n == b@.len(),
            forall|j: int| 0 <= j < i ==> a@[j] == b@[j],
        decreases n - i,
    {
        if a[i] != b[i] {
            proof {
                assert(a@[i as int] != b@[i as int]);
            }
            return false;
        }
        i = i + 1;
    }
    proof {
        assert(a@ =~= b@);
    }
    true
}

/// Overwrites the 16-bit big-endian field at offset `i`.
pub fn set_be16(v: &mut Vec<u8>, i: usize, x: u16)
    requires
        i + 2 <= old(v)@.len(),
    ensures
        final(v)@ == old(v)@.update(i as int, (x / 256) as u8).update(
            i as int + 1,
            (x % 256) as u8,
        ),
{
    let _n = v.len();
    v.set(i, (x / 256) as u8);
    v.set(i + 1, (x % 256) as u8);
}

/// Shortens a frame to `n` bytes, dropping trailing padding; used when a
/// reply is shorter than the buffer that carries it.
pub fn truncate_frame(v: &mut Vec<u8>, n: usize)
    requires
        n <= old(v)@.len(),
    ensures
        final(v)@ == old(v)@.subrange(0, n as int),
{
    v.truncate(n);
}

} // verus!
