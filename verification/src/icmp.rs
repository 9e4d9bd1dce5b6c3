//! The ICMP echo handler: recognizing an echo request addressed to the
//! responder and synthesizing the echo reply, with both the IPv4 header
//! checksum and the ICMP checksum recomputed so that the reply re-sums to
//! all ones.

use vstd::prelude::*;
use crate::checksum::checksum16;
use crate::checksum::internet_checksum;
use crate::checksum::lemma_stored_checksum_validates;
use crate::checksum::sums_to_all_ones;
use crate::frame::ETHERTYPE_IPV4;
use crate::frame::IP_PROTO_ICMP;
use crate::frame::eth_dst;
use crate::frame::eth_sized;
use crate::frame::eth_src;
use crate::frame::eth_type;
use crate::frame::icmp_checksum;
use crate::frame::icmp_code;
use crate::frame::icmp_rest;
use crate::frame::icmp_sized;
use crate::frame::icmp_type;
use crate::frame::ipv4_checksum;
use crate::frame::ipv4_dst;
use crate::frame::ipv4_end;
use crate::frame::ipv4_ok;
use crate::frame::ipv4_protocol;
use crate::frame::ipv4_src;
use crate::frame::push_mac;
use crate::frame::push_range;
use crate::frame::read_be16;
use crate::frame::set_be16;

verus! {

/// An ICMP echo request addressed to `self_ip`: a well-formed IPv4 frame
/// carrying protocol 1 whose message is type EchoRequest (8) with code 0.
pub open spec fn is_echo_request_for(s: Seq<u8>, self_ip: Seq<u8>) -> bool {
    &&& eth_sized(s)
    &&& eth_type(s) == ETHERTYPE_IPV4
    &&& ipv4_ok(s)
    &&& ipv4_protocol(s) == IP_PROTO_ICMP
    &&& icmp_sized(s)
    &&& icmp_type(s) == 8
    &&& icmp_code(s) == 0
    &&& ipv4_dst(s) == self_ip
}

/// The reply's IPv4 header with its checksum field zeroed: the request's
/// header with source and destination swapped; what the stored header
/// checksum is computed over.
pub open spec fn echo_ip_header_zeroed(s: Seq<u8>) -> Seq<u8> {
    s.subrange(14, 24) + seq![0u8, 0u8] + ipv4_dst(s) + ipv4_src(s)
}

/// The reply's ICMP message with its checksum field zeroed: type EchoReply
/// (0), the request's code, and the request's identifier, sequence and data;
/// what the stored ICMP checksum is computed over.
pub open spec fn echo_icmp_zeroed(s: Seq<u8>) -> Seq<u8> {
    seq![0u8, s[35], 0u8, 0u8] + icmp_rest(s)
}

/// What the echo reply `r` to request `s` looks like, field by field: it is
/// as long as the request's declared frame (padding dropped), goes back to
/// `dst_mac` from `self_mac`, keeps the IPv4 header but swaps the addresses
/// and re-checksums it, turns the type into EchoReply, echoes identifier,
/// sequence and data verbatim, and both checksummed regions re-sum to all
/// ones.
pub open spec fn echo_reply_ok(r: Seq<u8>, s: Seq<u8>, self_mac: Seq<u8>, dst_mac: Seq<u8>) -> bool {
    &&& r.len() == ipv4_end(s)
    &&& eth_dst(r) == dst_mac
    &&& eth_src(r) == self_mac
    &&& eth_type(r) == ETHERTYPE_IPV4
    &&& r.subrange(14, 24) == s.subrange(14, 24)
    &&& ipv4_checksum(r) == checksum16(echo_ip_header_zeroed(s))
    &&& ipv4_src(r) == ipv4_dst(s)
    &&& ipv4_dst(r) == ipv4_src(s)
    &&& sums_to_all_ones(r.subrange(14, 34))
    &&& icmp_type(r) == 0
    &&& icmp_code(r) == icmp_code(s)
    &&& icmp_checksum(r) == checksum16(echo_icmp_zeroed(s))
    &&& r.subrange(38, ipv4_end(s)) == icmp_rest(s)
    &&& sums_to_all_ones(r.subrange(34, ipv4_end(s)))
}

/// Builds the echo reply to a well-formed echo request: swaps the IPv4
/// addresses, flips the type to EchoReply, echoes the payload, and stores
/// freshly computed checksums in both checksum fields.
pub fn build_echo_reply(f: &Vec<u8>, self_mac: &[u8; 6], dst_mac: &[u8; 6]) -> (r: Vec<u8>)
    requires
        ipv4_ok(f@),
        icmp_sized(f@),
    ensures
        echo_reply_ok(r@, f@, self_mac@, dst_mac@),
{
    let _n = f.len();
    let total_len = read_be16(f, 16);
    let end: usize = 14 + total_len as usize;
    let mut out: Vec<u8> = Vec::new();
    push_mac(&mut out, dst_mac);
    push_mac(&mut out, self_mac);
    out.push(0x08);
    out.push(0x00);
    push_range(&mut out, f, 14, 24);
    out.push(0);
    out.push(0);
    push_range(&mut out, f, 30, 34);
    push_range(&mut out, f, 26, 30);
    out.push(0);
    out.push(f[35]);
    out.push(0);
    out.push(0);
    push_range(&mut out, f, 38, end);
    let ghost built: Seq<u8> = out@;
    proof {
        assert(built.len() == end);
        assert(built.subrange(14, 34) =~= echo_ip_header_zeroed(f@));
        assert(built.subrange(14, 34)[10] == 0 && built.subrange(14, 34)[11] == 0);
    }
    let ip_ck = internet_checksum(&out, 14, 34);
    set_be16(&mut out, 24, ip_ck);
    let ghost after_ip: Seq<u8> = out@;
    proof {
        assert(after_ip =~= built.update(24, (ip_ck / 256) as u8).update(25, (ip_ck % 256) as u8));
        lemma_stored_checksum_validates(built.subrange(14, 34), 5);
        assert(after_ip.subrange(14, 34) =~= built.subrange(14, 34).update(
            10,
            (checksum16(built.subrange(14, 34)) / 256) as u8,
        ).update(11, (checksum16(built.subrange(14, 34)) % 256) as u8));
        assert(sums_to_all_ones(after_ip.subrange(14, 34)));
        assert(after_ip.subrange(34, end as int) =~= built.subrange(34, end as int));
        assert(after_ip.subrange(34, end as int) =~= echo_icmp_zeroed(f@));
        assert(after_ip.subrange(34, end as int)[2] == 0 && after_ip.subrange(34, end as int)[3]
            == 0);
    }
    let len = out.len();
    let icmp_ck = internet_checksum(&out, 34, len);
    set_be16(&mut out, 36, icmp_ck);
    proof {
        let fin = out@;
        assert(fin =~= after_ip.update(36, (icmp_ck / 256) as u8).update(
            37,
            (icmp_ck % 256) as u8,
        ));
        lemma_stored_checksum_validates(after_ip.subrange(34, end as int), 1);
        assert(fin.subrange(34, end as int) =~= after_ip.subrange(34, end as int).update(
            2,
            (checksum16(after_ip.subrange(34, end as int)) / 256) as u8,
        ).update(3, (checksum16(after_ip.subrange(34, end as int)) % 256) as u8));
        assert(sums_to_all_ones(fin.subrange(34, end as int)));
        assert(fin.subrange(14, 34) =~= after_ip.subrange(14, 34));
        assert(sums_to_all_ones(fin.subrange(14, 34)));
        assert(fin.subrange(14, 24) =~= f@.subrange(14, 24));
        assert(ipv4_src(fin) =~= ipv4_dst(f@));
        assert(ipv4_dst(fin) =~= ipv4_src(f@));
        assert(eth_dst(fin) =~= dst_mac@);
        assert(eth_src(fin) =~= self_mac@);
        assert(fin.subrange(38, ipv4_end(f@)) =~= icmp_rest(f@));
        assert(ipv4_checksum(fin) == checksum16(echo_ip_header_zeroed(f@)));
        assert(icmp_checksum(fin) == checksum16(echo_icmp_zeroed(f@)));
    }
    out
}

} // verus!
