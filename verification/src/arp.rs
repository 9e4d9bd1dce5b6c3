//! The ARP handler: recognizing an address-resolution request addressed to
//! the responder and synthesizing the 42-byte reply frame.

use vstd::prelude::*;
use crate::frame::ETHERTYPE_ARP;
use crate::frame::ETHERTYPE_IPV4;
use crate::frame::arp_kind_ethernet_ipv4;
use crate::frame::arp_oper;
use crate::frame::arp_sha;
use crate::frame::arp_sized;
use crate::frame::arp_spa;
use crate::frame::arp_tha;
use crate::frame::arp_tpa;
use crate::frame::eth_dst;
use crate::frame::eth_sized;
use crate::frame::eth_src;
use crate::frame::eth_type;
use crate::frame::push_ip;
use crate::frame::push_mac;

verus! {

/// A well-formed ARP request whose target protocol address is `self_ip`:
/// exactly the frames the responder answers.
pub open spec fn is_arp_request_for(s: Seq<u8>, self_ip: Seq<u8>) -> bool {
    &&& eth_sized(s)
    &&& eth_type(s) == ETHERTYPE_ARP
    &&& arp_sized(s)
    &&& arp_kind_ethernet_ipv4(s)
    &&& arp_oper(s) == 1
    &&& arp_tpa(s) == self_ip
}

/// The reply frame to an ARP request: operation Reply, sender is the
/// responder, target is the original sender, carried straight back to that
/// sender's MAC.
pub open spec fn arp_reply_frame(
    self_mac: Seq<u8>,
    self_ip: Seq<u8>,
    peer_mac: Seq<u8>,
    peer_ip: Seq<u8>,
) -> Seq<u8> {
    peer_mac + self_mac + seq![0x08u8, 0x06u8, 0u8, 1u8, 0x08u8, 0x00u8, 6u8, 4u8, 0u8, 2u8]
        + self_mac + self_ip + peer_mac + peer_ip
}

/// Builds the ARP reply frame out of the responder's addresses and the
/// requesting peer's addresses.
pub fn build_arp_reply(
    self_mac: &[u8; 6],
    self_ip: &[u8; 4],
    peer_mac: &[u8; 6],
    peer_ip: &[u8; 4],
) -> (r: Vec<u8>)
    ensures
        r@ == arp_reply_frame(self_mac@, self_ip@, peer_mac@, peer_ip@),
        r@.len() == 42,
{
    let mut out: Vec<u8> = Vec::new();
    push_mac(&mut out, peer_mac);
    push_mac(&mut out, self_mac);
    out.push(0x08);
    out.push(0x06);
    out.push(0);
    out.push(1);
    out.push(0x08);
    out.push(0x00);
    out.push(6);
    out.push(4);
    out.push(0);
    out.push(2);
    push_mac(&mut out, self_mac);
    push_ip(&mut out, self_ip);
    push_mac(&mut out, peer_mac);
    push_ip(&mut out, peer_ip);
    proof {
        assert(out@ =~= arp_reply_frame(self_mac@, self_ip@, peer_mac@, peer_ip@));
    }
    out
}

/// For any well-formed ARP request targeting the responder's IP, the reply
/// built from it carries operation Reply, names the responder as sender and
/// the original sender as target, and travels back to the original sender's
/// MAC from the responder's MAC.
pub proof fn lemma_arp_reply_answers_request(req: Seq<u8>, self_mac: Seq<u8>, self_ip: Seq<u8>)
    requires
        self_mac.len() == 6,
        self_ip.len() == 4,
        is_arp_request_for(req, self_ip),
    ensures
        ({
            let r = arp_reply_frame(self_mac, self_ip, arp_sha(req), arp_spa(req));
            &&& r.len() == 42
            &&& eth_dst(r) == arp_sha(req)
            &&& eth_src(r) == self_mac
            &&& eth_type(r) == ETHERTYPE_ARP
            &&& arp_sized(r) && arp_kind_ethernet_ipv4(r)
            &&& arp_oper(r) == 2
            &&& arp_sha(r) == self_mac
            &&& arp_spa(r) == self_ip
            &&& arp_tha(r) == arp_sha(req)
            &&& arp_tpa(r) == arp_spa(req)
        }),
{
    let r = arp_reply_frame(self_mac, self_ip, arp_sha(req), arp_spa(req));
    assert(eth_dst(r) =~= arp_sha(req));
    assert(eth_src(r) =~= self_mac);
    assert(arp_sha(r) =~= self_mac);
    assert(arp_spa(r) =~= self_ip);
    assert(arp_tha(r) =~= arp_sha(req));
    assert(arp_tpa(r) =~= arp_spa(req));
}

} // verus!
