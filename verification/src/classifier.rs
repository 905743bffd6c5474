//! The decision on one frame: a total function of the frame's bytes, of
//! whether the table lists the frame's source, and of the configuration.

use crate::blocklist::{block_ip, Blocklist};
use crate::events::PacketLog;
use crate::headers::{
    iphdr, udphdr, DnsPrefix, DNS_FLAG_AA, DNS_PREFIX_LEN, ETH_HLEN, ETH_PROTO_OFFSET, ETH_P_IP,
    IPHDR_LEN, IPPROTO_UDP, UDPHDR_LEN,
};
use crate::packet::{be16, be32, BoundsViolation, PacketView};
use crate::ring::{after_output, EventRingBuffer};
use vstd::prelude::*;

verus! {

/// The frame could not be read safely; the network stack treats it as dropped.
pub const XDP_ABORTED: u32 = 0;

/// The frame is discarded.
pub const XDP_DROP: u32 = 1;

/// The frame goes on to the network stack.
pub const XDP_PASS: u32 = 2;

/// A code of the network stack that the classifier never gives.
pub const XDP_TX: u32 = 3;

/// A code of the network stack that the classifier never gives.
pub const XDP_REDIRECT: u32 = 4;

/// The source port of DNS responses.
pub const DNS_PORT: u16 = 53;

/// The fragment field that holds the don't-fragment mark the classifier
/// looks for, read as a 16-bit number in network byte order.
pub const FRAG_DONT_FRAGMENT: u16 = 0x0040;

/// What is done with a frame.
#[derive(Clone, Copy, Debug, PartialEq, Eq, Structural)]
pub enum Action {
    Abort,
    Drop,
    Pass,
}

impl Action {
    /// The code by which the network stack knows the action.
    pub open spec fn spec_code(self) -> u32 {
        match self {
            Action::Abort => XDP_ABORTED,
            Action::Drop => XDP_DROP,
            Action::Pass => XDP_PASS,
        }
    }

    /// The code by which the network stack knows the action.
    pub fn code(self) -> (code: u32)
        ensures
            code == self.spec_code(),
    {
        match self {
            Action::Abort => XDP_ABORTED,
            Action::Drop => XDP_DROP,
            Action::Pass => XDP_PASS,
        }
    }
}

/// The outcome of classifying one frame: the action, and the record to
/// report, if the decision is one that is reported.
#[derive(Clone, Copy, Debug, PartialEq, Eq, Structural)]
pub struct Verdict {
    pub action: Action,
    pub event: Option<PacketLog>,
}

/// The verdict for a frame that cannot be read to the end of a header.
pub open spec fn aborted() -> Verdict {
    Verdict { action: Action::Abort, event: None }
}

/// The verdict for a frame that is none of the classifier's business.
pub open spec fn passed_unseen() -> Verdict {
    Verdict { action: Action::Pass, event: None }
}

/// The verdict for a frame that was decided on and is reported.
pub open spec fn reported(frame: Seq<u8>, action: Action) -> Verdict {
    Verdict {
        action,
        event: Some(
            PacketLog {
                ipv4_src_addr: frame_source(frame),
                ipv4_dst_addr: frame_destination(frame),
                action: action.spec_code(),
            },
        ),
    }
}

/// The ethertype of a frame of at least 14 bytes.
pub open spec fn frame_ethertype(frame: Seq<u8>) -> u16 {
    be16(frame, ETH_PROTO_OFFSET as int)
}

/// The header length field of the IPv4 header, in units of four bytes.
pub open spec fn frame_ihl(frame: Seq<u8>) -> u8 {
    frame[ETH_HLEN as int] & 0x0f
}

/// The identification field of the IPv4 header.
pub open spec fn frame_id(frame: Seq<u8>) -> u16 {
    be16(frame, ETH_HLEN + 4)
}

/// The flags and fragment offset of the IPv4 header, as one number.
pub open spec fn frame_frag_off(frame: Seq<u8>) -> u16 {
    be16(frame, ETH_HLEN + 6)
}

/// The transport protocol of the IPv4 header.
pub open spec fn frame_protocol(frame: Seq<u8>) -> u8 {
    frame[ETH_HLEN + 9]
}

/// The source address of the IPv4 header.
pub open spec fn frame_source(frame: Seq<u8>) -> u32 {
    be32(frame, ETH_HLEN + 12)
}

/// The destination address of the IPv4 header.
pub open spec fn frame_destination(frame: Seq<u8>) -> u32 {
    be32(frame, ETH_HLEN + 16)
}

/// Where the UDP header starts: behind the IPv4 header, whose length the
/// header itself gives.
pub open spec fn udp_offset(frame: Seq<u8>) -> int {
    ETH_HLEN + frame_ihl(frame) * 4
}

/// The source port of the UDP header.
pub open spec fn frame_source_port(frame: Seq<u8>) -> u16 {
    be16(frame, udp_offset(frame))
}

/// Where the UDP payload starts.
pub open spec fn dns_offset(frame: Seq<u8>) -> int {
    udp_offset(frame) + UDPHDR_LEN
}

/// The number of answer records of the DNS message.
pub open spec fn frame_ancount(frame: Seq<u8>) -> u16 {
    be16(frame, dns_offset(frame) + 6)
}

/// The number of authority records of the DNS message.
pub open spec fn frame_nscount(frame: Seq<u8>) -> u16 {
    be16(frame, dns_offset(frame) + 8)
}

/// Whether the DNS message claims to be an authoritative answer.
pub open spec fn frame_authoritative(frame: Seq<u8>) -> bool {
    frame[dns_offset(frame) + 2] & DNS_FLAG_AA != 0
}

/// The decision on a DNS response from a listed source, from the five fields
/// that are inspected. The first rule that applies decides.
pub open spec fn dns_decision(
    id: u16,
    frag_off: u16,
    ancount: u16,
    nscount: u16,
    authoritative: bool,
) -> Action {
    if id == 0 {
        Action::Drop
    } else if frag_off == FRAG_DONT_FRAGMENT {
        Action::Drop
    } else if ancount != 1 {
        Action::Pass
    } else if nscount != 0 {
        Action::Pass
    } else if authoritative {
        Action::Drop
    } else {
        Action::Pass
    }
}

/// The verdict on `frame`, where `listed` says whether the table lists the
/// frame's source address and `filtering` whether DNS responses are filtered
/// or IPv4 traffic is only reported.
pub open spec fn classify_frame(frame: Seq<u8>, listed: bool, filtering: bool) -> Verdict {
    if frame.len() < ETH_HLEN {
        aborted()
    } else if frame_ethertype(frame) != ETH_P_IP {
        passed_unseen()
    } else if frame.len() < ETH_HLEN + IPHDR_LEN {
        aborted()
    } else if !filtering {
        reported(frame, Action::Pass)
    } else if frame_protocol(frame) != IPPROTO_UDP || !listed {
        passed_unseen()
    } else if frame.len() < udp_offset(frame) + UDPHDR_LEN {
        aborted()
    } else if frame_source_port(frame) != DNS_PORT {
        passed_unseen()
    } else if frame_id(frame) == 0 || frame_frag_off(frame) == FRAG_DONT_FRAGMENT {
        reported(frame, Action::Drop)
    } else if frame.len() < dns_offset(frame) + DNS_PREFIX_LEN {
        aborted()
    } else {
        reported(
            frame,
            dns_decision(
                frame_id(frame),
                frame_frag_off(frame),
                frame_ancount(frame),
                frame_nscount(frame),
                frame_authoritative(frame),
            ),
        )
    }
}

/// The verdict on `frame` with the table `table`.
pub open spec fn classify_spec(frame: Seq<u8>, table: Map<u32, u32>, filtering: bool) -> Verdict {
    classify_frame(frame, table.contains_key(frame_source(frame)), filtering)
}

/// The address that the table has to be asked about before `frame` can be
/// classified, if there is one: the source of an IPv4 frame that carries UDP,
/// where DNS responses are filtered.
pub open spec fn spec_lookup_key(frame: Seq<u8>, filtering: bool) -> Option<u32> {
    if frame.len() >= ETH_HLEN + IPHDR_LEN && frame_ethertype(frame) == ETH_P_IP && filtering
        && frame_protocol(frame) == IPPROTO_UDP {
        Some(frame_source(frame))
    } else {
        None
    }
}

/// Decides on a DNS response from a listed source, from the five fields that
/// are inspected.
pub fn inspect_dns(id: u16, frag_off: u16, ancount: u16, nscount: u16, authoritative: bool) -> (action:
    Action)
    ensures
        action == dns_decision(id, frag_off, ancount, nscount, authoritative),
{
    if id == 0 {
        return Action::Drop;
    }
    if frag_off == FRAG_DONT_FRAGMENT {
        return Action::Drop;
    }
    if ancount != 1 {
        return Action::Pass;
    }
    if nscount != 0 {
        return Action::Pass;
    }
    if authoritative {
        return Action::Drop;
    }
    Action::Pass
}

/// Classifies one frame, given whether the table lists its source address.
/// Fails where a header that has to be read does not lie inside the frame.
pub fn try_classify(packet: &PacketView, listed: bool, enable_filtering: bool) -> (outcome: Result<
    Verdict,
    BoundsViolation,
>)
    ensures
        outcome is Err <==> classify_frame(packet@, listed, enable_filtering).action is Abort,
        outcome matches Ok(verdict) ==> verdict == classify_frame(
            packet@,
            listed,
            enable_filtering,
        ),
{
    let h_proto = packet.read_be16(ETH_PROTO_OFFSET)?;
    // only IPv4 is looked at
    if h_proto != ETH_P_IP as u16 {
        return Ok(Verdict { action: Action::Pass, event: None });
    }
    let ip = iphdr::parse(packet, ETH_HLEN as usize)?;
    let source = ip.saddr;
    let destination = ip.daddr;
    if !enable_filtering {
        return Ok(
            Verdict {
                action: Action::Pass,
                event: Some(
                    PacketLog {
                        ipv4_src_addr: source,
                        ipv4_dst_addr: destination,
                        action: XDP_PASS,
                    },
                ),
            },
        );
    }
    // only UDP from a listed source is looked at
    if ip.protocol != IPPROTO_UDP as u8 || !listed {
        return Ok(Verdict { action: Action::Pass, event: None });
    }
    let udp_at = ETH_HLEN as usize + (ip.ihl() * 4) as usize;
    let udp = udphdr::parse(packet, udp_at)?;
    // only DNS responses are looked at
    if udp.source != DNS_PORT {
        return Ok(Verdict { action: Action::Pass, event: None });
    }
    let action = if ip.id == 0 || ip.frag_off == FRAG_DONT_FRAGMENT {
        Action::Drop
    } else {
        let prefix = DnsPrefix::parse(packet, udp_at + UDPHDR_LEN)?;
        inspect_dns(ip.id, ip.frag_off, prefix.ancount(), prefix.nscount(), prefix.authoritative())
    };
    Ok(
        Verdict {
            action,
            event: Some(
                PacketLog {
                    ipv4_src_addr: source,
                    ipv4_dst_addr: destination,
                    action: action.code(),
                },
            ),
        },
    )
}

/// Classifies one frame, given whether the table lists its source address.
pub fn classify_listed(packet: &PacketView, listed: bool, enable_filtering: bool) -> (verdict:
    Verdict)
    ensures
        verdict == classify_frame(packet@, listed, enable_filtering),
{
    match try_classify(packet, listed, enable_filtering) {
        Ok(verdict) => verdict,
        Err(_) => Verdict { action: Action::Abort, event: None },
    }
}

/// The address that the table has to be asked about before the frame can be
/// classified, if there is one.
pub fn lookup_key(packet: &PacketView, enable_filtering: bool) -> (key: Option<u32>)
    ensures
        key == spec_lookup_key(packet@, enable_filtering),
{
    if !enable_filtering {
        return None;
    }
    match packet.read_be16(ETH_PROTO_OFFSET) {
        Ok(h_proto) => {
            if h_proto != ETH_P_IP as u16 {
                return None;
            }
        },
        Err(_) => {
            return None;
        },
    }
    match iphdr::parse(packet, ETH_HLEN as usize) {
        Ok(ip) => {
            if ip.protocol == IPPROTO_UDP as u8 {
                Some(ip.saddr)
            } else {
                None
            }
        },
        Err(_) => None,
    }
}

/// What the ring holds after a verdict was reached: the verdict's record, if
/// it has one and the ring has room, behind what was there.
pub open spec fn after_verdict(queue: Seq<Seq<u8>>, capacity: nat, verdict: Verdict) -> Seq<
    Seq<u8>,
> {
    match verdict.event {
        Some(record) => after_output(queue, capacity, record),
        None => queue,
    }
}

/// Classifies one frame against the table.
pub fn classify(packet: &PacketView, blocklist: &Blocklist, enable_filtering: bool) -> (verdict:
    Verdict)
    ensures
        verdict == classify_spec(packet@, blocklist@, enable_filtering),
{
    let listed = match lookup_key(packet, enable_filtering) {
        Some(source) => block_ip(blocklist, source),
        None => false,
    };
    classify_listed(packet, listed, enable_filtering)
}

/// Classifies one frame, reports the decision to the ring if it is one that
/// is reported, and returns the action's code. Fails, with nothing reported,
/// where the frame cannot be read safely.
#[inline(always)]
pub fn try_clean_dns(
    packet: &PacketView,
    blocklist: &Blocklist,
    events: &mut EventRingBuffer,
    enable_filtering: bool,
) -> (outcome: Result<u32, BoundsViolation>)
    ensures
        final(events).capacity() == old(events).capacity(),
        final(events)@ == after_verdict(
            old(events)@,
            old(events).capacity(),
            classify_spec(packet@, blocklist@, enable_filtering),
        ),
        outcome is Err <==> classify_spec(packet@, blocklist@, enable_filtering).action is Abort,
        outcome matches Ok(code) ==> code == classify_spec(
            packet@,
            blocklist@,
            enable_filtering,
        ).action.spec_code(),
{
    let verdict = classify(packet, blocklist, enable_filtering);
    match verdict.event {
        Some(log_entry) => {
            events.output(&log_entry);
        },
        None => {},
    }
    match verdict.action {
        Action::Abort => Err(BoundsViolation),
        Action::Drop => Ok(XDP_DROP),
        Action::Pass => Ok(XDP_PASS),
    }
}

/// The classifier's entry point: the code of the action for one frame, with
/// the decision reported to the ring if it is one that is reported.
pub fn clean_dns(
    packet: &PacketView,
    blocklist: &Blocklist,
    events: &mut EventRingBuffer,
    enable_filtering: bool,
) -> (action: u32)
    ensures
        final(events).capacity() == old(events).capacity(),
        final(events)@ == after_verdict(
            old(events)@,
            old(events).capacity(),
            classify_spec(packet@, blocklist@, enable_filtering),
        ),
        action == classify_spec(packet@, blocklist@, enable_filtering).action.spec_code(),
{
    match try_clean_dns(packet, blocklist, events, enable_filtering) {
        Ok(ret) => ret,
        Err(_) => XDP_ABORTED,
    }
}

} // verus!
