//! What holds of every frame, stated over the specification of the
//! classifier and of the path its records take.

use crate::classifier::{
    aborted, classify_frame, classify_spec, dns_decision, dns_offset, frame_ancount,
    frame_authoritative, frame_destination, frame_ethertype, frame_frag_off, frame_id, frame_ihl,
    frame_nscount, frame_protocol, frame_source, frame_source_port, passed_unseen, reported,
    udp_offset, Action, DNS_PORT, FRAG_DONT_FRAGMENT,
};
use crate::consumer::{batch_discarded, batch_lines, spec_log_line};
use crate::events::{lemma_decode_encode, spec_decode, spec_encode, PacketLog};
use crate::headers::{DNS_PREFIX_LEN, ETH_HLEN, ETH_P_IP, IPHDR_LEN, IPPROTO_UDP, UDPHDR_LEN};
use crate::ring::after_output;
use vstd::prelude::*;

verus! {

/// A frame that is not IPv4 passes, and nothing is reported of it, whatever
/// the table holds and in either configuration.
pub proof fn lemma_other_ethertype_passes(frame: Seq<u8>, table: Map<u32, u32>, filtering: bool)
    requires
        frame.len() >= ETH_HLEN,
        frame_ethertype(frame) != ETH_P_IP,
    ensures
        classify_spec(frame, table, filtering) == passed_unseen(),
{
}

/// Where DNS responses are filtered, an IPv4 frame that does not carry UDP,
/// or whose source the table does not list, passes, and nothing is reported
/// of it.
pub proof fn lemma_other_transport_or_source_passes(frame: Seq<u8>, table: Map<u32, u32>)
    requires
        frame.len() >= ETH_HLEN + IPHDR_LEN,
        frame_ethertype(frame) == ETH_P_IP,
        frame_protocol(frame) != IPPROTO_UDP || !table.contains_key(frame_source(frame)),
    ensures
        classify_spec(frame, table, true) == passed_unseen(),
{
}

/// Where DNS responses are filtered, a UDP frame from a listed source that
/// does not come from the DNS port passes, and nothing is reported of it.
pub proof fn lemma_other_port_passes(frame: Seq<u8>, table: Map<u32, u32>)
    requires
        frame.len() >= ETH_HLEN + IPHDR_LEN,
        frame.len() >= udp_offset(frame) + UDPHDR_LEN,
        frame_ethertype(frame) == ETH_P_IP,
        frame_protocol(frame) == IPPROTO_UDP,
        table.contains_key(frame_source(frame)),
        frame_source_port(frame) != DNS_PORT,
    ensures
        classify_spec(frame, table, true) == passed_unseen(),
{
}

/// Where DNS responses are filtered, the action on a DNS response from a
/// listed source is the decision on its five inspected fields, and it is
/// reported with the frame's addresses. The DNS prefix has to lie inside the
/// frame only where the identification and the fragment field do not decide.
pub proof fn lemma_dns_response_decided_by_fields(frame: Seq<u8>, table: Map<u32, u32>)
    requires
        frame.len() >= ETH_HLEN + IPHDR_LEN,
        frame.len() >= udp_offset(frame) + UDPHDR_LEN,
        frame_ethertype(frame) == ETH_P_IP,
        frame_protocol(frame) == IPPROTO_UDP,
        table.contains_key(frame_source(frame)),
        frame_source_port(frame) == DNS_PORT,
        frame.len() >= dns_offset(frame) + DNS_PREFIX_LEN || frame_id(frame) == 0
            || frame_frag_off(frame) == FRAG_DONT_FRAGMENT,
    ensures
        classify_spec(frame, table, true) == reported(
            frame,
            dns_decision(
                frame_id(frame),
                frame_frag_off(frame),
                frame_ancount(frame),
                frame_nscount(frame),
                frame_authoritative(frame),
            ),
        ),
{
}

/// The decision on the five inspected fields, rule by rule.
pub proof fn lemma_dns_decision_table(
    id: u16,
    frag_off: u16,
    ancount: u16,
    nscount: u16,
    authoritative: bool,
)
    ensures
        id == 0 ==> dns_decision(id, frag_off, ancount, nscount, authoritative) == Action::Drop,
        id != 0 && frag_off == FRAG_DONT_FRAGMENT ==> dns_decision(
            id,
            frag_off,
            ancount,
            nscount,
            authoritative,
        ) == Action::Drop,
        id != 0 && frag_off != FRAG_DONT_FRAGMENT && ancount != 1 ==> dns_decision(
            id,
            frag_off,
            ancount,
            nscount,
            authoritative,
        ) == Action::Pass,
        id != 0 && frag_off != FRAG_DONT_FRAGMENT && ancount == 1 && nscount != 0 ==> dns_decision(
            id,
            frag_off,
            ancount,
            nscount,
            authoritative,
        ) == Action::Pass,
        id != 0 && frag_off != FRAG_DONT_FRAGMENT && ancount == 1 && nscount == 0
            ==> dns_decision(id, frag_off, ancount, nscount, authoritative) == (if authoritative {
            Action::Drop
        } else {
            Action::Pass
        }),
        dns_decision(id, frag_off, ancount, nscount, authoritative) !is Abort,
{
}

/// Where IPv4 traffic is only reported, every IPv4 frame whose header lies
/// inside the frame passes and is reported, whatever the table holds.
pub proof fn lemma_reporting_only_passes(frame: Seq<u8>, table: Map<u32, u32>)
    requires
        frame.len() >= ETH_HLEN + IPHDR_LEN,
        frame_ethertype(frame) == ETH_P_IP,
    ensures
        classify_spec(frame, table, false) == reported(frame, Action::Pass),
{
}

/// An IPv4 frame that ends exactly where the DNS prefix ends is never
/// aborted. Cut by its last byte, it is aborted where the prefix has to be
/// read: where it is a DNS response from a listed source whose identification
/// and fragment field do not decide.
pub proof fn lemma_dns_prefix_boundary(frame: Seq<u8>, table: Map<u32, u32>, filtering: bool)
    requires
        frame.len() >= ETH_HLEN,
        frame_ethertype(frame) == ETH_P_IP,
        frame_ihl(frame) >= 1,
        frame.len() == dns_offset(frame) + DNS_PREFIX_LEN,
    ensures
        classify_spec(frame, table, filtering).action !is Abort,
        frame_protocol(frame) == IPPROTO_UDP && table.contains_key(frame_source(frame))
            && frame_source_port(frame) == DNS_PORT && frame_id(frame) != 0 && frame_frag_off(frame)
            != FRAG_DONT_FRAGMENT ==> classify_spec(frame.drop_last(), table, true) == aborted(),
{
    let first = frame[ETH_HLEN as int];
    assert(first & 0x0f <= 15) by (bit_vector);
    let short = frame.drop_last();
    assert(frame_ihl(short) == frame_ihl(frame));
    assert(udp_offset(short) == udp_offset(frame));
    assert(frame_ethertype(short) == frame_ethertype(frame));
    assert(frame_protocol(short) == frame_protocol(frame));
    assert(frame_source(short) == frame_source(frame));
    assert(frame_source_port(short) == frame_source_port(frame));
    assert(frame_id(short) == frame_id(frame));
    assert(frame_frag_off(short) == frame_frag_off(frame));
}

/// A verdict reports a record exactly where it does not abort and the frame
/// was decided on, and the record then holds the frame's addresses and the
/// code of the verdict's action.
pub proof fn lemma_event_agrees_with_action(frame: Seq<u8>, listed: bool, filtering: bool)
    ensures
        classify_frame(frame, listed, filtering).action is Abort ==> classify_frame(
            frame,
            listed,
            filtering,
        ).event is None,
        classify_frame(frame, listed, filtering).event matches Some(record) ==> {
            &&& record.action == classify_frame(frame, listed, filtering).action.spec_code()
            &&& record.ipv4_src_addr == frame_source(frame)
            &&& record.ipv4_dst_addr == frame_destination(frame)
        },
{
}

/// A record handed to a ring that has room comes out on the consumer's side
/// as it went in: it is the last of the queue, it decodes to the same three
/// fields, and a batch that holds it alone gives its line and discards
/// nothing. A ring without room is left as it was.
pub proof fn lemma_record_reaches_consumer(queue: Seq<Seq<u8>>, capacity: nat, record: PacketLog)
    ensures
        queue.len() < capacity ==> after_output(queue, capacity, record) == queue.push(
            spec_encode(record),
        ),
        queue.len() >= capacity ==> after_output(queue, capacity, record) == queue,
        spec_decode(spec_encode(record)) == Some(record),
        batch_lines(seq![spec_encode(record)]) == seq![spec_log_line(record)],
        batch_discarded(seq![spec_encode(record)]) == 0,
{
    lemma_decode_encode(record);
    let batch = seq![spec_encode(record)];
    assert(batch.drop_last() =~= Seq::<Seq<u8>>::empty());
    assert(batch.last() == spec_encode(record));
    reveal_with_fuel(batch_lines, 2);
    reveal_with_fuel(batch_discarded, 2);
    assert(batch_lines(batch) =~= seq![spec_log_line(record)]);
}

} // verus!
