use clean_dns::blocklist::Blocklist;
use clean_dns::classifier::{
    classify, classify_listed, clean_dns, inspect_dns, lookup_key, try_classify, try_clean_dns,
    Action, Verdict, XDP_ABORTED, XDP_DROP, XDP_PASS, XDP_REDIRECT, XDP_TX,
};
use clean_dns::events::PacketLog;
use clean_dns::packet::{BoundsViolation, PacketView};
use clean_dns::ring::EventRingBuffer;

const GOOGLE: [u8; 4] = [8, 8, 8, 8];
const CLOUDFLARE: [u8; 4] = [1, 1, 1, 1];
const OTHER: [u8; 4] = [9, 9, 9, 9];
const HOST: [u8; 4] = [192, 168, 1, 20];
const HOST_ADDR: u32 = 0xc0a8_0114;

struct Fields {
    ethertype: u16,
    ihl: u8,
    protocol: u8,
    source: [u8; 4],
    id: u16,
    frag_off: u16,
    source_port: u16,
    dns: Vec<u8>,
}

fn dns_prefix(flags_high: u8, ancount: u16, nscount: u16) -> Vec<u8> {
    let mut dns = vec![0xab, 0xcd, flags_high, 0x80, 0x00, 0x01];
    dns.extend_from_slice(&ancount.to_be_bytes());
    dns.extend_from_slice(&nscount.to_be_bytes());
    dns
}

fn response(id: u16, frag_off: u16, dns: Vec<u8>) -> Fields {
    Fields {
        ethertype: 0x0800,
        ihl: 5,
        protocol: 17,
        source: GOOGLE,
        id,
        frag_off,
        source_port: 53,
        dns,
    }
}

fn build(fields: &Fields) -> Vec<u8> {
    assert!(fields.ihl >= 5 && fields.ihl <= 15);
    let mut frame = vec![0x02, 0, 0, 0, 0, 0x01, 0x02, 0, 0, 0, 0, 0x02];
    frame.extend_from_slice(&fields.ethertype.to_be_bytes());
    frame.push(0x40 | fields.ihl);
    frame.push(0);
    frame.extend_from_slice(&[0, 0]);
    frame.extend_from_slice(&fields.id.to_be_bytes());
    frame.extend_from_slice(&fields.frag_off.to_be_bytes());
    frame.push(64);
    frame.push(fields.protocol);
    frame.extend_from_slice(&[0, 0]);
    frame.extend_from_slice(&fields.source);
    frame.extend_from_slice(&HOST);
    let mut option = 5;
    while option < fields.ihl {
        frame.extend_from_slice(&[1, 1, 1, 1]);
        option += 1;
    }
    frame.extend_from_slice(&fields.source_port.to_be_bytes());
    frame.extend_from_slice(&[0xc0, 0x01, 0, 0, 0, 0]);
    frame.extend_from_slice(&fields.dns);
    frame
}

fn listed() -> Blocklist {
    let mut table = Blocklist::with_max_entries(1024);
    table.insert(0x0808_0808, 0).unwrap();
    table.insert(0x0101_0101, 0).unwrap();
    table
}

fn verdict_of(frame: &[u8], filtering: bool) -> Verdict {
    classify(&PacketView::new(frame), &listed(), filtering)
}

fn reported(source: u32, action: Action) -> Verdict {
    Verdict {
        action,
        event: Some(PacketLog {
            ipv4_src_addr: source,
            ipv4_dst_addr: HOST_ADDR,
            action: action.code(),
        }),
    }
}

const UNSEEN: Verdict = Verdict { action: Action::Pass, event: None };
const ABORTED: Verdict = Verdict { action: Action::Abort, event: None };

#[test]
fn action_codes_are_the_network_stack_codes() {
    assert_eq!(XDP_ABORTED, 0);
    assert_eq!(XDP_DROP, 1);
    assert_eq!(XDP_PASS, 2);
    assert_eq!(XDP_TX, 3);
    assert_eq!(XDP_REDIRECT, 4);
    assert_eq!(Action::Abort.code(), 0);
    assert_eq!(Action::Drop.code(), 1);
    assert_eq!(Action::Pass.code(), 2);
}

#[test]
fn zero_identification_is_dropped() {
    let frame = build(&response(0, 0, dns_prefix(0x00, 1, 0)));
    assert_eq!(verdict_of(&frame, true), reported(0x0808_0808, Action::Drop));
}

#[test]
fn dont_fragment_mark_is_dropped() {
    let frame = build(&response(1234, 0x0040, dns_prefix(0x00, 1, 0)));
    assert_eq!(verdict_of(&frame, true), reported(0x0808_0808, Action::Drop));
}

#[test]
fn two_answers_pass() {
    let frame = build(&response(1234, 0, dns_prefix(0x04, 2, 0)));
    assert_eq!(&frame[48..50], &[0, 2]);
    assert_eq!(verdict_of(&frame, true), reported(0x0808_0808, Action::Pass));
}

#[test]
fn authoritative_single_answer_is_dropped() {
    let frame = build(&response(1234, 0, dns_prefix(0x04, 1, 0)));
    assert_eq!(frame[44], 0x04);
    assert_eq!(verdict_of(&frame, true), reported(0x0808_0808, Action::Drop));
}

#[test]
fn unlisted_source_passes_at_the_transport_check() {
    let mut fields = response(1234, 0, dns_prefix(0x04, 1, 0));
    fields.source = OTHER;
    let frame = build(&fields);
    assert_eq!(verdict_of(&frame, true), UNSEEN);
    // the transport header is not even read
    assert_eq!(verdict_of(&frame[..34], true), UNSEEN);
}

#[test]
fn second_listed_source_is_inspected() {
    let mut fields = response(1234, 0, dns_prefix(0x04, 1, 0));
    fields.source = CLOUDFLARE;
    let frame = build(&fields);
    assert_eq!(verdict_of(&frame, true), reported(0x0101_0101, Action::Drop));
}

#[test]
fn other_ethertypes_pass_unreported() {
    for ethertype in [0x0806u16, 0x86dd, 0x0000, 0x0008, 0xffff, 0x0801] {
        let mut fields = response(0, 0, dns_prefix(0x04, 1, 0));
        fields.ethertype = ethertype;
        let frame = build(&fields);
        assert_eq!(verdict_of(&frame, true), UNSEEN);
        assert_eq!(verdict_of(&frame, false), UNSEEN);
        assert_eq!(verdict_of(&frame[..14], true), UNSEEN);
    }
}

#[test]
fn other_transports_pass_unreported() {
    for protocol in [0u8, 1, 6, 16, 18, 255] {
        let mut fields = response(0, 0, dns_prefix(0x04, 1, 0));
        fields.protocol = protocol;
        let frame = build(&fields);
        assert_eq!(verdict_of(&frame, true), UNSEEN);
    }
}

#[test]
fn other_source_ports_pass_unreported() {
    for port in [0u16, 52, 54, 5353, 0x3500, 65535] {
        let mut fields = response(0, 0, dns_prefix(0x04, 1, 0));
        fields.source_port = port;
        let frame = build(&fields);
        assert_eq!(verdict_of(&frame, true), UNSEEN);
    }
}

#[test]
fn every_combination_of_the_inspected_fields() {
    for id in [0u16, 1, 1234, 0xffff] {
        for frag_off in [0u16, 0x0040, 0x4000, 0x0041, 0x2000] {
            for ancount in [0u16, 1, 2, 0x0100, 0x0101] {
                for nscount in [0u16, 1, 0x0100] {
                    for flags in [0x00u8, 0x04, 0x80, 0x84, 0xfb, 0xff] {
                        let expected = if id == 0 {
                            Action::Drop
                        } else if frag_off == 0x0040 {
                            Action::Drop
                        } else if ancount != 1 {
                            Action::Pass
                        } else if nscount != 0 {
                            Action::Pass
                        } else if flags & 0x04 != 0 {
                            Action::Drop
                        } else {
                            Action::Pass
                        };
                        let frame = build(&response(id, frag_off, dns_prefix(flags, ancount, nscount)));
                        assert_eq!(verdict_of(&frame, true), reported(0x0808_0808, expected));
                        assert_eq!(
                            inspect_dns(id, frag_off, ancount, nscount, flags & 0x04 != 0),
                            expected
                        );
                    }
                }
            }
        }
    }
}

#[test]
fn frame_that_ends_with_the_dns_prefix_is_read() {
    for ihl in [5u8, 6, 15] {
        let mut fields = response(1234, 0, dns_prefix(0x04, 1, 0));
        fields.ihl = ihl;
        let frame = build(&fields);
        assert_eq!(frame.len(), 14 + 4 * ihl as usize + 8 + 10);
        assert_eq!(verdict_of(&frame, true), reported(0x0808_0808, Action::Drop));
        let short = &frame[..frame.len() - 1];
        assert_eq!(verdict_of(short, true), ABORTED);
    }
}

#[test]
fn short_header_length_puts_the_udp_header_inside_the_ip_header() {
    // header length 1: the UDP header starts at byte 18, the DNS prefix at byte 26
    let mut frame = vec![0u8; 12];
    frame.extend_from_slice(&[0x08, 0x00]);
    frame.extend_from_slice(&[0x41, 0, 0, 0]);
    frame.extend_from_slice(&[0x00, 0x35, 0, 0]);
    frame.extend_from_slice(&[64, 17, 0, 0]);
    frame.extend_from_slice(&[8, 8, 8, 8]);
    frame.extend_from_slice(&[0, 1, 0, 0]);
    frame.extend_from_slice(&[0, 0]);
    assert_eq!(frame.len(), 36);
    // identification is 0x0035 (53), fragment field 0, answers 1, authorities 0, flag byte 8
    assert_eq!(
        verdict_of(&frame, true),
        Verdict {
            action: Action::Pass,
            event: Some(PacketLog {
                ipv4_src_addr: 0x0808_0808,
                ipv4_dst_addr: 0x0001_0000,
                action: 2
            }),
        }
    );
    assert_eq!(verdict_of(&frame[..35], true), ABORTED);
}

#[test]
fn frames_cut_inside_a_header_abort() {
    let frame = build(&response(1234, 0, dns_prefix(0x04, 1, 0)));
    for len in 0..14 {
        assert_eq!(verdict_of(&frame[..len], true), ABORTED);
        assert_eq!(verdict_of(&frame[..len], false), ABORTED);
    }
    for len in 14..34 {
        assert_eq!(verdict_of(&frame[..len], true), ABORTED);
        assert_eq!(verdict_of(&frame[..len], false), ABORTED);
    }
    for len in 34..42 {
        assert_eq!(verdict_of(&frame[..len], true), ABORTED);
    }
    for len in 42..52 {
        assert_eq!(verdict_of(&frame[..len], true), ABORTED);
    }
    assert_eq!(verdict_of(&frame[..52], true), reported(0x0808_0808, Action::Drop));
}

#[test]
fn early_drops_do_not_read_the_dns_prefix() {
    let zero_id = build(&response(0, 0, Vec::new()));
    assert_eq!(zero_id.len(), 42);
    assert_eq!(verdict_of(&zero_id, true), reported(0x0808_0808, Action::Drop));
    let marked = build(&response(7, 0x0040, vec![1, 2, 3]));
    assert_eq!(verdict_of(&marked, true), reported(0x0808_0808, Action::Drop));
    let neither = build(&response(7, 0x4000, vec![1, 2, 3]));
    assert_eq!(verdict_of(&neither, true), ABORTED);
}

#[test]
fn reporting_only_passes_every_ipv4_frame() {
    let frame = build(&response(0, 0x0040, dns_prefix(0x04, 1, 0)));
    assert_eq!(verdict_of(&frame, false), reported(0x0808_0808, Action::Pass));
    assert_eq!(verdict_of(&frame[..34], false), reported(0x0808_0808, Action::Pass));
    let mut fields = response(1234, 0, Vec::new());
    fields.protocol = 6;
    fields.source = OTHER;
    assert_eq!(verdict_of(&build(&fields), false), reported(0x0909_0909, Action::Pass));
}

#[test]
fn lookup_key_is_the_source_of_udp_over_ipv4() {
    let frame = build(&response(1234, 0, dns_prefix(0x04, 1, 0)));
    assert_eq!(lookup_key(&PacketView::new(&frame), true), Some(0x0808_0808));
    assert_eq!(lookup_key(&PacketView::new(&frame), false), None);
    assert_eq!(lookup_key(&PacketView::new(&frame[..34]), true), Some(0x0808_0808));
    assert_eq!(lookup_key(&PacketView::new(&frame[..33]), true), None);
    let mut fields = response(1234, 0, Vec::new());
    fields.protocol = 6;
    assert_eq!(lookup_key(&PacketView::new(&build(&fields)), true), None);
    fields.protocol = 17;
    fields.ethertype = 0x86dd;
    assert_eq!(lookup_key(&PacketView::new(&build(&fields)), true), None);
}

#[test]
fn classifying_with_the_lookup_result_agrees_with_the_table() {
    let table = listed();
    for source in [GOOGLE, CLOUDFLARE, OTHER] {
        for filtering in [false, true] {
            let mut fields = response(1234, 0, dns_prefix(0x04, 1, 0));
            fields.source = source;
            let frame = build(&fields);
            let packet = PacketView::new(&frame);
            let is_listed = match lookup_key(&packet, filtering) {
                Some(key) => table.get(key).is_some(),
                None => false,
            };
            assert_eq!(
                classify_listed(&packet, is_listed, filtering),
                classify(&packet, &table, filtering)
            );
        }
    }
}

#[test]
fn try_classify_fails_exactly_on_abort() {
    let frame = build(&response(1234, 0, dns_prefix(0x04, 1, 0)));
    assert_eq!(
        try_classify(&PacketView::new(&frame), true, true),
        Ok(reported(0x0808_0808, Action::Drop))
    );
    assert_eq!(try_classify(&PacketView::new(&frame), false, true), Ok(UNSEEN));
    assert_eq!(try_classify(&PacketView::new(&frame[..51]), true, true), Err(BoundsViolation));
    assert_eq!(try_classify(&PacketView::new(&frame[..51]), false, true), Ok(UNSEEN));
    assert_eq!(try_classify(&PacketView::new(&[]), false, true), Err(BoundsViolation));
}

#[test]
fn clean_dns_returns_the_code_and_reports() {
    let table = listed();
    let mut ring = EventRingBuffer::with_max_entries(4);
    let dropped = build(&response(0, 0, dns_prefix(0x00, 1, 0)));
    assert_eq!(clean_dns(&PacketView::new(&dropped), &table, &mut ring, true), 1);
    assert_eq!(ring.len(), 1);
    let passed = build(&response(1234, 0, dns_prefix(0x00, 1, 0)));
    assert_eq!(clean_dns(&PacketView::new(&passed), &table, &mut ring, true), 2);
    assert_eq!(ring.len(), 2);
    let mut quiet = response(1234, 0, dns_prefix(0x04, 1, 0));
    quiet.source = OTHER;
    assert_eq!(clean_dns(&PacketView::new(&build(&quiet)), &table, &mut ring, true), 2);
    assert_eq!(ring.len(), 2);
    assert_eq!(clean_dns(&PacketView::new(&passed[..10]), &table, &mut ring, true), 0);
    assert_eq!(ring.len(), 2);
}

#[test]
fn try_clean_dns_fails_on_unreadable_frames() {
    let table = listed();
    let mut ring = EventRingBuffer::with_max_entries(4);
    let frame = build(&response(1234, 0, dns_prefix(0x04, 1, 0)));
    assert_eq!(try_clean_dns(&PacketView::new(&frame), &table, &mut ring, true), Ok(XDP_DROP));
    assert_eq!(
        try_clean_dns(&PacketView::new(&frame[..51]), &table, &mut ring, true),
        Err(BoundsViolation)
    );
    assert_eq!(try_clean_dns(&PacketView::new(&frame[..33]), &table, &mut ring, false), Err(BoundsViolation));
    assert_eq!(try_clean_dns(&PacketView::new(&frame[..34]), &table, &mut ring, false), Ok(XDP_PASS));
    assert_eq!(ring.len(), 2);
}

#[test]
fn full_ring_loses_the_record_and_keeps_the_action() {
    let table = listed();
    let mut ring = EventRingBuffer::with_max_entries(1);
    let frame = build(&response(0, 0, dns_prefix(0x00, 1, 0)));
    assert_eq!(clean_dns(&PacketView::new(&frame), &table, &mut ring, true), 1);
    assert_eq!(clean_dns(&PacketView::new(&frame), &table, &mut ring, true), 1);
    assert_eq!(ring.len(), 1);
}
