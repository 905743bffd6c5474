use clean_dns::bitfield::__BindgenBitfieldUnit;
use clean_dns::headers::{ethhdr, iphdr, udphdr, DnsPrefix};
use clean_dns::packet::{BoundsViolation, PacketView};

#[test]
fn get_bit_counts_from_the_low_bit_of_the_first_byte() {
    let unit = __BindgenBitfieldUnit::new([0b0000_0101u8, 0b1000_0000]);
    assert!(unit.get_bit(0));
    assert!(!unit.get_bit(1));
    assert!(unit.get_bit(2));
    assert!(!unit.get_bit(7));
    assert!(!unit.get_bit(8));
    assert!(!unit.get_bit(14));
    assert!(unit.get_bit(15));
}

#[test]
fn set_bit_changes_one_bit() {
    let mut unit = __BindgenBitfieldUnit::new([0u8, 0xff]);
    unit.set_bit(3, true);
    assert_eq!(unit, __BindgenBitfieldUnit::new([0b0000_1000u8, 0xff]));
    unit.set_bit(3, true);
    assert_eq!(unit, __BindgenBitfieldUnit::new([0b0000_1000u8, 0xff]));
    unit.set_bit(9, false);
    assert_eq!(unit, __BindgenBitfieldUnit::new([0b0000_1000u8, 0b1111_1101]));
    unit.set_bit(3, false);
    assert_eq!(unit, __BindgenBitfieldUnit::new([0u8, 0b1111_1101]));
}

#[test]
fn get_reads_a_field_across_bytes() {
    let unit = __BindgenBitfieldUnit::new([0xa5u8, 0x3c, 0xff]);
    assert_eq!(unit.get(0, 4), 0x5);
    assert_eq!(unit.get(4, 4), 0xa);
    assert_eq!(unit.get(0, 8), 0xa5);
    assert_eq!(unit.get(4, 8), 0xca);
    assert_eq!(unit.get(0, 16), 0x3ca5);
    assert_eq!(unit.get(0, 24), 0xff3ca5);
    assert_eq!(unit.get(23, 1), 1);
    assert_eq!(unit.get(6, 0), 0);
}

#[test]
fn get_reads_sixty_four_bits() {
    let unit = __BindgenBitfieldUnit::new([0x01u8, 0x23, 0x45, 0x67, 0x89, 0xab, 0xcd, 0xef, 0x5a]);
    assert_eq!(unit.get(0, 64), 0xefcd_ab89_6745_2301);
    assert_eq!(unit.get(8, 64), 0x5aef_cdab_8967_4523);
}

#[test]
fn set_writes_the_low_bits_and_keeps_the_rest() {
    let mut unit = __BindgenBitfieldUnit::new([0xffu8, 0x00]);
    unit.set(4, 8, 0x1234);
    assert_eq!(unit, __BindgenBitfieldUnit::new([0x4fu8, 0x03]));
    assert_eq!(unit.get(4, 8), 0x34);
    unit.set(0, 16, 0xbeef);
    assert_eq!(unit, __BindgenBitfieldUnit::new([0xefu8, 0xbe]));
    unit.set(3, 0, 0xffff);
    assert_eq!(unit, __BindgenBitfieldUnit::new([0xefu8, 0xbe]));
}

#[test]
fn set_then_get_gives_the_value_cut_to_the_width() {
    for width in 0u8..=16 {
        for offset in 0usize..=(16 - width as usize) {
            if offset / 8 >= 2 {
                continue;
            }
            let mut unit = __BindgenBitfieldUnit::new([0x5au8, 0xc3]);
            unit.set(offset, width, 0xffff_ffff_dead_beef);
            let mask = (1u64 << width) - 1;
            assert_eq!(unit.get(offset, width), 0xffff_ffff_dead_beef & mask);
        }
    }
    let mut wide = __BindgenBitfieldUnit::new([0u8; 8]);
    wide.set(0, 64, 0x8000_0000_0000_0001);
    assert_eq!(wide.get(0, 64), 0x8000_0000_0000_0001);
}

fn ip_header(first: u8) -> iphdr {
    iphdr {
        _bitfield_1: __BindgenBitfieldUnit::new([first]),
        tos: 1,
        tot_len: 2,
        id: 3,
        frag_off: 4,
        ttl: 5,
        protocol: 6,
        check: 7,
        saddr: 8,
        daddr: 9,
    }
}

#[test]
fn header_length_is_the_low_nibble_and_version_the_high() {
    let header = ip_header(0x45);
    assert_eq!(header.ihl(), 5);
    assert_eq!(header.version(), 4);
    let other = ip_header(0x6f);
    assert_eq!(other.ihl(), 15);
    assert_eq!(other.version(), 6);
}

#[test]
fn setting_one_nibble_keeps_the_other() {
    let mut header = ip_header(0x45);
    header.set_ihl(6);
    assert_eq!(header._bitfield_1, __BindgenBitfieldUnit::new([0x46u8]));
    header.set_version(0xf6);
    assert_eq!(header._bitfield_1, __BindgenBitfieldUnit::new([0x66u8]));
    header.set_ihl(0x1f);
    assert_eq!(header.ihl(), 15);
    assert_eq!(header.version(), 6);
    assert_eq!(header.tos, 1);
    assert_eq!(header.tot_len, 2);
    assert_eq!(header.id, 3);
    assert_eq!(header.frag_off, 4);
    assert_eq!(header.ttl, 5);
    assert_eq!(header.protocol, 6);
    assert_eq!(header.check, 7);
    assert_eq!(header.saddr, 8);
    assert_eq!(header.daddr, 9);
}

#[test]
fn new_bitfield_packs_both_nibbles() {
    assert_eq!(iphdr::new_bitfield_1(5, 4), __BindgenBitfieldUnit::new([0x45u8]));
    assert_eq!(iphdr::new_bitfield_1(0, 0), __BindgenBitfieldUnit::new([0x00u8]));
    assert_eq!(iphdr::new_bitfield_1(0xf5, 0xf4), __BindgenBitfieldUnit::new([0x45u8]));
}

const FRAME: [u8; 52] = [
    0x02, 0x00, 0x00, 0x00, 0x00, 0x01, 0x0a, 0x0b, 0x0c, 0x0d, 0x0e, 0x0f, 0x08, 0x00, //
    0x45, 0x10, 0x00, 0x26, 0x04, 0xd2, 0x40, 0x00, 0x40, 0x11, 0xbe, 0xef, //
    0x08, 0x08, 0x04, 0x04, 0xc0, 0xa8, 0x01, 0x14, //
    0x00, 0x35, 0xc0, 0x01, 0x00, 0x12, 0xca, 0xfe, //
    0xab, 0xcd, 0x84, 0x80, 0x00, 0x01, 0x00, 0x01, 0x01, 0x02,
];

#[test]
fn ethernet_header_is_read_from_the_first_fourteen_bytes() {
    let header = ethhdr::parse(&PacketView::new(&FRAME)).unwrap();
    assert_eq!(header.h_dest, [0x02, 0x00, 0x00, 0x00, 0x00, 0x01]);
    assert_eq!(header.h_source, [0x0a, 0x0b, 0x0c, 0x0d, 0x0e, 0x0f]);
    assert_eq!(header.h_proto, 0x0800);
    assert!(ethhdr::parse(&PacketView::new(&FRAME[..14])).is_ok());
    assert_eq!(ethhdr::parse(&PacketView::new(&FRAME[..13])).err(), Some(BoundsViolation));
}

#[test]
fn ip_header_is_read_in_host_order() {
    let header = iphdr::parse(&PacketView::new(&FRAME), 14).unwrap();
    assert_eq!(header.ihl(), 5);
    assert_eq!(header.version(), 4);
    assert_eq!(header.tos, 0x10);
    assert_eq!(header.tot_len, 0x0026);
    assert_eq!(header.id, 1234);
    assert_eq!(header.frag_off, 0x4000);
    assert_eq!(header.ttl, 64);
    assert_eq!(header.protocol, 17);
    assert_eq!(header.check, 0xbeef);
    assert_eq!(header.saddr, 0x0808_0404);
    assert_eq!(header.daddr, 0xc0a8_0114);
    assert!(iphdr::parse(&PacketView::new(&FRAME[..34]), 14).is_ok());
    assert_eq!(iphdr::parse(&PacketView::new(&FRAME[..33]), 14).err(), Some(BoundsViolation));
    assert_eq!(iphdr::parse(&PacketView::new(&FRAME), 33).err(), Some(BoundsViolation));
    assert_eq!(iphdr::parse(&PacketView::new(&FRAME), usize::MAX).err(), Some(BoundsViolation));
}

#[test]
fn udp_header_is_read_in_host_order() {
    let header = udphdr::parse(&PacketView::new(&FRAME), 34).unwrap();
    assert_eq!(header.source, 53);
    assert_eq!(header.dest, 0xc001);
    assert_eq!(header.len, 18);
    assert_eq!(header.check, 0xcafe);
    assert_eq!(udphdr::parse(&PacketView::new(&FRAME[..41]), 34).err(), Some(BoundsViolation));
}

#[test]
fn dns_prefix_gives_counts_and_flag() {
    let prefix = DnsPrefix::parse(&PacketView::new(&FRAME), 42).unwrap();
    assert_eq!(prefix.data, [0xab, 0xcd, 0x84, 0x80, 0x00, 0x01, 0x00, 0x01, 0x01, 0x02]);
    assert_eq!(prefix.ancount(), 1);
    assert_eq!(prefix.nscount(), 0x0102);
    assert!(prefix.authoritative());
    assert!(!DnsPrefix { data: [0, 0, 0xfb, 0, 0, 0, 0, 0, 0, 0] }.authoritative());
    assert_eq!(DnsPrefix::parse(&PacketView::new(&FRAME), 43).err(), Some(BoundsViolation));
}
