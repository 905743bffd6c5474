//! The headers that the classifier reads, each parsed from the bytes of a
//! frame after the read has been held against the frame's end.

use crate::bitfield::{
    __BindgenBitfieldUnit, bit_of, field_value, lemma_field_value_same_bits, low_bits,
};
use crate::packet::{be16, be32, in_bounds, u16_from_be, u32_from_be, BoundsViolation, PacketView};
use vstd::prelude::*;

verus! {

/// Octets in one Ethernet address.
pub const ETH_ALEN: u32 = 6;

/// Where the ethertype stands in the Ethernet header.
pub const ETH_PROTO_OFFSET: usize = 12;

/// Octets in the Ethernet header: where the network header starts.
pub const ETH_HLEN: u32 = 14;

/// The ethertype of IPv4.
pub const ETH_P_IP: u32 = 2048;

/// The IPv4 protocol number of UDP.
pub const IPPROTO_UDP: u32 = 17;

/// Octets in the fixed part of the IPv4 header.
pub const IPHDR_LEN: usize = 20;

/// Octets in the UDP header.
pub const UDPHDR_LEN: usize = 8;

/// The Ethernet header of a frame. `h_proto` is in host order.
#[allow(non_camel_case_types)]
#[derive(Debug, Copy, Clone)]
pub struct ethhdr {
    pub h_dest: [u8; 6],
    pub h_source: [u8; 6],
    pub h_proto: u16,
}

impl ethhdr {
    /// Whether this is the header that the 14 bytes `bytes` hold.
    pub open spec fn describes(self, bytes: Seq<u8>) -> bool {
        &&& self.h_dest@ == bytes.subrange(0, 6)
        &&& self.h_source@ == bytes.subrange(6, 12)
        &&& self.h_proto == be16(bytes, ETH_PROTO_OFFSET as int)
    }

    /// Reads the Ethernet header at the start of the frame.
    pub fn parse(packet: &PacketView) -> (header: Result<ethhdr, BoundsViolation>)
        ensures
            header is Ok <==> in_bounds(packet@.len(), 0, ETH_HLEN as int),
            header matches Ok(h) ==> h.describes(packet@.subrange(0, ETH_HLEN as int)),
    {
        let w = packet.ptr_at(0, 14)?;
        let h = ethhdr {
            h_dest: [w[0], w[1], w[2], w[3], w[4], w[5]],
            h_source: [w[6], w[7], w[8], w[9], w[10], w[11]],
            h_proto: u16_from_be(w[12], w[13]),
        };
        assert(h.h_dest@ =~= w@.subrange(0, 6));
        assert(h.h_source@ =~= w@.subrange(6, 12));
        Ok(h)
    }
}

/// The fixed part of the IPv4 header. The first byte, which packs the header
/// length and the version, is kept as it is on the wire; the other fields are
/// in host order.
#[allow(non_camel_case_types)]
#[derive(Debug, Copy, Clone)]
pub struct iphdr {
    pub _bitfield_1: __BindgenBitfieldUnit<[u8; 1]>,
    pub tos: u8,
    pub tot_len: u16,
    pub id: u16,
    pub frag_off: u16,
    pub ttl: u8,
    pub protocol: u8,
    pub check: u16,
    pub saddr: u32,
    pub daddr: u32,
}

impl iphdr {
    /// Whether this is the header that the 20 bytes `bytes` hold.
    pub open spec fn describes(self, bytes: Seq<u8>) -> bool {
        &&& self._bitfield_1@ == bytes.subrange(0, 1)
        &&& self.tos == bytes[1]
        &&& self.tot_len == be16(bytes, 2)
        &&& self.id == be16(bytes, 4)
        &&& self.frag_off == be16(bytes, 6)
        &&& self.ttl == bytes[8]
        &&& self.protocol == bytes[9]
        &&& self.check == be16(bytes, 10)
        &&& self.saddr == be32(bytes, 12)
        &&& self.daddr == be32(bytes, 16)
    }

    /// The header length in units of four bytes: the low four bits of the
    /// first byte.
    pub open spec fn spec_ihl(self) -> u8 {
        self._bitfield_1@[0] & 0x0f
    }

    /// The version: the high four bits of the first byte.
    pub open spec fn spec_version(self) -> u8 {
        self._bitfield_1@[0] >> 4
    }

    /// Reads the IPv4 header that starts `offset` bytes into the frame.
    pub fn parse(packet: &PacketView, offset: usize) -> (header: Result<iphdr, BoundsViolation>)
        ensures
            header is Ok <==> in_bounds(packet@.len(), offset as int, IPHDR_LEN as int),
            header matches Ok(h) ==> h.describes(
                packet@.subrange(offset as int, offset + IPHDR_LEN),
            ),
    {
        let w = packet.ptr_at(offset, IPHDR_LEN)?;
        let h = iphdr {
            _bitfield_1: __BindgenBitfieldUnit::new([w[0]]),
            tos: w[1],
            tot_len: u16_from_be(w[2], w[3]),
            id: u16_from_be(w[4], w[5]),
            frag_off: u16_from_be(w[6], w[7]),
            ttl: w[8],
            protocol: w[9],
            check: u16_from_be(w[10], w[11]),
            saddr: u32_from_be(w[12], w[13], w[14], w[15]),
            daddr: u32_from_be(w[16], w[17], w[18], w[19]),
        };
        assert(h._bitfield_1@ =~= w@.subrange(0, 1));
        Ok(h)
    }

    /// The header length in units of four bytes.
    #[inline]
    pub fn ihl(&self) -> (ihl: u8)
        ensures
            ihl == self.spec_ihl(),
            ihl <= 15,
    {
        let field = self._bitfield_1.get(0usize, 4u8);
        proof {
            lemma_nibbles(self._bitfield_1@);
        }
        field as u8
    }

    /// The version.
    #[inline]
    pub fn version(&self) -> (version: u8)
        ensures
            version == self.spec_version(),
            version <= 15,
    {
        let field = self._bitfield_1.get(4usize, 4u8);
        proof {
            lemma_nibbles(self._bitfield_1@);
        }
        field as u8
    }

    /// Writes the low four bits of `val` as the header length and keeps the
    /// version.
    #[inline]
    pub fn set_ihl(&mut self, val: u8)
        ensures
            final(self).spec_ihl() == val & 0x0f,
            final(self).spec_version() == old(self).spec_version(),
            final(self)._bitfield_1@.len() == 1,
            final(self).same_fields(*old(self)),
    {
        self._bitfield_1.set(0usize, 4u8, val as u64);
        proof {
            let before = old(self)._bitfield_1@;
            let after = self._bitfield_1@;
            lemma_field_value_same_bits(after, before, 4, 4);
            lemma_nibbles(before);
            lemma_nibbles(after);
            lemma_low_nibble(val);
        }
    }

    /// Writes the low four bits of `val` as the version and keeps the header
    /// length.
    #[inline]
    pub fn set_version(&mut self, val: u8)
        ensures
            final(self).spec_version() == val & 0x0f,
            final(self).spec_ihl() == old(self).spec_ihl(),
            final(self)._bitfield_1@.len() == 1,
            final(self).same_fields(*old(self)),
    {
        self._bitfield_1.set(4usize, 4u8, val as u64);
        proof {
            let before = old(self)._bitfield_1@;
            let after = self._bitfield_1@;
            lemma_field_value_same_bits(after, before, 0, 4);
            lemma_nibbles(before);
            lemma_nibbles(after);
            lemma_low_nibble(val);
        }
    }

    /// The first byte of a header with the given header length and version,
    /// each cut to its low four bits.
    #[inline]
    pub fn new_bitfield_1(ihl: u8, version: u8) -> (unit: __BindgenBitfieldUnit<[u8; 1]>)
        ensures
            unit@.len() == 1,
            unit@[0] & 0x0f == ihl & 0x0f,
            unit@[0] >> 4 == version & 0x0f,
    {
        let mut unit: __BindgenBitfieldUnit<[u8; 1]> = __BindgenBitfieldUnit::new([0u8]);
        unit.set(0usize, 4u8, ihl as u64);
        let ghost mid = unit@;
        unit.set(4usize, 4u8, version as u64);
        proof {
            let after = unit@;
            lemma_field_value_same_bits(after, mid, 0, 4);
            lemma_nibbles(mid);
            lemma_nibbles(after);
            lemma_low_nibble(ihl);
            lemma_low_nibble(version);
        }
        unit
    }

    /// Whether every field but the first byte is the same in both headers.
    pub open spec fn same_fields(self, other: iphdr) -> bool {
        &&& self.tos == other.tos
        &&& self.tot_len == other.tot_len
        &&& self.id == other.id
        &&& self.frag_off == other.frag_off
        &&& self.ttl == other.ttl
        &&& self.protocol == other.protocol
        &&& self.check == other.check
        &&& self.saddr == other.saddr
        &&& self.daddr == other.daddr
    }
}

/// The UDP header, in host order.
#[allow(non_camel_case_types)]
#[derive(Debug, Copy, Clone)]
pub struct udphdr {
    pub source: u16,
    pub dest: u16,
    pub len: u16,
    pub check: u16,
}

impl udphdr {
    /// Whether this is the header that the 8 bytes `bytes` hold.
    pub open spec fn describes(self, bytes: Seq<u8>) -> bool {
        &&& self.source == be16(bytes, 0)
        &&& self.dest == be16(bytes, 2)
        &&& self.len == be16(bytes, 4)
        &&& self.check == be16(bytes, 6)
    }

    /// Reads the UDP header that starts `offset` bytes into the frame.
    pub fn parse(packet: &PacketView, offset: usize) -> (header: Result<udphdr, BoundsViolation>)
        ensures
            header is Ok <==> in_bounds(packet@.len(), offset as int, UDPHDR_LEN as int),
            header matches Ok(h) ==> h.describes(
                packet@.subrange(offset as int, offset + UDPHDR_LEN),
            ),
    {
        let w = packet.ptr_at(offset, UDPHDR_LEN)?;
        Ok(
            udphdr {
                source: u16_from_be(w[0], w[1]),
                dest: u16_from_be(w[2], w[3]),
                len: u16_from_be(w[4], w[5]),
                check: u16_from_be(w[6], w[7]),
            },
        )
    }
}

/// Octets of the UDP payload that are inspected.
pub const DNS_PREFIX_LEN: usize = 10;

/// The bit of the third DNS header byte that marks an authoritative answer.
pub const DNS_FLAG_AA: u8 = 0x04;

/// The first ten bytes of a DNS message, as they are on the wire.
#[derive(Debug, Copy, Clone)]
pub struct DnsPrefix {
    pub data: [u8; 10],
}

impl DnsPrefix {
    /// The number of answer records: bytes 6 and 7.
    pub open spec fn spec_ancount(self) -> u16 {
        be16(self.data@, 6)
    }

    /// The number of authority records: bytes 8 and 9.
    pub open spec fn spec_nscount(self) -> u16 {
        be16(self.data@, 8)
    }

    /// Whether the authoritative-answer flag is set.
    pub open spec fn spec_authoritative(self) -> bool {
        self.data@[2] & DNS_FLAG_AA != 0
    }

    /// Reads the DNS prefix that starts `offset` bytes into the frame.
    pub fn parse(packet: &PacketView, offset: usize) -> (prefix: Result<
        DnsPrefix,
        BoundsViolation,
    >)
        ensures
            prefix is Ok <==> in_bounds(packet@.len(), offset as int, DNS_PREFIX_LEN as int),
            prefix matches Ok(p) ==> p.data@ == packet@.subrange(
                offset as int,
                offset + DNS_PREFIX_LEN,
            ),
    {
        let w = packet.ptr_at(offset, DNS_PREFIX_LEN)?;
        let p = DnsPrefix { data: [w[0], w[1], w[2], w[3], w[4], w[5], w[6], w[7], w[8], w[9]] };
        assert(p.data@ =~= w@);
        Ok(p)
    }

    /// The number of answer records.
    pub fn ancount(&self) -> (count: u16)
        ensures
            count == self.spec_ancount(),
    {
        u16_from_be(self.data[6], self.data[7])
    }

    /// The number of authority records.
    pub fn nscount(&self) -> (count: u16)
        ensures
            count == self.spec_nscount(),
    {
        u16_from_be(self.data[8], self.data[9])
    }

    /// Whether the authoritative-answer flag is set.
    pub fn authoritative(&self) -> (flag: bool)
        ensures
            flag == self.spec_authoritative(),
    {
        (self.data[2] & DNS_FLAG_AA) != 0
    }
}

/// The low four bits of a byte, as a field value.
proof fn lemma_low_nibble(val: u8)
    ensures
        low_bits(val as u64, 4) == val & 0x0f,
{
    assert((val as u64) & !(0xffff_ffff_ffff_ffffu64 << 4u64) == (val & 0x0f) as u64)
        by (bit_vector);
}

/// The two four-bit fields of a one-byte unit are the low and the high half
/// of its byte.
pub proof fn lemma_nibbles(unit: Seq<u8>)
    requires
        unit.len() == 1,
    ensures
        field_value(unit, 0, 4) == unit[0] & 0x0f,
        field_value(unit, 4, 4) == unit[0] >> 4,
        unit[0] & 0x0f <= 15,
        unit[0] >> 4 <= 15,
{
    reveal_with_fuel(field_value, 5);
    let b = unit[0];
    let b0 = (b >> 0u8) & 1 == 1;
    let b1 = (b >> 1u8) & 1 == 1;
    let b2 = (b >> 2u8) & 1 == 1;
    let b3 = (b >> 3u8) & 1 == 1;
    let b4 = (b >> 4u8) & 1 == 1;
    let b5 = (b >> 5u8) & 1 == 1;
    let b6 = (b >> 6u8) & 1 == 1;
    let b7 = (b >> 7u8) & 1 == 1;
    assert(bit_of(unit, 0) == b0 && bit_of(unit, 1) == b1 && bit_of(unit, 2) == b2 && bit_of(
        unit,
        3,
    ) == b3);
    assert(bit_of(unit, 4) == b4 && bit_of(unit, 5) == b5 && bit_of(unit, 6) == b6 && bit_of(
        unit,
        7,
    ) == b7);
    let l0: u64 = if b0 { 0u64 | (1u64 << 0u64) } else { 0u64 };
    let l1: u64 = if b1 { l0 | (1u64 << 1u64) } else { l0 };
    let l2: u64 = if b2 { l1 | (1u64 << 2u64) } else { l1 };
    let l3: u64 = if b3 { l2 | (1u64 << 3u64) } else { l2 };
    assert(field_value(unit, 0, 4) == l3);
    let h0: u64 = if b4 { 0u64 | (1u64 << 0u64) } else { 0u64 };
    let h1: u64 = if b5 { h0 | (1u64 << 1u64) } else { h0 };
    let h2: u64 = if b6 { h1 | (1u64 << 2u64) } else { h1 };
    let h3: u64 = if b7 { h2 | (1u64 << 3u64) } else { h2 };
    assert(field_value(unit, 4, 4) == h3);
    assert(l3 == b & 0x0f && h3 == b >> 4 && b & 0x0f <= 15 && b >> 4 <= 15) by (bit_vector)
        requires
            b0 == ((b >> 0u8) & 1 == 1),
            b1 == ((b >> 1u8) & 1 == 1),
            b2 == ((b >> 2u8) & 1 == 1),
            b3 == ((b >> 3u8) & 1 == 1),
            b4 == ((b >> 4u8) & 1 == 1),
            b5 == ((b >> 5u8) & 1 == 1),
            b6 == ((b >> 6u8) & 1 == 1),
            b7 == ((b >> 7u8) & 1 == 1),
            l0 == (if b0 { 0u64 | (1u64 << 0u64) } else { 0u64 }),
            l1 == (if b1 { l0 | (1u64 << 1u64) } else { l0 }),
            l2 == (if b2 { l1 | (1u64 << 2u64) } else { l1 }),
            l3 == (if b3 { l2 | (1u64 << 3u64) } else { l2 }),
            h0 == (if b4 { 0u64 | (1u64 << 0u64) } else { 0u64 }),
            h1 == (if b5 { h0 | (1u64 << 1u64) } else { h0 }),
            h2 == (if b6 { h1 | (1u64 << 2u64) } else { h1 }),
            h3 == (if b7 { h2 | (1u64 << 3u64) } else { h2 }),
    ;
}

} // verus!
