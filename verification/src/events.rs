//! The decision record, and the bytes as which it travels from the classifier
//! to the consumer.

use vstd::prelude::*;

verus! {

/// Octets in an encoded decision record.
pub const PACKET_LOG_LEN: usize = 12;

/// What is reported of one classified packet: its source and destination
/// address and the code of the action taken.
#[derive(Clone, Copy, Debug, PartialEq, Eq, Structural)]
pub struct PacketLog {
    pub ipv4_src_addr: u32,
    pub ipv4_dst_addr: u32,
    pub action: u32,
}

/// The four bytes of `value`, the least significant first.
pub open spec fn le_bytes(value: u32) -> Seq<u8> {
    seq![
        (value % 256) as u8,
        (value / 256 % 256) as u8,
        (value / 65536 % 256) as u8,
        (value / 16777216) as u8,
    ]
}

/// The 32-bit value that four bytes at `at` hold, the least significant first.
pub open spec fn le32(bytes: Seq<u8>, at: int) -> u32 {
    (bytes[at] as int + bytes[at + 1] as int * 256 + bytes[at + 2] as int * 65536 + bytes[at
        + 3] as int * 16777216) as u32
}

/// The record as it crosses from the classifier to the consumer: its three
/// fields in order, four bytes each, with nothing before, between or after.
pub open spec fn spec_encode(record: PacketLog) -> Seq<u8> {
    le_bytes(record.ipv4_src_addr) + le_bytes(record.ipv4_dst_addr) + le_bytes(record.action)
}

/// The record that the first twelve bytes hold, if there are that many.
pub open spec fn spec_decode(bytes: Seq<u8>) -> Option<PacketLog> {
    if bytes.len() >= PACKET_LOG_LEN {
        Some(
            PacketLog {
                ipv4_src_addr: le32(bytes, 0),
                ipv4_dst_addr: le32(bytes, 4),
                action: le32(bytes, 8),
            },
        )
    } else {
        None
    }
}

/// Decoding an encoded record gives the record back, field for field.
pub proof fn lemma_decode_encode(record: PacketLog)
    ensures
        spec_encode(record).len() == PACKET_LOG_LEN,
        spec_decode(spec_encode(record)) == Some(record),
{
    let bytes = spec_encode(record);
    lemma_le32_le_bytes(record.ipv4_src_addr);
    lemma_le32_le_bytes(record.ipv4_dst_addr);
    lemma_le32_le_bytes(record.action);
    assert(bytes.subrange(0, 4) == le_bytes(record.ipv4_src_addr));
    assert(bytes.subrange(4, 8) == le_bytes(record.ipv4_dst_addr));
    assert(bytes.subrange(8, 12) == le_bytes(record.action));
    assert(le32(bytes, 0) == le32(bytes.subrange(0, 4), 0));
    assert(le32(bytes, 4) == le32(bytes.subrange(4, 8), 0));
    assert(le32(bytes, 8) == le32(bytes.subrange(8, 12), 0));
}

/// Four bytes, the least significant first, hold the value they were cut from.
pub proof fn lemma_le32_le_bytes(value: u32)
    ensures
        le_bytes(value).len() == 4,
        le32(le_bytes(value), 0) == value,
{
}

impl PacketLog {
    /// The record as bytes.
    pub fn encode(&self) -> (bytes: [u8; 12])
        ensures
            bytes@ == spec_encode(*self),
    {
        let s = self.ipv4_src_addr;
        let d = self.ipv4_dst_addr;
        let a = self.action;
        let bytes = [
            (s % 256) as u8,
            (s / 256 % 256) as u8,
            (s / 65536 % 256) as u8,
            (s / 16777216) as u8,
            (d % 256) as u8,
            (d / 256 % 256) as u8,
            (d / 65536 % 256) as u8,
            (d / 16777216) as u8,
            (a % 256) as u8,
            (a / 256 % 256) as u8,
            (a / 65536 % 256) as u8,
            (a / 16777216) as u8,
        ];
        assert(bytes@ =~= spec_encode(*self));
        bytes
    }

    /// The record at the start of `bytes`; none if there are fewer than
    /// twelve bytes.
    pub fn decode(bytes: &[u8]) -> (record: Option<PacketLog>)
        ensures
            record == spec_decode(bytes@),
    {
        if bytes.len() < PACKET_LOG_LEN {
            return None;
        }
        Some(
            PacketLog {
                ipv4_src_addr: u32_from_le(bytes[0], bytes[1], bytes[2], bytes[3]),
                ipv4_dst_addr: u32_from_le(bytes[4], bytes[5], bytes[6], bytes[7]),
                action: u32_from_le(bytes[8], bytes[9], bytes[10], bytes[11]),
            },
        )
    }
}

/// The 32-bit value of four bytes, the least significant first.
pub fn u32_from_le(b0: u8, b1: u8, b2: u8, b3: u8) -> (value: u32)
    ensures
        value == b0 as int + b1 as int * 256 + b2 as int * 65536 + b3 as int * 16777216,
{
    (b0 as u32) + (b1 as u32) * 256 + (b2 as u32) * 65536 + (b3 as u32) * 16777216
}

} // verus!
