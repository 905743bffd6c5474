//! A classifier for received frames that drops DNS responses which look
//! spoofed, together with what lives around it: the bounds-checked header
//! parser, the table of sources whose traffic is inspected, the ring that
//! carries decision records to a consumer, and the consumer's decoding and
//! rendering of those records.

pub mod bitfield;
pub mod blocklist;
pub mod buffers;
pub mod classifier;
pub mod consumer;
pub mod events;
pub mod headers;
pub mod laws;
pub mod packet;
pub mod ring;
