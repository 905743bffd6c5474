//! The consumer's side: decoding the records of a batch and rendering them
//! for an operator.

use crate::buffers::{buffer_as_slice, buffer_contents};
use crate::events::{spec_decode, PacketLog};
use bytes::BytesMut;
use vstd::prelude::*;

verus! {

/// The character of the decimal digit `digit`.
pub open spec fn digit_char(digit: nat) -> char {
    (48 + digit) as char
}

/// The decimal numeral of `n`, without leading zeros.
pub open spec fn decimal(n: nat) -> Seq<char>
    decreases n,
{
    if n < 10 {
        seq![digit_char(n)]
    } else {
        decimal(n / 10).push(digit_char(n % 10))
    }
}

/// The address in dotted-decimal form: its four octets as decimal numerals,
/// the most significant first.
pub open spec fn dotted(address: u32) -> Seq<char> {
    decimal((address / 16777216) as nat) + seq!['.'] + decimal((address / 65536 % 256) as nat)
        + seq!['.'] + decimal((address / 256 % 256) as nat) + seq!['.'] + decimal(
        (address % 256) as nat,
    )
}

/// The line that tells an operator of one record.
pub open spec fn spec_log_line(record: PacketLog) -> Seq<char> {
    "LOG: SRC "@ + dotted(record.ipv4_src_addr) + ", DST "@ + dotted(record.ipv4_dst_addr)
        + ", ACTION "@ + decimal(record.action as nat)
}

/// The lines for the records of a batch, in the batch's order. A buffer that
/// holds no whole record gives no line.
pub open spec fn batch_lines(batch: Seq<Seq<u8>>) -> Seq<Seq<char>>
    decreases batch.len(),
{
    if batch.len() == 0 {
        Seq::empty()
    } else {
        let before = batch_lines(batch.drop_last());
        match spec_decode(batch.last()) {
            Some(record) => before.push(spec_log_line(record)),
            None => before,
        }
    }
}

/// The number of buffers of a batch that hold no whole record.
pub open spec fn batch_discarded(batch: Seq<Seq<u8>>) -> nat
    decreases batch.len(),
{
    if batch.len() == 0 {
        0
    } else {
        batch_discarded(batch.drop_last()) + (if spec_decode(batch.last()) is None {
            1nat
        } else {
            0nat
        })
    }
}

/// What the first `count` buffers hold.
pub open spec fn batch_of(buffers: Seq<BytesMut>, count: nat) -> Seq<Seq<u8>> {
    Seq::new(count, |i: int| buffer_contents(&buffers[i]))
}

/// The record that a buffer holds at its start; none if it holds fewer than
/// twelve bytes.
pub fn decode_event(buffer: &BytesMut) -> (record: Option<PacketLog>)
    ensures
        record == spec_decode(buffer_contents(buffer)),
{
    PacketLog::decode(buffer_as_slice(buffer))
}

/// The numeral of one decimal digit.
fn digit_str(digit: u32) -> (text: &'static str)
    requires
        digit < 10,
    ensures
        text@ == seq![digit_char(digit as nat)],
{
    proof {
        reveal_strlit("0");
        reveal_strlit("1");
        reveal_strlit("2");
        reveal_strlit("3");
        reveal_strlit("4");
        reveal_strlit("5");
        reveal_strlit("6");
        reveal_strlit("7");
        reveal_strlit("8");
        reveal_strlit("9");
    }
    let text = match digit {
        0 => "0",
        1 => "1",
        2 => "2",
        3 => "3",
        4 => "4",
        5 => "5",
        6 => "6",
        7 => "7",
        8 => "8",
        _ => "9",
    };
    assert(text@ =~= seq![digit_char(digit as nat)]);
    text
}

/// Appends the decimal numeral of `n`.
fn append_decimal(line: &mut String, n: u32)
    ensures
        final(line)@ == old(line)@ + decimal(n as nat),
    decreases n,
{
    if n >= 10 {
        append_decimal(line, n / 10);
    }
    line.append(digit_str(n % 10));
    assert(line@ =~= old(line)@ + decimal(n as nat));
}

/// Appends `address` in dotted-decimal form.
fn append_dotted(line: &mut String, address: u32)
    ensures
        final(line)@ == old(line)@ + dotted(address),
{
    proof {
        reveal_strlit(".");
    }
    append_decimal(line, address / 16777216);
    line.append(".");
    append_decimal(line, address / 65536 % 256);
    line.append(".");
    append_decimal(line, address / 256 % 256);
    line.append(".");
    append_decimal(line, address % 256);
    assert(line@ =~= old(line)@ + dotted(address));
}

/// Renders one record for the operator.
pub fn log_line(record: &PacketLog) -> (line: String)
    ensures
        line@ == spec_log_line(*record),
{
    let mut line = String::new();
    line.append("LOG: SRC ");
    append_dotted(&mut line, record.ipv4_src_addr);
    line.append(", DST ");
    append_dotted(&mut line, record.ipv4_dst_addr);
    line.append(", ACTION ");
    append_decimal(&mut line, record.action);
    assert(line@ =~= spec_log_line(*record));
    line
}

/// What became of one batch: the lines for its records, and the number of
/// buffers that held no whole record.
#[derive(Debug, Clone)]
pub struct Consumed {
    pub lines: Vec<String>,
    pub discarded: usize,
}

/// Decodes and renders the records in the first `read` buffers, in order. A
/// buffer that holds no whole record is counted and passed over.
pub fn consume_events(buffers: &Vec<BytesMut>, read: usize) -> (consumed: Consumed)
    requires
        read <= buffers@.len(),
    ensures
        consumed.lines.deep_view() == batch_lines(batch_of(buffers@, read as nat)),
        consumed.discarded == batch_discarded(batch_of(buffers@, read as nat)),
{
    let mut lines: Vec<String> = Vec::new();
    let mut discarded: usize = 0;
    let mut i: usize = 0;
    assert(lines.deep_view() =~= batch_lines(batch_of(buffers@, 0)));
    while i < read
        invariant
            i <= read <= buffers@.len(),
            discarded <= i,
            lines.deep_view() == batch_lines(batch_of(buffers@, i as nat)),
            discarded == batch_discarded(batch_of(buffers@, i as nat)),
        decreases read - i,
    {
        let ghost before = lines.deep_view();
        proof {
            let next = batch_of(buffers@, (i + 1) as nat);
            assert(next.drop_last() =~= batch_of(buffers@, i as nat));
            assert(next.last() == buffer_contents(&buffers@[i as int]));
        }
        match decode_event(&buffers[i]) {
            Some(record) => {
                let line = log_line(&record);
                lines.push(line);
                assert(lines.deep_view() =~= before.push(spec_log_line(record)));
            },
            None => {
                discarded = discarded + 1;
            },
        }
        i = i + 1;
    }
    Consumed { lines, discarded }
}

} // verus!
