//! Bit fields packed into a block of bytes. Bits are numbered from the least
//! significant bit of the first byte upwards.

use vstd::prelude::*;

verus! {

/// Whether bit `index` of a byte string is set. Bits are numbered from the
/// least significant bit of byte 0 upwards: bit `index` is bit `index % 8`
/// of byte `index / 8`.
pub open spec fn bit_of(bytes: Seq<u8>, index: int) -> bool {
    (bytes[index / 8] >> ((index % 8) as u8)) & 1 == 1
}

/// Whether bit `index` of a 64-bit value is set.
pub open spec fn value_bit(val: u64, index: int) -> bool {
    (val >> (index as u64)) & 1 == 1
}

/// The value of the bit field that starts at bit `offset` and is `width` bits
/// wide: bit `i` of the value is stored bit `offset + i`, and the bits from
/// `width` upwards are zero.
pub open spec fn field_value(bytes: Seq<u8>, offset: int, width: nat) -> u64
    decreases width,
{
    if width == 0 {
        0
    } else {
        let low = field_value(bytes, offset, (width - 1) as nat);
        if bit_of(bytes, offset + width - 1) {
            low | (1u64 << ((width - 1) as u64))
        } else {
            low
        }
    }
}

/// The low `width` bits of `val`.
pub open spec fn low_bits(val: u64, width: nat) -> u64 {
    if width >= 64 {
        val
    } else {
        val & !(0xffff_ffff_ffff_ffffu64 << (width as u64))
    }
}

/// A fixed block of bytes that holds a run of packed bit fields.
#[allow(non_camel_case_types)]
#[derive(Copy, Clone, Debug, Default, Eq, Hash, Ord, PartialEq, PartialOrd)]
pub struct __BindgenBitfieldUnit<Storage> {
    storage: Storage,
}

impl<Storage> __BindgenBitfieldUnit<Storage> {
    /// The bytes that the unit holds.
    pub closed spec fn storage(self) -> Storage {
        self.storage
    }

    /// Wraps `storage` without changing it.
    #[inline]
    pub fn new(storage: Storage) -> (unit: Self)
        ensures
            unit.storage() == storage,
    {
        Self { storage }
    }
}

impl<const N: usize> View for __BindgenBitfieldUnit<[u8; N]> {
    type V = Seq<u8>;

    open spec fn view(&self) -> Seq<u8> {
        self.storage()@
    }
}

impl<const N: usize> __BindgenBitfieldUnit<[u8; N]> {
    /// Reads one bit.
    #[inline]
    pub fn get_bit(&self, index: usize) -> (bit: bool)
        requires
            index / 8 < N,
        ensures
            bit == bit_of(self@, index as int),
    {
        let byte_index = index / 8;
        let byte = self.storage[byte_index];
        let bit_index = index % 8;
        let mask: u8 = 1u8 << bit_index;
        assert((byte & (1u8 << bit_index) == (1u8 << bit_index)) == ((byte >> (bit_index as u8)) & 1
            == 1)) by (bit_vector)
            requires
                bit_index < 8,
        ;
        byte & mask == mask
    }

    /// Sets or clears one bit and leaves every other bit as it was.
    #[inline]
    pub fn set_bit(&mut self, index: usize, val: bool)
        requires
            index / 8 < N,
        ensures
            final(self)@.len() == N,
            forall|j: int|
                0 <= j < 8 * N ==> #[trigger] bit_of(final(self)@, j) == (if j == index {
                    val
                } else {
                    bit_of(old(self)@, j)
                }),
    {
        let byte_index = index / 8;
        let bit_index = index % 8;
        let mask: u8 = 1u8 << bit_index;
        let byte = self.storage[byte_index];
        let updated: u8 = if val {
            byte | mask
        } else {
            byte & !mask
        };
        self.storage[byte_index] = updated;
        proof {
            let before = old(self)@;
            let after = self@;
            assert(after == before.update(byte_index as int, updated));
            assert forall|j: int| 0 <= j < 8 * N implies #[trigger] bit_of(after, j) == (if j
                == index {
                val
            } else {
                bit_of(before, j)
            }) by {
                if j / 8 == byte_index as int {
                    let k = (j % 8) as u8;
                    lemma_bit_after_write(byte, bit_index as u8, k, val);
                }
            }
        }
    }

    /// Reads the bit field that starts at bit `bit_offset` and is `bit_width`
    /// bits wide.
    #[inline]
    pub fn get(&self, bit_offset: usize, bit_width: u8) -> (val: u64)
        requires
            bit_width <= 64,
            bit_offset / 8 < N,
            bit_offset + bit_width <= 8 * N,
            bit_offset + bit_width <= usize::MAX,
        ensures
            val == field_value(self@, bit_offset as int, bit_width as nat),
            forall|i: int|
                0 <= i < 64 ==> #[trigger] value_bit(val, i) == (i < bit_width && bit_of(
                    self@,
                    bit_offset + i,
                )),
    {
        let width = bit_width as usize;
        let mut val: u64 = 0;
        let mut i: usize = 0;
        while i < width
            invariant
                i <= width <= 64,
                bit_offset + width <= 8 * N,
                bit_offset + width <= usize::MAX,
                val == field_value(self@, bit_offset as int, i as nat),
            decreases width - i,
        {
            if self.get_bit(i + bit_offset) {
                val = val | (1u64 << i);
            }
            i = i + 1;
        }
        proof {
            lemma_field_value_bits(self@, bit_offset as int, bit_width as nat);
        }
        val
    }

    /// Writes the low `bit_width` bits of `val` into the bit field that starts
    /// at bit `bit_offset`, and leaves every bit outside the field as it was.
    #[inline]
    pub fn set(&mut self, bit_offset: usize, bit_width: u8, val: u64)
        requires
            bit_width <= 64,
            bit_offset / 8 < N,
            bit_offset + bit_width <= 8 * N,
            bit_offset + bit_width <= usize::MAX,
        ensures
            final(self)@.len() == N,
            forall|j: int|
                0 <= j < 8 * N ==> #[trigger] bit_of(final(self)@, j) == (if bit_offset <= j
                    < bit_offset + bit_width {
                    value_bit(val, j - bit_offset)
                } else {
                    bit_of(old(self)@, j)
                }),
            field_value(final(self)@, bit_offset as int, bit_width as nat) == low_bits(
                val,
                bit_width as nat,
            ),
    {
        let width = bit_width as usize;
        let mut i: usize = 0;
        while i < width
            invariant
                i <= width <= 64,
                bit_offset + width <= 8 * N,
                bit_offset + width <= usize::MAX,
                self@.len() == N,
                forall|j: int|
                    0 <= j < 8 * N ==> #[trigger] bit_of(self@, j) == (if bit_offset <= j
                        < bit_offset + i {
                        value_bit(val, j - bit_offset)
                    } else {
                        bit_of(old(self)@, j)
                    }),
            decreases width - i,
        {
            let mask: u64 = 1u64 << i;
            let val_bit_is_set = val & mask == mask;
            assert((val & (1u64 << i) == (1u64 << i)) == ((val >> (i as u64)) & 1 == 1))
                by (bit_vector)
                requires
                    i < 64,
            ;
            self.set_bit(i + bit_offset, val_bit_is_set);
            i = i + 1;
        }
        proof {
            lemma_field_value_of_written(self@, bit_offset as int, bit_width as nat, val);
        }
    }
}

/// The bits of a field's value are the stored bits of the field, and no bit
/// above the field's width is set.
pub proof fn lemma_field_value_bits(bytes: Seq<u8>, offset: int, width: nat)
    requires
        width <= 64,
    ensures
        forall|i: int|
            0 <= i < 64 ==> #[trigger] value_bit(field_value(bytes, offset, width), i) == (i
                < width && bit_of(bytes, offset + i)),
    decreases width,
{
    if width == 0 {
        assert forall|i: int| 0 <= i < 64 implies !#[trigger] value_bit(0u64, i) by {
            let k = i as u64;
            assert((0u64 >> k) & 1 == 0) by (bit_vector);
        }
    } else {
        let low = field_value(bytes, offset, (width - 1) as nat);
        let top = (width - 1) as u64;
        lemma_field_value_bits(bytes, offset, (width - 1) as nat);
        assert forall|i: int| 0 <= i < 64 implies #[trigger] value_bit(
            field_value(bytes, offset, width),
            i,
        ) == (i < width && bit_of(bytes, offset + i)) by {
            let k = i as u64;
            assert(value_bit(low, i) == (i < width - 1 && bit_of(bytes, offset + i)));
            assert(((low | (1u64 << top)) >> k) & 1 == 1 <==> (k == top || (low >> k) & 1 == 1))
                by (bit_vector)
                requires
                    top < 64,
                    k < 64,
            ;
        }
    }
}

/// A field whose stored bits are the low bits of `val` has the low bits of
/// `val` as its value: what `set` writes, `get` reads back.
pub proof fn lemma_field_value_of_written(bytes: Seq<u8>, offset: int, width: nat, val: u64)
    requires
        width <= 64,
        forall|i: int| 0 <= i < width ==> bit_of(bytes, offset + i) == value_bit(val, i),
    ensures
        field_value(bytes, offset, width) == low_bits(val, width),
    decreases width,
{
    if width == 0 {
        assert(val & !(0xffff_ffff_ffff_ffffu64 << 0u64) == 0) by (bit_vector);
    } else {
        let low = field_value(bytes, offset, (width - 1) as nat);
        let top = (width - 1) as u64;
        lemma_field_value_of_written(bytes, offset, (width - 1) as nat, val);
        let set_top = (val >> top) & 1 == 1;
        assert(bit_of(bytes, offset + width - 1) == set_top) by {
            assert(bit_of(bytes, offset + top) == value_bit(val, top as int));
        }
        let target = low_bits(val, width);
        assert(target == if set_top {
            low | (1u64 << top)
        } else {
            low
        }) by {
            lemma_low_bits_step(val, top);
        }
    }
}

/// The low `top + 1` bits of `val` are its low `top` bits and bit `top`.
proof fn lemma_low_bits_step(val: u64, top: u64)
    requires
        top < 64,
    ensures
        low_bits(val, (top + 1) as nat) == (if (val >> top) & 1 == 1 {
            low_bits(val, top as nat) | (1u64 << top)
        } else {
            low_bits(val, top as nat)
        }),
{
    let low = val & !(0xffff_ffff_ffff_ffffu64 << top);
    assert(low_bits(val, top as nat) == low);
    if top == 63 {
        assert((if (val >> 63u64) & 1 == 1 {
            (val & !(0xffff_ffff_ffff_ffffu64 << 63u64)) | (1u64 << 63u64)
        } else {
            val & !(0xffff_ffff_ffff_ffffu64 << 63u64)
        }) == val) by (bit_vector);
    } else {
        let w = (top + 1) as u64;
        assert(low_bits(val, (top + 1) as nat) == val & !(0xffff_ffff_ffff_ffffu64 << w));
        assert((if (val >> top) & 1 == 1 {
            (val & !(0xffff_ffff_ffff_ffffu64 << top)) | (1u64 << top)
        } else {
            val & !(0xffff_ffff_ffff_ffffu64 << top)
        }) == val & !(0xffff_ffff_ffff_ffffu64 << w)) by (bit_vector)
            requires
                w < 64,
                top == w - 1,
        ;
    }
}

/// Two byte strings that agree on the bits of a field give it the same value.
pub proof fn lemma_field_value_same_bits(a: Seq<u8>, b: Seq<u8>, offset: int, width: nat)
    requires
        forall|j: int| offset <= j < offset + width ==> bit_of(a, j) == bit_of(b, j),
    ensures
        field_value(a, offset, width) == field_value(b, offset, width),
    decreases width,
{
    if width > 0 {
        lemma_field_value_same_bits(a, b, offset, (width - 1) as nat);
        assert(bit_of(a, offset + (width - 1)) == bit_of(b, offset + (width - 1)));
    }
}

/// Byte strings of one length whose bits are the same are the same: what is
/// said of every bit of a unit says what its bytes are.
pub proof fn lemma_bits_determine_bytes(a: Seq<u8>, b: Seq<u8>)
    requires
        a.len() == b.len(),
        forall|j: int| 0 <= j < 8 * a.len() ==> bit_of(a, j) == bit_of(b, j),
    ensures
        a == b,
{
    assert forall|i: int| 0 <= i < a.len() implies a[i] == b[i] by {
        let x = a[i];
        let y = b[i];
        assert(bit_of(a, 8 * i) == bit_of(b, 8 * i));
        assert(bit_of(a, 8 * i + 1) == bit_of(b, 8 * i + 1));
        assert(bit_of(a, 8 * i + 2) == bit_of(b, 8 * i + 2));
        assert(bit_of(a, 8 * i + 3) == bit_of(b, 8 * i + 3));
        assert(bit_of(a, 8 * i + 4) == bit_of(b, 8 * i + 4));
        assert(bit_of(a, 8 * i + 5) == bit_of(b, 8 * i + 5));
        assert(bit_of(a, 8 * i + 6) == bit_of(b, 8 * i + 6));
        assert(bit_of(a, 8 * i + 7) == bit_of(b, 8 * i + 7));
        assert(x == y) by (bit_vector)
            requires
                ((x >> 0u8) & 1 == 1) == ((y >> 0u8) & 1 == 1),
                ((x >> 1u8) & 1 == 1) == ((y >> 1u8) & 1 == 1),
                ((x >> 2u8) & 1 == 1) == ((y >> 2u8) & 1 == 1),
                ((x >> 3u8) & 1 == 1) == ((y >> 3u8) & 1 == 1),
                ((x >> 4u8) & 1 == 1) == ((y >> 4u8) & 1 == 1),
                ((x >> 5u8) & 1 == 1) == ((y >> 5u8) & 1 == 1),
                ((x >> 6u8) & 1 == 1) == ((y >> 6u8) & 1 == 1),
                ((x >> 7u8) & 1 == 1) == ((y >> 7u8) & 1 == 1),
        ;
    }
    assert(a =~= b);
}

/// How writing bit `m` of a byte shows in its bit `k`.
proof fn lemma_bit_after_write(byte: u8, m: u8, k: u8, val: bool)
    requires
        m < 8,
        k < 8,
    ensures
        ((if val {
            byte | (1u8 << m)
        } else {
            byte & !(1u8 << m)
        }) >> k) & 1 == 1 <==> (if k == m {
            val
        } else {
            (byte >> k) & 1 == 1
        }),
{
    assert(((byte | (1u8 << m)) >> k) & 1 == 1 <==> (k == m || (byte >> k) & 1 == 1))
        by (bit_vector)
        requires
            m < 8,
            k < 8,
    ;
    assert(((byte & !(1u8 << m)) >> k) & 1 == 1 <==> (k != m && (byte >> k) & 1 == 1))
        by (bit_vector)
        requires
            m < 8,
            k < 8,
    ;
}

} // verus!
