//! Integers of the smallest width that holds them, as they are sent down the wire.
use crate::error::Error;
use crate::reader::{unexpected_eof, Reader};
use crate::types::IpfiInteger;
use vstd::prelude::*;

verus! {

/// The `width` bytes of `value` in little endian order.
pub open spec fn le_bytes(value: nat, width: nat) -> Seq<u8>
    decreases width,
{
    if width == 0 {
        seq![]
    } else {
        seq![(value % 256) as u8] + le_bytes(value / 256, (width - 1) as nat)
    }
}

/// The number that bytes in little endian order stand for.
pub open spec fn le_value(bytes: Seq<u8>) -> nat
    decreases bytes.len(),
{
    if bytes.len() == 0 {
        0
    } else {
        bytes[0] as nat + 256 * le_value(bytes.skip(1))
    }
}

/// One more than the largest number that `width` bytes can hold.
pub open spec fn le_limit(width: nat) -> nat
    decreases width,
{
    if width == 0 {
        1
    } else {
        256 * le_limit((width - 1) as nat)
    }
}

/// Encoding produces exactly as many bytes as asked for.
pub proof fn lemma_le_bytes_len(value: nat, width: nat)
    ensures
        le_bytes(value, width).len() == width,
    decreases width,
{
    if width > 0 {
        lemma_le_bytes_len(value / 256, (width - 1) as nat);
    }
}

/// The widths that are used on the wire, with what each of them can hold.
pub proof fn lemma_le_limits()
    ensures
        le_limit(1) == 0x100,
        le_limit(2) == 0x1_0000,
        le_limit(4) == 0x1_0000_0000,
        le_limit(8) == 0x1_0000_0000_0000_0000,
{
    reveal_with_fuel(le_limit, 9);
}

/// Bytes can only stand for numbers that their count can hold.
pub proof fn lemma_le_value_bound(bytes: Seq<u8>)
    ensures
        le_value(bytes) < le_limit(bytes.len()),
    decreases bytes.len(),
{
    if bytes.len() > 0 {
        lemma_le_value_bound(bytes.skip(1));
    }
}

/// Whatever number fits into a width is given back by its bytes.
pub proof fn law_le_round_trip(value: nat, width: nat)
    requires
        value < le_limit(width),
    ensures
        le_value(le_bytes(value, width)) == value,
    decreases width,
{
    if width > 0 {
        let tail = le_bytes(value / 256, (width - 1) as nat);
        assert(le_bytes(value, width).skip(1) =~= tail);
        law_le_round_trip(value / 256, (width - 1) as nat);
    }
}

/// Every sequence of bytes is the encoding of the number it stands for.
pub proof fn law_le_bytes_canonical(bytes: Seq<u8>)
    ensures
        le_bytes(le_value(bytes), bytes.len()) == bytes,
    decreases bytes.len(),
{
    if bytes.len() > 0 {
        let tail = bytes.skip(1);
        law_le_bytes_canonical(tail);
        let value = le_value(bytes);
        assert(value % 256 == bytes[0] as nat);
        assert(value / 256 == le_value(tail));
        assert(le_bytes(value, bytes.len()) =~= seq![bytes[0]] + tail);
        assert(seq![bytes[0]] + tail =~= bytes);
    } else {
        assert(le_bytes(le_value(bytes), bytes.len()) =~= bytes);
    }
}

/// A representation of different integer types. This supports everything up to `u64`.
#[derive(PartialEq, Eq, Structural, Clone, Copy, Debug)]
pub enum Integer {
    U8(u8),
    U16(u16),
    U32(u32),
    U64(u64),
}

impl Integer {
    /// The number itself.
    pub open spec fn value(self) -> nat {
        match self {
            Integer::U8(value) => value as nat,
            Integer::U16(value) => value as nat,
            Integer::U32(value) => value as nat,
            Integer::U64(value) => value as nat,
        }
    }

    /// How many bytes the number takes up.
    pub open spec fn width(self) -> nat {
        match self {
            Integer::U8(_) => 1,
            Integer::U16(_) => 2,
            Integer::U32(_) => 4,
            Integer::U64(_) => 8,
        }
    }

    /// The 2-bit flag that announces the width of the number.
    pub open spec fn flag(self) -> (bool, bool) {
        (self is U32 || self is U64, self is U16 || self is U64)
    }

    /// The number of bytes that a 2-bit flag announces.
    pub open spec fn flag_width(flag: (bool, bool)) -> nat {
        match flag {
            (false, false) => 1,
            (false, true) => 2,
            (true, false) => 4,
            (true, true) => 8,
        }
    }

    /// The bytes that are sent for the number.
    pub open spec fn bytes(self) -> Seq<u8> {
        le_bytes(self.value(), self.width())
    }

    /// The narrowest representation of a number that fits into 64 bits.
    pub open spec fn smallest(value: nat) -> Integer {
        if value <= u8::MAX {
            Integer::U8(value as u8)
        } else if value <= u16::MAX {
            Integer::U16(value as u16)
        } else if value <= u32::MAX {
            Integer::U32(value as u32)
        } else {
            Integer::U64(value as u64)
        }
    }

    /// The 2-bit flag of a number tells how many bytes it takes up, and those bytes give the
    /// number back.
    pub proof fn law_round_trip(self)
        ensures
            Integer::flag_width(self.flag()) == self.width(),
            self.bytes().len() == self.width(),
            le_value(self.bytes()) == self.value(),
    {
        lemma_le_limits();
        lemma_le_bytes_len(self.value(), self.width());
        law_le_round_trip(self.value(), self.width());
    }

    /// The smallest representation keeps the number, and no other representation of the same
    /// number takes up fewer bytes.
    pub proof fn law_smallest_is_smallest(value: nat, other: Integer)
        requires
            value <= u64::MAX,
        ensures
            Integer::smallest(value).value() == value,
            other.value() == value ==> Integer::smallest(value).width() <= other.width(),
    {
    }

    /// Converts the integer type marked into a 2-bit flag.
    pub fn to_flag(&self) -> (flag: (bool, bool))
        ensures
            flag == self.flag(),
    {
        match self {
            Self::U8(_) => (false, false),
            Self::U16(_) => (false, true),
            Self::U32(_) => (true, false),
            Self::U64(_) => (true, true),
        }
    }

    /// Gets the appropriate integer type from the given 2-bit flag. This will return the correct
    /// `enum` variant, but with the associated data zero.
    pub fn from_flag(flag: (bool, bool)) -> (integer: Self)
        ensures
            integer.flag() == flag,
            integer.value() == 0,
    {
        match flag {
            (false, false) => Self::U8(0),
            (false, true) => Self::U16(0),
            (true, false) => Self::U32(0),
            (true, true) => Self::U64(0),
        }
    }

    /// Turns the integer into bytes in little endian order.
    pub fn to_le_bytes(&self) -> (bytes: Vec<u8>)
        ensures
            bytes@ == self.bytes(),
    {
        match self {
            Self::U8(value) => encode_le(*value as u64, 1),
            Self::U16(value) => encode_le(*value as u64, 2),
            Self::U32(value) => encode_le(*value as u64, 4),
            Self::U64(value) => encode_le(*value, 8),
        }
    }

    /// Populates the inner value of this integer by reading from the given reader in little
    /// endian byte order.
    pub fn populate_from_reader(self, reader: &mut Reader) -> (result: Result<Self, Error>)
        ensures
            match result {
                Ok(integer) => {
                    &&& self.width() <= old(reader)@.len()
                    &&& integer.flag() == self.flag()
                    &&& integer.value() == le_value(old(reader)@.take(self.width() as int))
                    &&& final(reader)@ == old(reader)@.skip(self.width() as int)
                },
                Err(error) => {
                    &&& self.width() > old(reader)@.len()
                    &&& error == unexpected_eof()
                    &&& final(reader)@ == Seq::<u8>::empty()
                },
            },
    {
        let width: usize = match self {
            Self::U8(_) => 1,
            Self::U16(_) => 2,
            Self::U32(_) => 4,
            Self::U64(_) => 8,
        };
        let bytes = reader.read_exact(width)?;
        proof {
            lemma_le_limits();
            lemma_le_value_bound(bytes@);
        }
        let value: u64 = decode_le(&bytes);
        Ok(
            match self {
                Self::U8(_) => Self::U8(value as u8),
                Self::U16(_) => Self::U16(value as u16),
                Self::U32(_) => Self::U32(value as u32),
                Self::U64(_) => Self::U64(value),
            },
        )
    }

    /// Attempts to convert this integer into the internal type, if it will fit. If it doesn't,
    /// `None` will be returned.
    ///
    /// This does not assume the ascribed size type is correct, and will aggressively try to fit
    /// the contained integer into the system type.
    pub fn into_int(self) -> (result: Option<IpfiInteger>)
        ensures
            match result {
                Some(fitted) => fitted == self.value(),
                None => self.value() > IpfiInteger::MAX,
            },
    {
        match self {
            Self::U8(value) => Some(value as IpfiInteger),
            Self::U16(value) => Some(value as IpfiInteger),
            Self::U32(value) => Some(value),
            Self::U64(value) => {
                if value <= IpfiInteger::MAX as u64 {
                    Some(value as IpfiInteger)
                } else {
                    None
                }
            },
        }
    }

    /// Converts the contained integer into a [`usize`]. This will only fail if the contained
    /// integer is larger than the platform's pointer width.
    pub fn into_usize(self) -> (result: Option<usize>)
        ensures
            match result {
                Some(size) => size == self.value(),
                None => self.value() > usize::MAX,
            },
    {
        match self {
            Self::U8(value) => Some(value as usize),
            Self::U16(value) => Some(value as usize),
            Self::U32(value) => Some(value as usize),
            Self::U64(value) => {
                if value <= usize::MAX as u64 {
                    Some(value as usize)
                } else {
                    None
                }
            },
        }
    }
}

/// Encodes a number in the given number of little endian bytes.
fn encode_le(value: u64, width: usize) -> (bytes: Vec<u8>)
    ensures
        bytes@ == le_bytes(value as nat, width as nat),
{
    let mut bytes: Vec<u8> = Vec::new();
    let mut left: u64 = value;
    let mut count: usize = 0;
    while count < width
        invariant
            count <= width,
            bytes@ + le_bytes(left as nat, (width - count) as nat) == le_bytes(
                value as nat,
                width as nat,
            ),
        decreases width - count,
    {
        let ghost before = bytes@;
        bytes.push((left % 256) as u8);
        assert(before + le_bytes(left as nat, (width - count) as nat) =~= bytes@ + le_bytes(
            (left / 256) as nat,
            (width - count - 1) as nat,
        ));
        left = left / 256;
        count = count + 1;
    }
    assert(bytes@ + le_bytes(left as nat, 0) =~= bytes@);
    bytes
}

/// Decodes a number from at most eight little endian bytes.
fn decode_le(bytes: &Vec<u8>) -> (value: u64)
    requires
        bytes@.len() <= 8,
    ensures
        value == le_value(bytes@),
{
    let mut value: u64 = 0;
    let mut left: usize = bytes.len();
    assert(bytes@.skip(left as int) =~= Seq::<u8>::empty());
    while left > 0
        invariant
            left <= bytes@.len() <= 8,
            value == le_value(bytes@.skip(left as int)),
        decreases left,
    {
        proof {
            let longer = bytes@.skip(left - 1);
            assert(longer.skip(1) =~= bytes@.skip(left as int));
            lemma_le_value_bound(longer);
            lemma_le_limits();
            lemma_le_limit_monotonic(longer.len(), 8);
        }
        value = value * 256 + bytes[left - 1] as u64;
        left = left - 1;
    }
    assert(bytes@.skip(0) =~= bytes@);
    value
}

/// More bytes can hold larger numbers.
proof fn lemma_le_limit_monotonic(narrow: nat, wide: nat)
    requires
        narrow <= wide,
    ensures
        le_limit(narrow) <= le_limit(wide),
    decreases wide,
{
    if narrow < wide {
        lemma_le_limit_monotonic(narrow, (wide - 1) as nat);
    }
}

/// Takes in a numerical value and converts it into the smallest Rust integer type it can. For
/// instance, anything up to 255 will be converted into a `u8`.
pub fn get_as_smallest_int(value: IpfiInteger) -> (integer: Integer)
    ensures
        integer == Integer::smallest(value as nat),
{
    if value <= u8::MAX as u32 {
        Integer::U8(value as u8)
    } else if value <= u16::MAX as u32 {
        Integer::U16(value as u16)
    } else {
        Integer::U32(value)
    }
}

/// The same as [`get_as_smallest_int`], for numbers of bytes.
pub fn get_as_smallest_int_from_usize(value: usize) -> (integer: Integer)
    ensures
        integer == Integer::smallest(value as nat),
{
    if value <= u8::MAX as usize {
        Integer::U8(value as u8)
    } else if value <= u16::MAX as usize {
        Integer::U16(value as u16)
    } else if value <= u32::MAX as usize {
        Integer::U32(value as u32)
    } else {
        Integer::U64(value as u64)
    }
}

} // verus!
