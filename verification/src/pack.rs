//! Values in their MessagePack form.
//!
//! Serialising is left to `rmp-serde`. What it makes of simple values is stated here, as is that
//! it gets them back. What else it accepts as numbers and strings has a name only.
use crate::error::Error;
use crate::integer::le_bytes;
use rmp_serde::decode::Error as UnpackFailure;
use rmp_serde::encode::Error as PackFailure;
use vstd::prelude::*;
use vstd::utf8::encode_utf8;

verus! {

/// `rmp_serde::encode::Error`, which is not looked into: any of them is an [`Error::Encode`].
#[verifier::external_type_specification]
#[verifier::external_body]
pub struct ExEncodeError(PackFailure);

/// `rmp_serde::decode::Error`, which is not looked into: any of them is an [`Error::Decode`].
#[verifier::external_type_specification]
#[verifier::external_body]
pub struct ExDecodeError(UnpackFailure);

/// A number in the given number of big endian bytes.
pub open spec fn be_bytes(value: nat, width: nat) -> Seq<u8> {
    le_bytes(value, width).reverse()
}

/// The MessagePack form of an unsigned integer: the shortest one that fits.
pub open spec fn packed_uint(value: nat) -> Seq<u8> {
    if value < 0x80 {
        seq![value as u8]
    } else if value < 0x100 {
        seq![0xccu8] + be_bytes(value, 1)
    } else if value < 0x1_0000 {
        seq![0xcdu8] + be_bytes(value, 2)
    } else if value < 0x1_0000_0000 {
        seq![0xceu8] + be_bytes(value, 4)
    } else {
        seq![0xcfu8] + be_bytes(value, 8)
    }
}

/// The MessagePack form of a signed integer: the shortest one that fits, in two's complement if it
/// is negative.
pub open spec fn packed_sint(value: int) -> Seq<u8> {
    if value >= 0 {
        packed_uint(value as nat)
    } else if value >= -0x20 {
        seq![(value + 0x100) as u8]
    } else if value >= -0x80 {
        seq![0xd0u8] + be_bytes((value + 0x100) as nat, 1)
    } else if value >= -0x8000 {
        seq![0xd1u8] + be_bytes((value + 0x1_0000) as nat, 2)
    } else if value >= -0x8000_0000 {
        seq![0xd2u8] + be_bytes((value + 0x1_0000_0000) as nat, 4)
    } else {
        seq![0xd3u8] + be_bytes((value + 0x1_0000_0000_0000_0000) as nat, 8)
    }
}

/// The MessagePack form of a boolean.
pub open spec fn packed_bool(value: bool) -> Seq<u8> {
    seq![if value { 0xc3u8 } else { 0xc2u8 }]
}

/// The MessagePack form of the unit type, which is nil.
pub open spec fn packed_unit() -> Seq<u8> {
    seq![0xc0u8]
}

/// What announces a string with the given number of bytes.
pub open spec fn str_header(len: nat) -> Seq<u8> {
    if len < 0x20 {
        seq![(0xa0 + len) as u8]
    } else if len < 0x100 {
        seq![0xd9u8] + be_bytes(len, 1)
    } else if len < 0x1_0000 {
        seq![0xdau8] + be_bytes(len, 2)
    } else {
        seq![0xdbu8] + be_bytes(len, 4)
    }
}

/// The MessagePack form of a string: its length, of which only the lowest 32 bits are kept, and
/// its bytes.
pub open spec fn packed_str(value: Seq<char>) -> Seq<u8> {
    str_header(encode_utf8(value).len() % 0x1_0000_0000) + encode_utf8(value)
}

/// What announces an array with the given number of elements.
pub open spec fn array_header(len: nat) -> Seq<u8> {
    if len < 0x10 {
        seq![(0x90 + len) as u8]
    } else if len < 0x1_0000 {
        seq![0xdcu8] + be_bytes(len, 2)
    } else {
        seq![0xddu8] + be_bytes(len, 4)
    }
}

/// What `rmp_serde` deserialises as a `u8`.
pub uninterp spec fn unpacked_u8(bytes: Seq<u8>) -> Option<u8>;

/// What `rmp_serde` deserialises as a `u32`.
pub uninterp spec fn unpacked_u32(bytes: Seq<u8>) -> Option<u32>;

/// What `rmp_serde` deserialises as a `u64`.
pub uninterp spec fn unpacked_u64(bytes: Seq<u8>) -> Option<u64>;

/// What `rmp_serde` deserialises as an `i64`.
pub uninterp spec fn unpacked_i64(bytes: Seq<u8>) -> Option<i64>;

/// What `rmp_serde` deserialises as a `bool`: the first byte decides, and what follows it is not
/// looked at.
pub open spec fn unpacked_bool(bytes: Seq<u8>) -> Option<bool> {
    if bytes.len() > 0 && bytes[0] == 0xc3u8 {
        Some(true)
    } else if bytes.len() > 0 && bytes[0] == 0xc2u8 {
        Some(false)
    } else {
        None
    }
}

/// What `rmp_serde` deserialises as a string.
pub uninterp spec fn unpacked_string(bytes: Seq<u8>) -> Option<Seq<char>>;

/// What `rmp_serde` deserialises as the unit type: the first byte decides, and what follows it is
/// not looked at.
pub open spec fn unpacked_unit(bytes: Seq<u8>) -> Option<()> {
    if bytes.len() > 0 && bytes[0] == 0xc0u8 {
        Some(())
    } else {
        None
    }
}

/// `rmp_serde::to_vec` on an unsigned integer, which only fails if there is not enough memory. The
/// bytes are deserialised as the same number by every type that it fits into.
#[verifier::external_body]
fn pack_uint(value: u64) -> (result: Result<Vec<u8>, PackFailure>)
    ensures
        (result matches Ok(bytes) ==> bytes@ == packed_uint(value as nat)),
        (result matches Ok(bytes) ==> unpacked_u64(bytes@) == Some(value)),
        (result matches Ok(bytes) ==> value <= u32::MAX ==> unpacked_u32(bytes@) == Some(
            value as u32,
        )),
        (result matches Ok(bytes) ==> value <= u8::MAX ==> unpacked_u8(bytes@) == Some(
            value as u8,
        )),
{
    rmp_serde::to_vec(&value)
}

/// `rmp_serde::to_vec` on a signed integer, which only fails if there is not enough memory. The
/// bytes are deserialised as the same number.
#[verifier::external_body]
fn pack_sint(value: i64) -> (result: Result<Vec<u8>, PackFailure>)
    ensures
        (result matches Ok(bytes) ==> bytes@ == packed_sint(value as int)),
        (result matches Ok(bytes) ==> unpacked_i64(bytes@) == Some(value)),
{
    rmp_serde::to_vec(&value)
}

/// `rmp_serde::to_vec` on a boolean, which only fails if there is not enough memory.
#[verifier::external_body]
fn pack_bool(value: bool) -> (result: Result<Vec<u8>, PackFailure>)
    ensures
        (result matches Ok(bytes) ==> bytes@ == packed_bool(value)),
{
    rmp_serde::to_vec(&value)
}

/// `rmp_serde::to_vec` on a string, which only fails if there is not enough memory. The bytes are
/// deserialised as the same string, unless its length does not fit into the 32 bits there are for
/// it.
#[verifier::external_body]
fn pack_str(value: &str) -> (result: Result<Vec<u8>, PackFailure>)
    ensures
        (result matches Ok(bytes) ==> bytes@ == packed_str(value@)),
        (result matches Ok(bytes) ==> encode_utf8(value@).len() < 0x1_0000_0000 ==>
            unpacked_string(bytes@) == Some(value@)),
{
    rmp_serde::to_vec(value)
}

/// `rmp_serde::to_vec` on the unit type, which only fails if there is not enough memory.
#[verifier::external_body]
fn pack_unit() -> (result: Result<Vec<u8>, PackFailure>)
    ensures
        (result matches Ok(bytes) ==> bytes@ == packed_unit()),
{
    rmp_serde::to_vec(&())
}

/// `rmp::encode::write_array_len` into a vector, which accepts everything that is written to it:
/// what announces an array of the given length is appended.
#[verifier::external_body]
fn write_array_len(buf: &mut Vec<u8>, len: u32) -> (written: bool)
    ensures
        written,
        final(buf)@ == old(buf)@ + array_header(len as nat),
{
    rmp::encode::write_array_len(buf, len).is_ok()
}

/// `rmp_serde::from_slice` into a `u8`: what comes out is given by the bytes alone.
#[verifier::external_body]
fn unpack_u8(bytes: &[u8]) -> (result: Result<u8, UnpackFailure>)
    ensures
        unpacked_u8(bytes@) == result.ok(),
{
    rmp_serde::from_slice(bytes)
}

/// `rmp_serde::from_slice` into a `u32`: what comes out is given by the bytes alone.
#[verifier::external_body]
fn unpack_u32(bytes: &[u8]) -> (result: Result<u32, UnpackFailure>)
    ensures
        unpacked_u32(bytes@) == result.ok(),
{
    rmp_serde::from_slice(bytes)
}

/// `rmp_serde::from_slice` into a `u64`: what comes out is given by the bytes alone.
#[verifier::external_body]
fn unpack_u64(bytes: &[u8]) -> (result: Result<u64, UnpackFailure>)
    ensures
        unpacked_u64(bytes@) == result.ok(),
{
    rmp_serde::from_slice(bytes)
}

/// `rmp_serde::from_slice` into an `i64`: what comes out is given by the bytes alone.
#[verifier::external_body]
fn unpack_i64(bytes: &[u8]) -> (result: Result<i64, UnpackFailure>)
    ensures
        unpacked_i64(bytes@) == result.ok(),
{
    rmp_serde::from_slice(bytes)
}

/// `rmp_serde::from_slice` into a `bool`: the markers for true and false are accepted as the first
/// byte, and nothing else is.
#[verifier::external_body]
fn unpack_bool(bytes: &[u8]) -> (result: Result<bool, UnpackFailure>)
    ensures
        unpacked_bool(bytes@) == result.ok(),
{
    rmp_serde::from_slice(bytes)
}

/// `rmp_serde::from_slice` into a string: what comes out is given by the bytes alone.
#[verifier::external_body]
fn unpack_string(bytes: &[u8]) -> (result: Result<String, UnpackFailure>)
    ensures
        (match result {
            Ok(value) => unpacked_string(bytes@) == Some(value@),
            Err(_) => unpacked_string(bytes@) is None,
        }),
{
    rmp_serde::from_slice(bytes)
}

/// `rmp_serde::from_slice` into the unit type: the marker for nil is accepted as the first byte,
/// and nothing else is.
#[verifier::external_body]
fn unpack_unit(bytes: &[u8]) -> (result: Result<(), UnpackFailure>)
    ensures
        unpacked_unit(bytes@) == result.ok(),
{
    rmp_serde::from_slice(bytes)
}

/// A value that can be serialised. Values of types that are not known here can be serialised
/// elsewhere, and given as [`Packed`].
pub trait Pack: Sized {
    /// The MessagePack form of the value.
    spec fn packed(&self) -> Seq<u8>;

    /// Whether serialising the value needs a serialiser, which may fail.
    spec fn fallible(&self) -> bool;

    /// Serialises the value. This only fails if the serialiser does.
    fn pack(&self) -> (result: Result<Vec<u8>, Error>)
        ensures
            match result {
                Ok(bytes) => bytes@ == self.packed(),
                Err(error) => error == Error::Encode && self.fallible(),
            },
    ;
}

/// A value that can be deserialised.
pub trait Unpack: View + Sized {
    /// The value with the given MessagePack form, if there is one.
    spec fn unpacked(bytes: Seq<u8>) -> Option<Self::V>;

    /// Deserialises a value.
    fn unpack(bytes: &[u8]) -> (result: Result<Self, Error>)
        ensures
            match result {
                Ok(value) => Self::unpacked(bytes@) == Some(value@),
                Err(error) => error == Error::Decode && Self::unpacked(bytes@) is None,
            },
    ;
}

impl Pack for u8 {
    open spec fn packed(&self) -> Seq<u8> {
        packed_uint(*self as nat)
    }

    open spec fn fallible(&self) -> bool {
        true
    }

    fn pack(&self) -> (result: Result<Vec<u8>, Error>)
        ensures
            result matches Ok(bytes) ==> unpacked_u8(bytes@) == Some(*self),
    {
        match pack_uint(*self as u64) {
            Ok(bytes) => Ok(bytes),
            Err(_) => Err(Error::Encode),
        }
    }
}

impl Pack for u16 {
    open spec fn packed(&self) -> Seq<u8> {
        packed_uint(*self as nat)
    }

    open spec fn fallible(&self) -> bool {
        true
    }

    fn pack(&self) -> (result: Result<Vec<u8>, Error>)
        ensures
            result matches Ok(bytes) ==> unpacked_u32(bytes@) == Some(*self as u32),
    {
        match pack_uint(*self as u64) {
            Ok(bytes) => Ok(bytes),
            Err(_) => Err(Error::Encode),
        }
    }
}

impl Pack for u32 {
    open spec fn packed(&self) -> Seq<u8> {
        packed_uint(*self as nat)
    }

    open spec fn fallible(&self) -> bool {
        true
    }

    fn pack(&self) -> (result: Result<Vec<u8>, Error>)
        ensures
            result matches Ok(bytes) ==> unpacked_u32(bytes@) == Some(*self),
    {
        match pack_uint(*self as u64) {
            Ok(bytes) => Ok(bytes),
            Err(_) => Err(Error::Encode),
        }
    }
}

impl Pack for u64 {
    open spec fn packed(&self) -> Seq<u8> {
        packed_uint(*self as nat)
    }

    open spec fn fallible(&self) -> bool {
        true
    }

    fn pack(&self) -> (result: Result<Vec<u8>, Error>)
        ensures
            result matches Ok(bytes) ==> unpacked_u64(bytes@) == Some(*self),
    {
        match pack_uint(*self) {
            Ok(bytes) => Ok(bytes),
            Err(_) => Err(Error::Encode),
        }
    }
}

impl Pack for i8 {
    open spec fn packed(&self) -> Seq<u8> {
        packed_sint(*self as int)
    }

    open spec fn fallible(&self) -> bool {
        true
    }

    fn pack(&self) -> (result: Result<Vec<u8>, Error>)
        ensures
            result matches Ok(bytes) ==> unpacked_i64(bytes@) == Some(*self as i64),
    {
        match pack_sint(*self as i64) {
            Ok(bytes) => Ok(bytes),
            Err(_) => Err(Error::Encode),
        }
    }
}

impl Pack for i16 {
    open spec fn packed(&self) -> Seq<u8> {
        packed_sint(*self as int)
    }

    open spec fn fallible(&self) -> bool {
        true
    }

    fn pack(&self) -> (result: Result<Vec<u8>, Error>)
        ensures
            result matches Ok(bytes) ==> unpacked_i64(bytes@) == Some(*self as i64),
    {
        match pack_sint(*self as i64) {
            Ok(bytes) => Ok(bytes),
            Err(_) => Err(Error::Encode),
        }
    }
}

impl Pack for i32 {
    open spec fn packed(&self) -> Seq<u8> {
        packed_sint(*self as int)
    }

    open spec fn fallible(&self) -> bool {
        true
    }

    fn pack(&self) -> (result: Result<Vec<u8>, Error>)
        ensures
            result matches Ok(bytes) ==> unpacked_i64(bytes@) == Some(*self as i64),
    {
        match pack_sint(*self as i64) {
            Ok(bytes) => Ok(bytes),
            Err(_) => Err(Error::Encode),
        }
    }
}

impl Pack for i64 {
    open spec fn packed(&self) -> Seq<u8> {
        packed_sint(*self as int)
    }

    open spec fn fallible(&self) -> bool {
        true
    }

    fn pack(&self) -> (result: Result<Vec<u8>, Error>)
        ensures
            result matches Ok(bytes) ==> unpacked_i64(bytes@) == Some(*self),
    {
        match pack_sint(*self) {
            Ok(bytes) => Ok(bytes),
            Err(_) => Err(Error::Encode),
        }
    }
}

impl Pack for bool {
    open spec fn packed(&self) -> Seq<u8> {
        packed_bool(*self)
    }

    open spec fn fallible(&self) -> bool {
        true
    }

    fn pack(&self) -> (result: Result<Vec<u8>, Error>)
        ensures
            result matches Ok(bytes) ==> unpacked_bool(bytes@) == Some(*self),
    {
        match pack_bool(*self) {
            Ok(bytes) => Ok(bytes),
            Err(_) => Err(Error::Encode),
        }
    }
}

impl Pack for &str {
    open spec fn packed(&self) -> Seq<u8> {
        packed_str(self@)
    }

    open spec fn fallible(&self) -> bool {
        true
    }

    fn pack(&self) -> (result: Result<Vec<u8>, Error>)
        ensures
            result matches Ok(bytes) ==> encode_utf8(self@).len() < 0x1_0000_0000
                ==> unpacked_string(bytes@) == Some(self@),
    {
        match pack_str(self) {
            Ok(bytes) => Ok(bytes),
            Err(_) => Err(Error::Encode),
        }
    }
}

impl Pack for String {
    open spec fn packed(&self) -> Seq<u8> {
        packed_str(self@)
    }

    open spec fn fallible(&self) -> bool {
        true
    }

    fn pack(&self) -> (result: Result<Vec<u8>, Error>)
        ensures
            result matches Ok(bytes) ==> encode_utf8(self@).len() < 0x1_0000_0000
                ==> unpacked_string(bytes@) == Some(self@),
    {
        match pack_str(self.as_str()) {
            Ok(bytes) => Ok(bytes),
            Err(_) => Err(Error::Encode),
        }
    }
}

impl Pack for () {
    open spec fn packed(&self) -> Seq<u8> {
        packed_unit()
    }

    open spec fn fallible(&self) -> bool {
        true
    }

    fn pack(&self) -> (result: Result<Vec<u8>, Error>)
        ensures
            result matches Ok(bytes) ==> unpacked_unit(bytes@) == Some(()),
    {
        match pack_unit() {
            Ok(bytes) => Ok(bytes),
            Err(_) => Err(Error::Encode),
        }
    }
}

impl Unpack for u8 {
    open spec fn unpacked(bytes: Seq<u8>) -> Option<u8> {
        unpacked_u8(bytes)
    }

    fn unpack(bytes: &[u8]) -> (result: Result<Self, Error>) {
        match unpack_u8(bytes) {
            Ok(value) => Ok(value),
            Err(_) => Err(Error::Decode),
        }
    }
}

impl Unpack for u32 {
    open spec fn unpacked(bytes: Seq<u8>) -> Option<u32> {
        unpacked_u32(bytes)
    }

    fn unpack(bytes: &[u8]) -> (result: Result<Self, Error>) {
        match unpack_u32(bytes) {
            Ok(value) => Ok(value),
            Err(_) => Err(Error::Decode),
        }
    }
}

impl Unpack for u64 {
    open spec fn unpacked(bytes: Seq<u8>) -> Option<u64> {
        unpacked_u64(bytes)
    }

    fn unpack(bytes: &[u8]) -> (result: Result<Self, Error>) {
        match unpack_u64(bytes) {
            Ok(value) => Ok(value),
            Err(_) => Err(Error::Decode),
        }
    }
}

impl Unpack for i64 {
    open spec fn unpacked(bytes: Seq<u8>) -> Option<i64> {
        unpacked_i64(bytes)
    }

    fn unpack(bytes: &[u8]) -> (result: Result<Self, Error>) {
        match unpack_i64(bytes) {
            Ok(value) => Ok(value),
            Err(_) => Err(Error::Decode),
        }
    }
}

impl Unpack for bool {
    open spec fn unpacked(bytes: Seq<u8>) -> Option<bool> {
        unpacked_bool(bytes)
    }

    fn unpack(bytes: &[u8]) -> (result: Result<Self, Error>) {
        match unpack_bool(bytes) {
            Ok(value) => Ok(value),
            Err(_) => Err(Error::Decode),
        }
    }
}

impl Unpack for String {
    open spec fn unpacked(bytes: Seq<u8>) -> Option<Seq<char>> {
        unpacked_string(bytes)
    }

    fn unpack(bytes: &[u8]) -> (result: Result<Self, Error>) {
        match unpack_string(bytes) {
            Ok(value) => Ok(value),
            Err(_) => Err(Error::Decode),
        }
    }
}

impl Unpack for () {
    open spec fn unpacked(bytes: Seq<u8>) -> Option<()> {
        unpacked_unit(bytes)
    }

    fn unpack(bytes: &[u8]) -> (result: Result<Self, Error>) {
        match unpack_unit(bytes) {
            Ok(value) => Ok(value),
            Err(_) => Err(Error::Decode),
        }
    }
}

/// A value that has already been serialised elsewhere.
#[derive(PartialEq, Eq, Debug)]
pub struct Packed(pub Vec<u8>);

impl Pack for Packed {
    open spec fn packed(&self) -> Seq<u8> {
        self.0@
    }

    open spec fn fallible(&self) -> bool {
        false
    }

    fn pack(&self) -> (result: Result<Vec<u8>, Error>) {
        let mut bytes: Vec<u8> = Vec::new();
        bytes.extend_from_slice(self.0.as_slice());
        assert(bytes@ =~= self.0@);
        Ok(bytes)
    }
}

/// The bytes from which the arguments of a procedure are deserialised. Arguments are transmitted
/// one after the other, without a marker for how many there are, so that they can be sent
/// piecemeal. The marker is only put in front of them once they are complete.
pub open spec fn framed(args_len: u32, data: Seq<u8>) -> Seq<u8> {
    if args_len == 0 {
        packed_unit()
    } else {
        array_header(args_len as nat) + data
    }
}

/// Prepares the accumulated arguments of a procedure for being deserialised as a tuple with the
/// given number of elements. This always succeeds for procedures with at least one argument.
pub fn frame_args(args_len: u32, data: &[u8]) -> (result: Result<Vec<u8>, Error>)
    ensures
        match result {
            Ok(bytes) => bytes@ == framed(args_len, data@),
            Err(error) => error == Error::Encode && args_len == 0,
        },
{
    if args_len == 0 {
        // If the function takes no arguments, the length marker doesn't work
        return ().pack();
    }
    let mut bytes: Vec<u8> = Vec::new();
    if !write_array_len(&mut bytes, args_len) {
        return Err(Error::WriteLenMarkerFailed);
    }
    bytes.extend_from_slice(data);
    assert(bytes@ =~= framed(args_len, data@));
    Ok(bytes)
}

/// The last byte of a big endian number is its lowest, and the others are those of what is above
/// it.
pub proof fn law_lowest_byte_last(value: nat, width: nat)
    ensures
        be_bytes(value, 0).len() == 0,
        be_bytes(value, width + 1) == be_bytes(value / 256, width).push((value % 256) as u8),
        be_bytes(value, 1) == seq![(value % 256) as u8],
        be_bytes(value, 2) == seq![(value / 256 % 256) as u8, (value % 256) as u8],
{
    assert(be_bytes(value, width + 1) =~= be_bytes(value / 256, width).push((value % 256) as u8));
    reveal_with_fuel(le_bytes, 3);
    assert(be_bytes(value, 1) =~= seq![(value % 256) as u8]);
    assert(be_bytes(value, 2) =~= seq![(value / 256 % 256) as u8, (value % 256) as u8]);
}

/// What a number is packed as has nothing to do with the type that it has, nor with whether that is
/// signed.
pub proof fn law_types_do_not_matter(value: u64, signed: i64)
    ensures
        value <= u8::MAX ==> (value as u8).packed() == value.packed(),
        value <= u16::MAX ==> (value as u16).packed() == value.packed(),
        value <= u32::MAX ==> (value as u32).packed() == value.packed(),
        value <= i64::MAX ==> (value as i64).packed() == value.packed(),
        i8::MIN <= signed <= i8::MAX ==> (signed as i8).packed() == signed.packed(),
        i16::MIN <= signed <= i16::MAX ==> (signed as i16).packed() == signed.packed(),
        i32::MIN <= signed <= i32::MAX ==> (signed as i32).packed() == signed.packed(),
        value.packed() == packed_uint(value as nat),
        signed.packed() == packed_sint(signed as int),
{
}

/// Small numbers are packed as themselves, and larger ones behind a marker for how many bytes they
/// take up, which are no more than they have to be.
pub proof fn law_packed_numbers(value: nat)
    requires
        value <= u64::MAX,
    ensures
        value <= 0x7f ==> packed_uint(value) == seq![value as u8],
        0x7f < value <= u8::MAX ==> packed_uint(value) == seq![0xccu8, value as u8],
        u8::MAX < value <= u16::MAX ==> packed_uint(value) == seq![
            0xcdu8,
            (value / 256) as u8,
            (value % 256) as u8,
        ],
        u16::MAX < value <= u32::MAX ==> packed_uint(value) == seq![0xceu8] + be_bytes(value, 4),
        u32::MAX < value ==> packed_uint(value) == seq![0xcfu8] + be_bytes(value, 8),
{
    law_lowest_byte_last(value, 0);
    if 0x7f < value <= u8::MAX {
        assert(packed_uint(value) =~= seq![0xccu8, value as u8]);
    } else if u8::MAX < value <= u16::MAX {
        assert(packed_uint(value) =~= seq![0xcdu8, (value / 256) as u8, (value % 256) as u8]);
    }
}

/// Negative numbers are packed as their two's complement: on its own if that fits into five bits,
/// and otherwise behind a marker for how many bytes it takes up.
pub proof fn law_packed_negatives(value: int)
    requires
        i64::MIN <= value < 0,
    ensures
        -0x20 <= value ==> packed_sint(value) == seq![(0x100 + value) as u8],
        i8::MIN <= value < -0x20 ==> packed_sint(value) == seq![0xd0u8, (0x100 + value) as u8],
        i16::MIN <= value < i8::MIN ==> packed_sint(value) == seq![0xd1u8] + be_bytes(
            (0x1_0000 + value) as nat,
            2,
        ),
        i32::MIN <= value < i16::MIN ==> packed_sint(value) == seq![0xd2u8] + be_bytes(
            (0x1_0000_0000 + value) as nat,
            4,
        ),
        value < i32::MIN ==> packed_sint(value) == seq![0xd3u8] + be_bytes(
            (0x1_0000_0000_0000_0000 + value) as nat,
            8,
        ),
{
    if i8::MIN <= value < -0x20 {
        law_lowest_byte_last((0x100 + value) as nat, 0);
        assert(packed_sint(value) =~= seq![0xd0u8, (0x100 + value) as u8]);
    }
}

/// Booleans and the unit type are single markers, which are told apart, and nothing else is taken
/// for them.
pub proof fn law_markers_are_told_apart(value: bool, bytes: Seq<u8>)
    ensures
        true.packed() == seq![0xc3u8],
        false.packed() == seq![0xc2u8],
        ().packed() == seq![0xc0u8],
        bool::unpacked(value.packed() + bytes) == Some(value),
        <() as Unpack>::unpacked(().packed() + bytes) == Some(()),
        bool::unpacked(bytes) is Some <==> bytes.len() > 0 && (bytes[0] == 0xc2u8 || bytes[0]
            == 0xc3u8),
        <() as Unpack>::unpacked(bytes) is Some <==> bytes.len() > 0 && bytes[0] == 0xc0u8,
{
}

/// A string is packed as its bytes behind their number, whether it is owned or not.
pub proof fn law_packed_strings(owned: String, borrowed: &str)
    ensures
        owned@ == borrowed@ ==> owned.packed() == borrowed.packed(),
        ({
            let bytes = encode_utf8(owned@);
            let header = owned.packed().len() - bytes.len();
            &&& bytes.len() < 0x20 ==> header == 1 && owned.packed()[0] == 0xa0 + bytes.len()
            &&& owned.packed().skip(header) == bytes
            &&& owned.packed() == str_header(bytes.len() % 0x1_0000_0000) + bytes
        }),
{
    let bytes = encode_utf8(owned@);
    let header = owned.packed().len() - bytes.len();
    assert(owned.packed().skip(header) =~= bytes);
}

/// What announces a string or an array tells how many bytes or elements there are.
pub proof fn law_headers(len: nat)
    requires
        len < 0x1_0000_0000,
    ensures
        len <= 0x1f ==> str_header(len) == seq![(0xa0 + len) as u8],
        0x1f < len <= 0xff ==> str_header(len) == seq![0xd9u8, len as u8],
        0xff < len <= 0xffff ==> str_header(len) == seq![0xdau8] + be_bytes(len, 2),
        0xffff < len ==> str_header(len) == seq![0xdbu8] + be_bytes(len, 4),
        len <= 0xf ==> array_header(len) == seq![(0x90 + len) as u8],
        0xf < len <= 0xffff ==> array_header(len) == seq![0xdcu8] + be_bytes(len, 2),
        0xffff < len ==> array_header(len) == seq![0xddu8] + be_bytes(len, 4),
{
    law_lowest_byte_last(len, 0);
    if 0x1f < len <= 0xff {
        assert(str_header(len) =~= seq![0xd9u8, len as u8]);
    }
}

/// What is unpacked is what the bytes say, for each of the types.
pub proof fn law_unpacked_by_type(bytes: Seq<u8>)
    ensures
        u8::unpacked(bytes) == unpacked_u8(bytes),
        u32::unpacked(bytes) == unpacked_u32(bytes),
        u64::unpacked(bytes) == unpacked_u64(bytes),
        i64::unpacked(bytes) == unpacked_i64(bytes),
        String::unpacked(bytes) == unpacked_string(bytes),
{
}

/// The marker for how many arguments there are comes in front of them, and does not depend on them:
/// it makes no difference whether it is put there before or after the last of them have arrived.
/// Without any arguments, there is just the unit type.
pub proof fn law_marker_comes_first(args_len: u32, first: Seq<u8>, second: Seq<u8>)
    ensures
        args_len > 0 ==> framed(args_len, first + second) == framed(args_len, first) + second,
        args_len > 0 ==> framed(args_len, Seq::empty()) == array_header(args_len as nat),
        framed(0, first) == ().packed(),
{
    if args_len > 0 {
        assert(framed(args_len, first + second) =~= framed(args_len, first) + second);
        assert(framed(args_len, Seq::empty()) =~= array_header(args_len as nat));
    }
}

} // verus!
