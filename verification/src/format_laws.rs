//! What always holds of the bytes that travel down a wire.
use crate::error::{Error, IoErrorKind};
use crate::incoming::{
    numbers_wanted, parse, parse_number, parse_numbers, wanted, Parsed, Received, ReceivedFrame,
};
use crate::integer::{le_bytes, le_value, lemma_le_bytes_len, Integer};
use crate::types::{IpfiInteger, Terminator};
use crate::wire_utils::{bits_of, law_bits_of_pack, pack, Frame, Message, Packet};
use vstd::prelude::*;

verus! {

/// The first byte of a number is its lowest, and the others are those of what is above it. Nothing
/// stands for zero.
pub proof fn law_lowest_byte_first(value: nat, width: nat, byte: u8, bytes: Seq<u8>)
    ensures
        le_bytes(value, 0).len() == 0,
        le_bytes(value, width + 1).len() == width + 1,
        le_bytes(value, width + 1)[0] == value % 256,
        le_bytes(value, width + 1).skip(1) == le_bytes(value / 256, width),
        le_value(Seq::empty()) == 0,
        le_value(seq![byte] + bytes) == byte + 256 * le_value(bytes),
{
    lemma_le_bytes_len(value, width + 1);
    assert(le_bytes(value, width + 1).skip(1) =~= le_bytes(value / 256, width));
    assert((seq![byte] + bytes).skip(1) =~= bytes);
}

/// What the numbers that are used on the wire are worth, byte by byte.
pub proof fn law_bytes_are_worth(b0: u8, b1: u8, b2: u8, b3: u8)
    ensures
        le_value(seq![b0]) == b0,
        le_value(seq![b0, b1]) == b0 + 0x100 * b1,
        le_value(seq![b0, b1, b2, b3]) == b0 + 0x100 * b1 + 0x1_0000 * b2 + 0x100_0000 * b3,
{
    let nothing = Seq::<u8>::empty();
    law_lowest_byte_first(0, 0, b3, nothing);
    assert(seq![b3] + nothing =~= seq![b3]);
    law_lowest_byte_first(0, 0, b2, seq![b3]);
    assert(seq![b2] + seq![b3] =~= seq![b2, b3]);
    law_lowest_byte_first(0, 0, b1, seq![b2, b3]);
    assert(seq![b1] + seq![b2, b3] =~= seq![b1, b2, b3]);
    law_lowest_byte_first(0, 0, b0, seq![b1, b2, b3]);
    assert(seq![b0] + seq![b1, b2, b3] =~= seq![b0, b1, b2, b3]);
    law_lowest_byte_first(0, 0, b1, nothing);
    assert(seq![b1] + nothing =~= seq![b1]);
    law_lowest_byte_first(0, 0, b0, seq![b1]);
    assert(seq![b0] + seq![b1] =~= seq![b0, b1]);
    law_lowest_byte_first(0, 0, b0, nothing);
    assert(seq![b0] + nothing =~= seq![b0]);
}

/// The first bit of the flag of a number stands for four times as many bytes, and the second one
/// for twice as many.
pub proof fn law_flags_announce_width(integer: Integer, flag: (bool, bool))
    ensures
        Integer::flag_width(flag) == (if flag.0 { 4nat } else { 1nat }) * (if flag.1 {
            2nat
        } else {
            1nat
        }),
        Integer::flag_width(integer.flag()) == integer.width(),
        integer.width() == 1 <==> integer is U8,
        integer.width() == 2 <==> integer is U16,
        integer.width() == 4 <==> integer is U32,
        integer.width() == 8 <==> integer is U64,
        integer matches Integer::U8(value) ==> integer.value() == value,
        integer matches Integer::U16(value) ==> integer.value() == value,
        integer matches Integer::U32(value) ==> integer.value() == value,
        integer matches Integer::U64(value) ==> integer.value() == value,
        integer.bytes() == le_bytes(integer.value(), integer.width()),
{
}

/// The first bit of the flag of a terminator is set if anything ends there, and the second one if
/// everything does. There is no terminator with the second bit alone.
pub proof fn law_flags_of_terminators(terminator: Terminator, flag: (bool, bool), len: nat)
    ensures
        terminator.flag().0 <==> !(terminator is Partial),
        terminator.flag().1 <==> terminator is Complete,
        Terminator::flagged(terminator.flag()) == Ok::<Terminator, Error>(terminator),
        Terminator::flagged(flag) matches Ok(meant) ==> meant.flag() == flag,
        Terminator::flagged(flag) == Err::<Terminator, Error>(Error::InvalidTerminator) <==> !flag.0
            && flag.1,
        Terminator::Complete.ends(len),
        !Terminator::Chunk.ends(len),
        Terminator::Partial.ends(len) <==> len == 0,
{
}

/// A frame is the last of its series if and only if it is marked as such, or is empty without being
/// marked at all.
pub proof fn law_frames_that_end(frame: Frame)
    ensures
        frame.ends() <==> frame.terminator is Complete || (frame.terminator is Partial
            && frame.payload.len() == 0),
{
}

/// The bits of a byte count from its lowest.
pub proof fn law_lowest_bit_first(value: u8)
    ensures
        bits_of(value).len() == 8,
        bits_of(value)[0] <==> value % 2 == 1,
        bits_of(value)[1] <==> (value / 2) % 2 == 1,
        bits_of(value)[2] <==> (value / 4) % 2 == 1,
        bits_of(value)[3] <==> (value / 8) % 2 == 1,
        bits_of(value)[4] <==> (value / 16) % 2 == 1,
        bits_of(value)[5] <==> (value / 32) % 2 == 1,
        bits_of(value)[6] <==> (value / 64) % 2 == 1,
        bits_of(value)[7] <==> (value / 128) % 2 == 1,
{
    assert((value >> 0u8) & 1u8 == value % 2u8 && (value >> 1u8) & 1u8 == (value / 2u8) % 2u8 && (
    value >> 2u8) & 1u8 == (value / 4u8) % 2u8 && (value >> 3u8) & 1u8 == (value / 8u8) % 2u8 && (
    value >> 4u8) & 1u8 == (value / 16u8) % 2u8 && (value >> 5u8) & 1u8 == (value / 32u8) % 2u8 && (
    value >> 6u8) & 1u8 == (value / 64u8) % 2u8 && (value >> 7u8) & 1u8 == (value / 128u8) % 2u8)
        by (bit_vector);
}

/// The bits that announce the widths of three numbers, and a terminator.
pub open spec fn announced(
    procedure: (bool, bool),
    call: (bool, bool),
    length: (bool, bool),
    terminator: (bool, bool),
) -> Seq<bool> {
    seq![
        procedure.0,
        procedure.1,
        call.0,
        call.1,
        length.0,
        length.1,
        terminator.0,
        terminator.1,
    ]
}

/// Where everything is in a call or a response: its type comes first, then its multiflag, then the
/// procedure index, the call index and the number of payload bytes, each as wide as announced, and
/// the payload is the rest. Other messages are their type alone.
pub proof fn law_layout(frame: Frame)
    requires
        frame.payload.len() <= u64::MAX,
    ensures
        Packet::Termination.encode() == seq![0u8],
        Packet::EndOfInput.encode() == seq![3u8],
        Packet::Response(frame).encode() == seq![2u8] + Packet::Call(frame).encode().skip(1),
        ({
            let bytes = Packet::Call(frame).encode();
            let procedure = Integer::smallest(frame.procedure as nat);
            let call = Integer::smallest(frame.call as nat);
            let length = Integer::smallest(frame.payload.len());
            let call_at = (2 + procedure.width()) as int;
            let length_at = (call_at + call.width()) as int;
            let payload_at = (length_at + length.width()) as int;
            &&& bytes[0] == 1
            &&& bits_of(bytes[1]) == announced(
                procedure.flag(),
                call.flag(),
                length.flag(),
                frame.terminator.flag(),
            )
            &&& bytes.len() == payload_at + frame.payload.len()
            &&& le_value(bytes.subrange(2, call_at)) == frame.procedure
            &&& le_value(bytes.subrange(call_at, length_at)) == frame.call
            &&& le_value(bytes.subrange(length_at, payload_at)) == frame.payload.len()
            &&& bytes.skip(payload_at) == frame.payload
        }),
{
    let bytes = Packet::Call(frame).encode();
    let procedure = Integer::smallest(frame.procedure as nat);
    let call = Integer::smallest(frame.call as nat);
    let length = Integer::smallest(frame.payload.len());
    let call_at = (2 + procedure.width()) as int;
    let length_at = (call_at + call.width()) as int;
    let payload_at = (length_at + length.width()) as int;
    procedure.law_round_trip();
    call.law_round_trip();
    length.law_round_trip();
    law_bits_of_pack(frame.flags());
    assert(frame.flags() =~= announced(
        procedure.flag(),
        call.flag(),
        length.flag(),
        frame.terminator.flag(),
    ));
    assert(bytes.subrange(2, call_at) =~= procedure.bytes());
    assert(bytes.subrange(call_at, length_at) =~= call.bytes());
    assert(bytes.subrange(length_at, payload_at) =~= length.bytes());
    assert(bytes.skip(payload_at) =~= frame.payload);
    assert(Packet::Response(frame).encode() =~= seq![2u8] + bytes.skip(1));
}

/// The type of a message decides how it is read. Those that are of no concern, among which are
/// responses if the wire is for modules, are skipped.
pub proof fn law_types_decide(input: Seq<u8>, module_style: bool)
    ensures
        input.len() == 0 ==> parse(input, module_style) == (Parsed {
            result: Err::<Option<Packet>, Error>(Error::IoError(IoErrorKind::UnexpectedEof)),
            rest: Seq::empty(),
        }),
        input.len() > 0 && input[0] == 0 ==> parse(input, module_style) == (Parsed {
            result: Ok::<Option<Packet>, Error>(Some(Packet::Termination)),
            rest: input.skip(1),
        }),
        input.len() > 0 && input[0] == 3 ==> parse(input, module_style) == (Parsed {
            result: Ok::<Option<Packet>, Error>(Some(Packet::EndOfInput)),
            rest: input.skip(1),
        }),
        input.len() > 0 && (input[0] > 3 || (input[0] == 2 && module_style)) ==> parse(
            input,
            module_style,
        ) == (Parsed { result: Ok::<Option<Packet>, Error>(None), rest: input.skip(1) }),
{
}

/// A number is read as what its bytes are worth, and nothing of what follows it is touched. One
/// that is larger than it may be is refused.
pub proof fn law_numbers_are_read(integer: Integer, limit: nat, rest: Seq<u8>)
    ensures
        parse_number(integer.bytes() + rest, integer.flag(), limit) == (Parsed {
            result: if integer.value() > limit {
                Err::<nat, Error>(Error::IdxTooBig)
            } else {
                Ok(integer.value())
            },
            rest,
        }),
{
    integer.law_round_trip();
    let input = integer.bytes() + rest;
    assert(input.take(integer.width() as int) =~= integer.bytes());
    assert(input.skip(integer.width() as int) =~= rest);
}

/// A number of which some bytes are missing cannot be read.
pub proof fn law_short_numbers(input: Seq<u8>, flag: (bool, bool), limit: nat)
    requires
        input.len() < Integer::flag_width(flag),
    ensures
        parse_number(input, flag, limit) == (Parsed {
            result: Err::<nat, Error>(Error::IoError(IoErrorKind::UnexpectedEof)),
            rest: Seq::empty(),
        }),
{
}

/// What follows the multiflag of a call or a response decides about everything else.
proof fn lemma_behind_multiflag(
    ty: u8,
    flags: Seq<bool>,
    terminator: Terminator,
    numbers: Seq<u8>,
    module_style: bool,
)
    requires
        ty == 1 || (ty == 2 && !module_style),
        flags.len() == 8,
        (flags[6], flags[7]) == terminator.flag(),
    ensures
        ({
            let parsed = parse(seq![ty, pack(flags)] + numbers, module_style);
            let inner = parse_numbers(numbers, flags, terminator);
            &&& parsed.rest == inner.rest
            &&& inner.result matches Err(error) ==> parsed.result == Err::<Option<Packet>, Error>(
                error,
            )
            &&& inner.result matches Ok(frame) ==> parsed.result == Ok::<Option<Packet>, Error>(
                Some(
                    if ty == 1 {
                        Packet::Call(frame)
                    } else {
                        Packet::Response(frame)
                    },
                ),
            )
        }),
{
    let input = seq![ty, pack(flags)] + numbers;
    law_bits_of_pack(flags);
    assert(input.skip(1)[0] == pack(flags));
    assert(input.skip(1).skip(1) =~= numbers);
}

/// The three numbers and the payload behind a multiflag are read one after the other.
proof fn lemma_numbers_in_turn(
    procedure: Integer,
    call: Integer,
    length: Integer,
    terminator: Terminator,
    payload: Seq<u8>,
    rest: Seq<u8>,
)
    requires
        length.value() == payload.len(),
    ensures
        ({
            let flags = announced(
                procedure.flag(),
                call.flag(),
                length.flag(),
                terminator.flag(),
            );
            let behind_length = payload + rest;
            let behind_call = length.bytes() + behind_length;
            let behind_procedure = call.bytes() + behind_call;
            let parsed = parse_numbers(procedure.bytes() + behind_procedure, flags, terminator);
            if procedure.value() > IpfiInteger::MAX {
                parsed == (Parsed {
                    result: Err::<Frame, Error>(Error::IdxTooBig),
                    rest: behind_procedure,
                })
            } else if call.value() > IpfiInteger::MAX {
                parsed == (Parsed {
                    result: Err::<Frame, Error>(Error::IdxTooBig),
                    rest: behind_call,
                })
            } else if length.value() > usize::MAX {
                parsed == (Parsed {
                    result: Err::<Frame, Error>(Error::IdxTooBig),
                    rest: behind_length,
                })
            } else {
                parsed == (Parsed {
                    result: Ok::<Frame, Error>(
                        Frame {
                            procedure: procedure.value() as IpfiInteger,
                            call: call.value() as IpfiInteger,
                            terminator,
                            payload,
                        },
                    ),
                    rest,
                })
            }
        }),
{
    let flags = announced(procedure.flag(), call.flag(), length.flag(), terminator.flag());
    assert((flags[0], flags[1]) == procedure.flag());
    assert((flags[2], flags[3]) == call.flag());
    assert((flags[4], flags[5]) == length.flag());
    let behind_length = payload + rest;
    let behind_call = length.bytes() + behind_length;
    let behind_procedure = call.bytes() + behind_call;
    law_numbers_are_read(procedure, IpfiInteger::MAX as nat, behind_procedure);
    law_numbers_are_read(call, IpfiInteger::MAX as nat, behind_call);
    law_numbers_are_read(length, usize::MAX as nat, behind_length);
    assert(behind_length.take(payload.len() as int) =~= payload);
    assert(behind_length.skip(payload.len() as int) =~= rest);
}

/// Whatever widths the other side has chosen for its numbers, a call or a response is read as what
/// it says, and nothing of what follows it is touched. Numbers that are too large are refused as
/// soon as they have been read.
pub proof fn law_any_width_is_read(
    ty: u8,
    procedure: Integer,
    call: Integer,
    length: Integer,
    terminator: Terminator,
    payload: Seq<u8>,
    rest: Seq<u8>,
    module_style: bool,
)
    requires
        ty == 1 || (ty == 2 && !module_style),
        length.value() == payload.len(),
    ensures
        ({
            let flags = announced(
                procedure.flag(),
                call.flag(),
                length.flag(),
                terminator.flag(),
            );
            let behind_length = payload + rest;
            let behind_call = length.bytes() + behind_length;
            let behind_procedure = call.bytes() + behind_call;
            let input = seq![ty, pack(flags)] + (procedure.bytes() + behind_procedure);
            let frame = Frame {
                procedure: procedure.value() as IpfiInteger,
                call: call.value() as IpfiInteger,
                terminator,
                payload,
            };
            let parsed = parse(input, module_style);
            if procedure.value() > IpfiInteger::MAX {
                &&& parsed.result == Err::<Option<Packet>, Error>(Error::IdxTooBig)
                &&& parsed.rest == behind_procedure
            } else if call.value() > IpfiInteger::MAX {
                &&& parsed.result == Err::<Option<Packet>, Error>(Error::IdxTooBig)
                &&& parsed.rest == behind_call
            } else if length.value() > usize::MAX {
                &&& parsed.result == Err::<Option<Packet>, Error>(Error::IdxTooBig)
                &&& parsed.rest == behind_length
            } else {
                &&& parsed.result == Ok::<Option<Packet>, Error>(
                    Some(
                        if ty == 1 {
                            Packet::Call(frame)
                        } else {
                            Packet::Response(frame)
                        },
                    ),
                )
                &&& parsed.rest == rest
            }
        }),
{
    let flags = announced(procedure.flag(), call.flag(), length.flag(), terminator.flag());
    let behind_length = payload + rest;
    let behind_call = length.bytes() + behind_length;
    let behind_procedure = call.bytes() + behind_call;
    let numbers = procedure.bytes() + behind_procedure;
    lemma_behind_multiflag(ty, flags, terminator, numbers, module_style);
    lemma_numbers_in_turn(procedure, call, length, terminator, payload, rest);
}

/// A call or a response whose payload is cut short cannot be read.
pub proof fn law_cut_short(
    ty: u8,
    procedure: Integer,
    call: Integer,
    length: Integer,
    terminator: Terminator,
    payload: Seq<u8>,
    module_style: bool,
)
    requires
        ty == 1 || (ty == 2 && !module_style),
        procedure.value() <= IpfiInteger::MAX,
        call.value() <= IpfiInteger::MAX,
        payload.len() < length.value() <= usize::MAX,
    ensures
        ({
            let flags = announced(
                procedure.flag(),
                call.flag(),
                length.flag(),
                terminator.flag(),
            );
            let numbers = procedure.bytes() + (call.bytes() + (length.bytes() + payload));
            parse(seq![ty, pack(flags)] + numbers, module_style) == (Parsed {
                result: Err::<Option<Packet>, Error>(Error::IoError(IoErrorKind::UnexpectedEof)),
                rest: Seq::empty(),
            })
        }),
{
    let flags = announced(procedure.flag(), call.flag(), length.flag(), terminator.flag());
    let behind_call = length.bytes() + payload;
    let behind_procedure = call.bytes() + behind_call;
    let numbers = procedure.bytes() + behind_procedure;
    lemma_behind_multiflag(ty, flags, terminator, numbers, module_style);
    law_numbers_are_read(procedure, IpfiInteger::MAX as nat, behind_procedure);
    law_numbers_are_read(call, IpfiInteger::MAX as nat, behind_call);
    law_numbers_are_read(length, usize::MAX as nat, payload);
}

/// A call or a response that is cut short in its procedure index, or before that, cannot be read.
pub proof fn law_cut_in_procedure(
    ty: u8,
    procedure: (bool, bool),
    call: (bool, bool),
    length: (bool, bool),
    terminator: Terminator,
    short: Seq<u8>,
    module_style: bool,
)
    requires
        ty == 1 || (ty == 2 && !module_style),
        short.len() < Integer::flag_width(procedure),
    ensures
        ({
            let flags = announced(procedure, call, length, terminator.flag());
            let failed = Parsed {
                result: Err::<Option<Packet>, Error>(Error::IoError(IoErrorKind::UnexpectedEof)),
                rest: Seq::<u8>::empty(),
            };
            &&& parse(seq![ty], module_style) == failed
            &&& parse(seq![ty, pack(flags)] + short, module_style) == failed
        }),
{
    let flags = announced(procedure, call, length, terminator.flag());
    assert(seq![ty].skip(1) =~= Seq::<u8>::empty());
    lemma_behind_multiflag(ty, flags, terminator, short, module_style);
}

/// A call or a response that is cut short in its call index cannot be read.
pub proof fn law_cut_in_call(
    ty: u8,
    procedure: Integer,
    call: (bool, bool),
    length: (bool, bool),
    terminator: Terminator,
    short: Seq<u8>,
    module_style: bool,
)
    requires
        ty == 1 || (ty == 2 && !module_style),
        procedure.value() <= IpfiInteger::MAX,
        short.len() < Integer::flag_width(call),
    ensures
        ({
            let flags = announced(procedure.flag(), call, length, terminator.flag());
            let numbers = procedure.bytes() + short;
            parse(seq![ty, pack(flags)] + numbers, module_style) == (Parsed {
                result: Err::<Option<Packet>, Error>(Error::IoError(IoErrorKind::UnexpectedEof)),
                rest: Seq::<u8>::empty(),
            })
        }),
{
    let flags = announced(procedure.flag(), call, length, terminator.flag());
    let numbers = procedure.bytes() + short;
    law_numbers_are_read(procedure, IpfiInteger::MAX as nat, short);
    lemma_behind_multiflag(ty, flags, terminator, numbers, module_style);
}

/// A call or a response that is cut short in its number of payload bytes cannot be read.
pub proof fn law_cut_in_length(
    ty: u8,
    procedure: Integer,
    call: Integer,
    length: (bool, bool),
    terminator: Terminator,
    short: Seq<u8>,
    module_style: bool,
)
    requires
        ty == 1 || (ty == 2 && !module_style),
        procedure.value() <= IpfiInteger::MAX,
        call.value() <= IpfiInteger::MAX,
        short.len() < Integer::flag_width(length),
    ensures
        ({
            let flags = announced(procedure.flag(), call.flag(), length, terminator.flag());
            let numbers = procedure.bytes() + (call.bytes() + short);
            parse(seq![ty, pack(flags)] + numbers, module_style) == (Parsed {
                result: Err::<Option<Packet>, Error>(Error::IoError(IoErrorKind::UnexpectedEof)),
                rest: Seq::<u8>::empty(),
            })
        }),
{
    let flags = announced(procedure.flag(), call.flag(), length, terminator.flag());
    let numbers = procedure.bytes() + (call.bytes() + short);
    law_numbers_are_read(procedure, IpfiInteger::MAX as nat, call.bytes() + short);
    law_numbers_are_read(call, IpfiInteger::MAX as nat, short);
    lemma_behind_multiflag(ty, flags, terminator, numbers, module_style);
}

/// What follows the multiflag of a call or a response decides about how much of it is missing.
proof fn lemma_wanted_behind_multiflag(
    ty: u8,
    flags: Seq<bool>,
    terminator: Terminator,
    numbers: Seq<u8>,
    module_style: bool,
)
    requires
        ty == 1 || (ty == 2 && !module_style),
        flags.len() == 8,
        (flags[6], flags[7]) == terminator.flag(),
    ensures
        wanted(seq![ty, pack(flags)] + numbers, module_style) == numbers_wanted(numbers, flags),
{
    let prefix = seq![ty, pack(flags)] + numbers;
    law_bits_of_pack(flags);
    assert(prefix[1] == pack(flags));
    assert(prefix.skip(2) =~= numbers);
}

/// As long as a number of a call or a response is cut short, what is missing of that number is
/// wanted next, and the type and the multiflag are wanted one after the other before that.
pub proof fn law_numbers_are_wanted(
    ty: u8,
    procedure: Integer,
    call: Integer,
    length: (bool, bool),
    terminator: Terminator,
    short: Seq<u8>,
    module_style: bool,
)
    requires
        ty == 1 || (ty == 2 && !module_style),
        procedure.value() <= IpfiInteger::MAX,
        call.value() <= IpfiInteger::MAX,
    ensures
        wanted(Seq::empty(), module_style) == 1,
        wanted(seq![ty], module_style) == 1,
        ({
            let flags = announced(procedure.flag(), call.flag(), length, terminator.flag());
            let start = seq![ty, pack(flags)];
            &&& short.len() < procedure.width() ==> wanted(start + short, module_style)
                == procedure.width() - short.len()
            &&& short.len() < call.width() ==> wanted(
                start + (procedure.bytes() + short),
                module_style,
            ) == call.width() - short.len()
            &&& short.len() < Integer::flag_width(length) ==> wanted(
                start + (procedure.bytes() + (call.bytes() + short)),
                module_style,
            ) == Integer::flag_width(length) - short.len()
        }),
{
    let flags = announced(procedure.flag(), call.flag(), length, terminator.flag());
    procedure.law_round_trip();
    call.law_round_trip();
    let second = procedure.bytes() + short;
    let third = procedure.bytes() + (call.bytes() + short);
    lemma_wanted_behind_multiflag(ty, flags, terminator, short, module_style);
    lemma_wanted_behind_multiflag(ty, flags, terminator, second, module_style);
    lemma_wanted_behind_multiflag(ty, flags, terminator, third, module_style);
    law_numbers_are_read(procedure, IpfiInteger::MAX as nat, short);
    law_numbers_are_read(procedure, IpfiInteger::MAX as nat, call.bytes() + short);
    law_numbers_are_read(call, IpfiInteger::MAX as nat, short);
}

/// Once the numbers of a call or a response are there, what is missing of its payload is wanted
/// next, and nothing once that is there.
pub proof fn law_payload_is_wanted(
    ty: u8,
    procedure: Integer,
    call: Integer,
    length: Integer,
    terminator: Terminator,
    payload: Seq<u8>,
    module_style: bool,
)
    requires
        ty == 1 || (ty == 2 && !module_style),
        procedure.value() <= IpfiInteger::MAX,
        call.value() <= IpfiInteger::MAX,
        payload.len() <= length.value() <= usize::MAX,
    ensures
        ({
            let flags = announced(
                procedure.flag(),
                call.flag(),
                length.flag(),
                terminator.flag(),
            );
            let numbers = procedure.bytes() + (call.bytes() + (length.bytes() + payload));
            wanted(seq![ty, pack(flags)] + numbers, module_style) == length.value() - payload.len()
        }),
{
    let flags = announced(procedure.flag(), call.flag(), length.flag(), terminator.flag());
    let behind_call = length.bytes() + payload;
    let behind_procedure = call.bytes() + behind_call;
    procedure.law_round_trip();
    call.law_round_trip();
    length.law_round_trip();
    lemma_wanted_behind_multiflag(
        ty,
        flags,
        terminator,
        procedure.bytes() + behind_procedure,
        module_style,
    );
    law_numbers_are_read(procedure, IpfiInteger::MAX as nat, behind_procedure);
    law_numbers_are_read(call, IpfiInteger::MAX as nat, behind_call);
    law_numbers_are_read(length, usize::MAX as nat, payload);
}

/// A call or a response whose multiflag holds no terminator is refused as soon as that has been
/// read.
pub proof fn law_invalid_terminators(ty: u8, multiflag: u8, rest: Seq<u8>, module_style: bool)
    requires
        ty == 1 || (ty == 2 && !module_style),
        !bits_of(multiflag)[6],
        bits_of(multiflag)[7],
    ensures
        parse(seq![ty, multiflag] + rest, module_style) == (Parsed {
            result: Err::<Option<Packet>, Error>(Error::InvalidTerminator),
            rest,
        }),
{
    let input = seq![ty, multiflag] + rest;
    assert(input.skip(1)[0] == multiflag);
    assert(input.skip(1).skip(1) =~= rest);
}

/// What is to be sent, and what has arrived, says what it holds.
pub proof fn law_messages_are_told(message: Message, received: Received, frame: ReceivedFrame)
    ensures
        message is Termination <==> message@ is Termination,
        message is EndOfInput <==> message@ is EndOfInput,
        message matches Message::Call { procedure_idx, call_idx, terminator, args } ==> message@
            == Packet::Call(
            Frame { procedure: procedure_idx.0, call: call_idx.0, terminator, payload: args@ },
        ),
        message matches Message::Response {
            procedure_idx,
            call_idx,
            terminator,
            message: payload,
        } ==> message@ == Packet::Response(
            Frame { procedure: procedure_idx.0, call: call_idx.0, terminator, payload: payload@ },
        ),
        received is Ignored <==> received@ is None,
        received is Termination <==> received@ == Some(Packet::Termination),
        received is EndOfInput <==> received@ == Some(Packet::EndOfInput),
        received matches Received::Call(frame) ==> received@ == Some(Packet::Call(frame@)),
        received matches Received::Response(frame) ==> received@ == Some(Packet::Response(frame@)),
        frame@.procedure == frame.procedure_idx.0,
        frame@.call == frame.call_idx.0,
        frame@.terminator == frame.terminator,
        frame@.payload == frame.payload@,
{
}

} // verus!
