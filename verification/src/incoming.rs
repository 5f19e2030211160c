//! Interpreting the bytes that arrive on a wire.
use crate::error::Error;
use crate::integer::{le_value, Integer};
use crate::reader::{unexpected_eof, Reader};
use crate::types::{CallIndex, IpfiInteger, ProcedureIndex, Terminator};
use crate::wire_utils::{
    bits_of, law_bits_of_pack, pack, u8_to_bool_array, Frame, Packet,
};
use vstd::prelude::*;

verus! {

/// What can be read off some bytes: a value or an error, and the bytes that are left.
#[verifier::ext_equal]
pub struct Parsed<T> {
    pub result: Result<T, Error>,
    pub rest: Seq<u8>,
}

/// A number at the start of the input whose width was announced by a 2-bit flag, and which may
/// not exceed a limit.
pub open spec fn parse_number(input: Seq<u8>, flag: (bool, bool), limit: nat) -> Parsed<nat> {
    let width = Integer::flag_width(flag);
    if input.len() < width {
        Parsed { result: Err(unexpected_eof()), rest: Seq::empty() }
    } else if le_value(input.take(width as int)) > limit {
        Parsed { result: Err(Error::IdxTooBig), rest: input.skip(width as int) }
    } else {
        Parsed { result: Ok(le_value(input.take(width as int))), rest: input.skip(width as int) }
    }
}

/// The frame of a call or a response at the start of the input.
pub open spec fn parse_frame(input: Seq<u8>) -> Parsed<Frame> {
    if input.len() == 0 {
        Parsed { result: Err(unexpected_eof()), rest: Seq::empty() }
    } else {
        let bits = bits_of(input[0]);
        match Terminator::flagged((bits[6], bits[7])) {
            Err(error) => Parsed { result: Err(error), rest: input.skip(1) },
            Ok(terminator) => parse_numbers(input.skip(1), bits, terminator),
        }
    }
}

/// What follows the multiflag in a frame.
pub open spec fn parse_numbers(
    input: Seq<u8>,
    bits: Seq<bool>,
    terminator: Terminator,
) -> Parsed<Frame> {
    let procedure = parse_number(input, (bits[0], bits[1]), IpfiInteger::MAX as nat);
    let call = parse_number(procedure.rest, (bits[2], bits[3]), IpfiInteger::MAX as nat);
    let length = parse_number(call.rest, (bits[4], bits[5]), usize::MAX as nat);
    match (procedure.result, call.result, length.result) {
        (Err(error), _, _) => Parsed { result: Err(error), rest: procedure.rest },
        (_, Err(error), _) => Parsed { result: Err(error), rest: call.rest },
        (_, _, Err(error)) => Parsed { result: Err(error), rest: length.rest },
        (Ok(procedure), Ok(call), Ok(count)) => if length.rest.len() < count {
            Parsed { result: Err(unexpected_eof()), rest: Seq::empty() }
        } else {
            Parsed {
                result: Ok(
                    Frame {
                        procedure: procedure as IpfiInteger,
                        call: call as IpfiInteger,
                        terminator,
                        payload: length.rest.take(count as int),
                    },
                ),
                rest: length.rest.skip(count as int),
            }
        },
    }
}

/// The message at the start of the input. Messages of an unknown type, and responses that reach
/// a module, are ignored: nothing but their type is read, and they parse as `None`.
pub open spec fn parse(input: Seq<u8>, module_style: bool) -> Parsed<Option<Packet>> {
    if input.len() == 0 {
        Parsed { result: Err(unexpected_eof()), rest: Seq::empty() }
    } else if input[0] == 0 {
        Parsed { result: Ok(Some(Packet::Termination)), rest: input.skip(1) }
    } else if input[0] == 3 {
        Parsed { result: Ok(Some(Packet::EndOfInput)), rest: input.skip(1) }
    } else if input[0] == 1 || (input[0] == 2 && !module_style) {
        let parsed = parse_frame(input.skip(1));
        match parsed.result {
            Err(error) => Parsed { result: Err(error), rest: parsed.rest },
            Ok(frame) => Parsed {
                result: Ok(
                    Some(
                        if input[0] == 1 {
                            Packet::Call(frame)
                        } else {
                            Packet::Response(frame)
                        },
                    ),
                ),
                rest: parsed.rest,
            },
        }
    } else {
        Parsed { result: Ok(None), rest: input.skip(1) }
    }
}

/// The contents of a call or a response that has arrived.
#[derive(PartialEq, Eq, Debug)]
pub struct ReceivedFrame {
    pub procedure_idx: ProcedureIndex,
    pub call_idx: CallIndex,
    pub terminator: Terminator,
    pub payload: Vec<u8>,
}

impl View for ReceivedFrame {
    type V = Frame;

    open spec fn view(&self) -> Frame {
        Frame {
            procedure: self.procedure_idx.0,
            call: self.call_idx.0,
            terminator: self.terminator,
            payload: self.payload@,
        }
    }
}

impl ReceivedFrame {
    /// Tells whether the frame is the last of its series.
    pub fn ends(&self) -> (ends: bool)
        ensures
            ends == self@.ends(),
    {
        self.terminator.ends_series(self.payload.len())
    }
}

/// A message that has arrived.
#[derive(PartialEq, Eq, Debug)]
pub enum Received {
    /// The other program is shutting down.
    Termination,
    /// Some (or all) of the arguments of a procedure call.
    Call(ReceivedFrame),
    /// Some (or all) of the response to a procedure call.
    Response(ReceivedFrame),
    /// The other program has nothing more to say for now.
    EndOfInput,
    /// A message that is of no concern to this side.
    Ignored,
}

impl View for Received {
    type V = Option<Packet>;

    open spec fn view(&self) -> Option<Packet> {
        match *self {
            Received::Termination => Some(Packet::Termination),
            Received::Call(frame) => Some(Packet::Call(frame@)),
            Received::Response(frame) => Some(Packet::Response(frame@)),
            Received::EndOfInput => Some(Packet::EndOfInput),
            Received::Ignored => None,
        }
    }
}

/// Reads an index whose width was announced by the given flag.
fn read_index(reader: &mut Reader, flag: (bool, bool)) -> (result: Result<IpfiInteger, Error>)
    ensures
        ({
            let parsed = parse_number(old(reader)@, flag, IpfiInteger::MAX as nat);
            &&& final(reader)@ == parsed.rest
            &&& match result {
                Ok(index) => parsed.result == Ok::<nat, Error>(index as nat),
                Err(error) => parsed.result == Err::<nat, Error>(error),
            }
        }),
{
    match Integer::from_flag(flag).populate_from_reader(reader) {
        Ok(integer) => match integer.into_int() {
            Some(index) => Ok(index),
            None => Err(Error::IdxTooBig),
        },
        Err(error) => Err(error),
    }
}

/// Reads a number of bytes whose width was announced by the given flag.
fn read_length(reader: &mut Reader, flag: (bool, bool)) -> (result: Result<usize, Error>)
    ensures
        ({
            let parsed = parse_number(old(reader)@, flag, usize::MAX as nat);
            &&& final(reader)@ == parsed.rest
            &&& match result {
                Ok(length) => parsed.result == Ok::<nat, Error>(length as nat),
                Err(error) => parsed.result == Err::<nat, Error>(error),
            }
        }),
{
    match Integer::from_flag(flag).populate_from_reader(reader) {
        Ok(integer) => match integer.into_usize() {
            Some(length) => Ok(length),
            None => Err(Error::IdxTooBig),
        },
        Err(error) => Err(error),
    }
}

/// Reads the frame of a call or a response.
pub fn read_frame(reader: &mut Reader) -> (result: Result<ReceivedFrame, Error>)
    ensures
        ({
            let parsed = parse_frame(old(reader)@);
            &&& final(reader)@ == parsed.rest
            &&& match result {
                Ok(frame) => parsed.result == Ok::<Frame, Error>(frame@),
                Err(error) => parsed.result == Err::<Frame, Error>(error),
            }
        }),
{
    // First is the multiflag
    let multiflag: Vec<u8> = reader.read_exact(1)?;
    let bits = u8_to_bool_array(multiflag[0]);
    let terminator = Terminator::from_flag((bits[6], bits[7]))?;
    // Then the procedure index
    let procedure: IpfiInteger = read_index(reader, (bits[0], bits[1]))?;
    // Then the call index
    let call: IpfiInteger = read_index(reader, (bits[2], bits[3]))?;
    // Then the number of bytes to expect
    let length: usize = read_length(reader, (bits[4], bits[5]))?;
    // And finally those bytes
    let payload: Vec<u8> = reader.read_exact(length)?;
    Ok(
        ReceivedFrame {
            procedure_idx: ProcedureIndex(procedure),
            call_idx: CallIndex(call),
            terminator,
            payload,
        },
    )
}

/// Reads one message.
pub fn read_message(reader: &mut Reader, module_style: bool) -> (result: Result<Received, Error>)
    ensures
        ({
            let parsed = parse(old(reader)@, module_style);
            &&& final(reader)@ == parsed.rest
            &&& match result {
                Ok(received) => parsed.result == Ok::<Option<Packet>, Error>(received@),
                Err(error) => parsed.result == Err::<Option<Packet>, Error>(error),
            }
        }),
{
    // First is the type of message
    let ty: Vec<u8> = reader.read_exact(1)?;
    assert(ty@[0] == old(reader)@[0]);
    let ty: u8 = ty[0];
    if ty == 1 {
        match read_frame(reader) {
            Ok(frame) => Ok(Received::Call(frame)),
            Err(error) => Err(error),
        }
    } else if ty == 2 && !module_style {
        match read_frame(reader) {
            Ok(frame) => Ok(Received::Response(frame)),
            Err(error) => Err(error),
        }
    } else if ty == 3 {
        Ok(Received::EndOfInput)
    } else if ty == 0 {
        Ok(Received::Termination)
    } else {
        // Unknown message types are ignored, as are responses if we're a module
        Ok(Received::Ignored)
    }
}

/// A number that was written in its smallest form is read back, and nothing of what follows it is
/// touched.
proof fn lemma_parse_number(value: nat, limit: nat, rest: Seq<u8>)
    requires
        value <= limit,
        value <= u64::MAX,
    ensures
        parse_number(
            Integer::smallest(value).bytes() + rest,
            Integer::smallest(value).flag(),
            limit,
        ) == (Parsed { result: Ok::<nat, Error>(value), rest }),
{
    let integer = Integer::smallest(value);
    integer.law_round_trip();
    let input = integer.bytes() + rest;
    assert(input.take(integer.width() as int) =~= integer.bytes());
    assert(input.skip(integer.width() as int) =~= rest);
}

/// What follows the multiflag of a frame that was written is read back, and nothing of what follows
/// the frame is touched.
proof fn lemma_parse_numbers(frame: Frame, rest: Seq<u8>)
    requires
        frame.payload.len() <= usize::MAX,
    ensures
        parse_numbers(
            Integer::smallest(frame.procedure as nat).bytes() + (Integer::smallest(
                frame.call as nat,
            ).bytes() + (Integer::smallest(frame.payload.len()).bytes() + (frame.payload + rest))),
            frame.flags(),
            frame.terminator,
        ) == (Parsed { result: Ok::<Frame, Error>(frame), rest }),
{
    let after_length = frame.payload + rest;
    let after_call = Integer::smallest(frame.payload.len()).bytes() + after_length;
    let after_procedure = Integer::smallest(frame.call as nat).bytes() + after_call;
    lemma_parse_number(frame.procedure as nat, IpfiInteger::MAX as nat, after_procedure);
    lemma_parse_number(frame.call as nat, IpfiInteger::MAX as nat, after_call);
    lemma_parse_number(frame.payload.len(), usize::MAX as nat, after_length);
    assert(after_length.take(frame.payload.len() as int) =~= frame.payload);
    assert(after_length.skip(frame.payload.len() as int) =~= rest);
}

/// A frame that was written is read back, and nothing of what follows it is touched.
proof fn lemma_parse_frame(frame: Frame, rest: Seq<u8>)
    requires
        frame.payload.len() <= usize::MAX,
    ensures
        parse_frame(frame.encode() + rest) == (Parsed { result: Ok::<Frame, Error>(frame), rest }),
{
    let input = frame.encode() + rest;
    let procedure = Integer::smallest(frame.procedure as nat).bytes();
    let call = Integer::smallest(frame.call as nat).bytes();
    let length = Integer::smallest(frame.payload.len()).bytes();
    assert(input[0] == pack(frame.flags()));
    assert(input.skip(1) =~= procedure + (call + (length + (frame.payload + rest))));
    law_bits_of_pack(frame.flags());
    assert(Terminator::flagged(frame.terminator.flag()) == Ok::<Terminator, Error>(
        frame.terminator,
    ));
    lemma_parse_numbers(frame, rest);
}

/// Every message that one side of a wire can write is read back by the other, and reading it
/// touches nothing of what follows it. Only a module does not read responses.
pub proof fn law_parse_encode(packet: Packet, rest: Seq<u8>, module_style: bool)
    requires
        packet.encodable(),
        packet is Response ==> !module_style,
    ensures
        parse(packet.encode() + rest, module_style) == (Parsed {
            result: Ok::<Option<Packet>, Error>(Some(packet)),
            rest,
        }),
{
    let input = packet.encode() + rest;
    match packet {
        Packet::Call(frame) => {
            lemma_parse_frame(frame, rest);
            assert(input.skip(1) =~= frame.encode() + rest);
        },
        Packet::Response(frame) => {
            lemma_parse_frame(frame, rest);
            assert(input.skip(1) =~= frame.encode() + rest);
        },
        _ => {
            assert(input.skip(1) =~= rest);
        },
    }
}

/// No two different messages are written as the same bytes.
pub proof fn law_encode_injective(left: Packet, right: Packet)
    requires
        left.encodable(),
        right.encodable(),
        left.encode() == right.encode(),
    ensures
        left == right,
{
    law_parse_encode(left, Seq::empty(), false);
    law_parse_encode(right, Seq::empty(), false);
}

/// Reading a message from the start of some input uses up at least one byte of it, and leaves the
/// end of it as it is.
pub proof fn law_parse_consumes(input: Seq<u8>, module_style: bool)
    requires
        input.len() > 0,
    ensures
        parse(input, module_style).rest.len() < input.len(),
        parse(input, module_style).rest == input.skip(
            input.len() - parse(input, module_style).rest.len(),
        ),
{
    let parsed = parse(input, module_style);
    assert(input.skip(input.len() as int) =~= Seq::<u8>::empty());
    if input[0] == 1 || (input[0] == 2 && !module_style) {
        lemma_parse_frame_consumes(input.skip(1));
        let rest = parse_frame(input.skip(1)).rest;
        assert(input.skip(1).skip(input.skip(1).len() - rest.len()) =~= input.skip(
            input.len() - rest.len(),
        ));
    }
}

/// Reading a number leaves the end of the input as it is.
proof fn lemma_parse_number_consumes(input: Seq<u8>, flag: (bool, bool), limit: nat)
    ensures
        parse_number(input, flag, limit).rest.len() <= input.len(),
        parse_number(input, flag, limit).rest == input.skip(
            input.len() - parse_number(input, flag, limit).rest.len(),
        ),
{
    assert(input.skip(input.len() as int) =~= Seq::<u8>::empty());
}

/// Reading a frame leaves the end of the input as it is.
proof fn lemma_parse_frame_consumes(input: Seq<u8>)
    ensures
        parse_frame(input).rest.len() <= input.len(),
        parse_frame(input).rest == input.skip(input.len() - parse_frame(input).rest.len()),
{
    assert(input.skip(input.len() as int) =~= Seq::<u8>::empty());
    if input.len() > 0 {
        let bits = bits_of(input[0]);
        let tail = input.skip(1);
        let procedure = parse_number(tail, (bits[0], bits[1]), IpfiInteger::MAX as nat);
        let call = parse_number(procedure.rest, (bits[2], bits[3]), IpfiInteger::MAX as nat);
        let length = parse_number(call.rest, (bits[4], bits[5]), usize::MAX as nat);
        lemma_parse_number_consumes(tail, (bits[0], bits[1]), IpfiInteger::MAX as nat);
        lemma_parse_number_consumes(procedure.rest, (bits[2], bits[3]), IpfiInteger::MAX as nat);
        lemma_parse_number_consumes(call.rest, (bits[4], bits[5]), usize::MAX as nat);
        assert(procedure.rest =~= input.skip(input.len() - procedure.rest.len()));
        assert(call.rest =~= input.skip(input.len() - call.rest.len()));
        assert(length.rest =~= input.skip(input.len() - length.rest.len()));
        match length.result {
            Ok(count) => {
                if count <= length.rest.len() {
                    assert(length.rest.skip(count as int) =~= input.skip(
                        input.len() - (length.rest.len() - count),
                    ));
                }
            },
            Err(_) => {},
        }
    }
}

/// How many more bytes it takes to get to the next decision after the multiflag of a frame.
pub open spec fn numbers_wanted(input: Seq<u8>, bits: Seq<bool>) -> nat {
    let procedure = parse_number(input, (bits[0], bits[1]), IpfiInteger::MAX as nat);
    let call = parse_number(procedure.rest, (bits[2], bits[3]), IpfiInteger::MAX as nat);
    let length = parse_number(call.rest, (bits[4], bits[5]), usize::MAX as nat);
    if input.len() < Integer::flag_width((bits[0], bits[1])) {
        (Integer::flag_width((bits[0], bits[1])) - input.len()) as nat
    } else if procedure.result is Err {
        0
    } else if procedure.rest.len() < Integer::flag_width((bits[2], bits[3])) {
        (Integer::flag_width((bits[2], bits[3])) - procedure.rest.len()) as nat
    } else if call.result is Err {
        0
    } else if call.rest.len() < Integer::flag_width((bits[4], bits[5])) {
        (Integer::flag_width((bits[4], bits[5])) - call.rest.len()) as nat
    } else {
        match length.result {
            Err(_) => 0,
            Ok(count) => if length.rest.len() < count {
                (count - length.rest.len()) as nat
            } else {
                0
            },
        }
    }
}

/// How many more bytes have to arrive, after those that have, before there is more to decide
/// about the message they start: none if the message is complete, or known to be invalid.
pub open spec fn wanted(prefix: Seq<u8>, module_style: bool) -> nat {
    if prefix.len() == 0 {
        1
    } else if prefix[0] == 1 || (prefix[0] == 2 && !module_style) {
        if prefix.len() == 1 {
            1
        } else {
            let bits = bits_of(prefix[1]);
            if Terminator::flagged((bits[6], bits[7])) is Err {
                0
            } else {
                numbers_wanted(prefix.skip(2), bits)
            }
        }
    } else {
        0
    }
}

/// The number of bytes that are missing from a number.
fn number_wanted(reader: &Reader, flag: (bool, bool)) -> (missing: usize)
    ensures
        missing == (if reader@.len() < Integer::flag_width(flag) {
            Integer::flag_width(flag) - reader@.len()
        } else {
            0
        }),
{
    let width: usize = match flag {
        (false, false) => 1,
        (false, true) => 2,
        (true, false) => 4,
        (true, true) => 8,
    };
    if reader.remaining() < width {
        width - reader.remaining()
    } else {
        0
    }
}

/// The number of bytes to read next, given the bytes of a message that have been read so far.
/// Nothing beyond the end of the message is ever asked for, and zero means that the message can
/// be interpreted. This is for whoever has to collect messages from a stream.
pub fn bytes_wanted(prefix: &[u8], module_style: bool) -> (count: usize)
    ensures
        count == wanted(prefix@, module_style),
{
    if prefix.len() == 0 {
        return 1;
    }
    let ty: u8 = prefix[0];
    if !(ty == 1 || (ty == 2 && !module_style)) {
        return 0;
    }
    if prefix.len() == 1 {
        return 1;
    }
    let bits = u8_to_bool_array(prefix[1]);
    if Terminator::from_flag((bits[6], bits[7])).is_err() {
        return 0;
    }
    let mut numbers: Vec<u8> = Vec::new();
    numbers.extend_from_slice(vstd::slice::slice_subrange(prefix, 2, prefix.len()));
    assert(numbers@ =~= prefix@.skip(2));
    let mut reader = Reader::new(numbers);
    let missing: usize = number_wanted(&reader, (bits[0], bits[1]));
    if missing > 0 {
        return missing;
    }
    if read_index(&mut reader, (bits[0], bits[1])).is_err() {
        return 0;
    }
    let missing: usize = number_wanted(&reader, (bits[2], bits[3]));
    if missing > 0 {
        return missing;
    }
    if read_index(&mut reader, (bits[2], bits[3])).is_err() {
        return 0;
    }
    let missing: usize = number_wanted(&reader, (bits[4], bits[5]));
    if missing > 0 {
        return missing;
    }
    match read_length(&mut reader, (bits[4], bits[5])) {
        Err(_) => 0,
        Ok(count) => if reader.remaining() < count {
            count - reader.remaining()
        } else {
            0
        },
    }
}

/// More input after a number that is there changes nothing about the number.
proof fn lemma_parse_number_extends(
    input: Seq<u8>,
    more: Seq<u8>,
    flag: (bool, bool),
    limit: nat,
)
    ensures
        input.len() >= Integer::flag_width(flag) ==> parse_number(input + more, flag, limit) == (
        Parsed {
            result: parse_number(input, flag, limit).result,
            rest: parse_number(input, flag, limit).rest + more,
        }),
{
    let width = Integer::flag_width(flag) as int;
    if input.len() >= width {
        assert((input + more).take(width) =~= input.take(width));
        assert((input + more).skip(width) =~= input.skip(width) + more);
    }
}

/// Once nothing more is wanted after a multiflag, what follows has no influence.
proof fn lemma_numbers_wanted_zero(
    tail: Seq<u8>,
    more: Seq<u8>,
    bits: Seq<bool>,
    terminator: Terminator,
)
    requires
        numbers_wanted(tail, bits) == 0,
    ensures
        parse_numbers(tail, bits, terminator).result != Err::<Frame, Error>(unexpected_eof()),
        parse_numbers(tail + more, bits, terminator) == (Parsed {
            result: parse_numbers(tail, bits, terminator).result,
            rest: parse_numbers(tail, bits, terminator).rest + more,
        }),
{
    let procedure = parse_number(tail, (bits[0], bits[1]), IpfiInteger::MAX as nat);
    let call = parse_number(procedure.rest, (bits[2], bits[3]), IpfiInteger::MAX as nat);
    let length = parse_number(call.rest, (bits[4], bits[5]), usize::MAX as nat);
    lemma_parse_number_extends(tail, more, (bits[0], bits[1]), IpfiInteger::MAX as nat);
    if procedure.result is Ok {
        lemma_parse_number_extends(
            procedure.rest,
            more,
            (bits[2], bits[3]),
            IpfiInteger::MAX as nat,
        );
        if call.result is Ok {
            lemma_parse_number_extends(call.rest, more, (bits[4], bits[5]), usize::MAX as nat);
            if length.result is Ok {
                let count = length.result->Ok_0 as int;
                assert((length.rest + more).take(count) =~= length.rest.take(count));
                assert((length.rest + more).skip(count) =~= length.rest.skip(count) + more);
            }
        }
    }
}

/// As long as something is wanted after a multiflag, less than that is not enough.
proof fn lemma_numbers_wanted_more(
    tail: Seq<u8>,
    more: Seq<u8>,
    bits: Seq<bool>,
    terminator: Terminator,
)
    requires
        more.len() < numbers_wanted(tail, bits),
    ensures
        parse_numbers(tail + more, bits, terminator).result == Err::<Frame, Error>(
            unexpected_eof(),
        ),
        numbers_wanted(tail + more, bits) > 0,
{
    let procedure = parse_number(tail, (bits[0], bits[1]), IpfiInteger::MAX as nat);
    let call = parse_number(procedure.rest, (bits[2], bits[3]), IpfiInteger::MAX as nat);
    lemma_parse_number_extends(tail, more, (bits[0], bits[1]), IpfiInteger::MAX as nat);
    if tail.len() >= Integer::flag_width((bits[0], bits[1])) {
        lemma_parse_number_extends(
            procedure.rest,
            more,
            (bits[2], bits[3]),
            IpfiInteger::MAX as nat,
        );
        if procedure.rest.len() >= Integer::flag_width((bits[2], bits[3])) {
            lemma_parse_number_extends(call.rest, more, (bits[4], bits[5]), usize::MAX as nat);
        }
    }
}

/// Once no more bytes are wanted, the message can be interpreted, and bytes that arrive later have
/// no influence on what it says.
pub proof fn law_wanted_zero_is_enough(prefix: Seq<u8>, more: Seq<u8>, module_style: bool)
    requires
        wanted(prefix, module_style) == 0,
    ensures
        parse(prefix, module_style).result != Err::<Option<Packet>, Error>(unexpected_eof()),
        parse(prefix + more, module_style) == (Parsed {
            result: parse(prefix, module_style).result,
            rest: parse(prefix, module_style).rest + more,
        }),
{
    let input = prefix + more;
    assert(input[0] == prefix[0]);
    assert(input.skip(1) =~= prefix.skip(1) + more);
    if prefix[0] == 1 || (prefix[0] == 2 && !module_style) {
        let bits = bits_of(prefix[1]);
        assert(input.skip(1)[0] == prefix[1]);
        assert(prefix.skip(1).skip(1) =~= prefix.skip(2));
        assert(input.skip(1).skip(1) =~= prefix.skip(2) + more);
        match Terminator::flagged((bits[6], bits[7])) {
            Ok(terminator) => {
                lemma_numbers_wanted_zero(prefix.skip(2), more, bits, terminator);
            },
            Err(_) => {},
        }
    }
}

/// As long as bytes are wanted, the message is incomplete, and it stays incomplete unless at least
/// that many more arrive: a reader that asks for just that many never reads past its end.
pub proof fn law_wanted_is_needed(prefix: Seq<u8>, more: Seq<u8>, module_style: bool)
    requires
        more.len() < wanted(prefix, module_style),
    ensures
        parse(prefix + more, module_style).result == Err::<Option<Packet>, Error>(
            unexpected_eof(),
        ),
        wanted(prefix + more, module_style) > 0,
{
    let input = prefix + more;
    if prefix.len() > 1 {
        let bits = bits_of(prefix[1]);
        assert(input[0] == prefix[0]);
        assert(input[1] == prefix[1]);
        assert(input.skip(1)[0] == prefix[1]);
        assert(input.skip(1).skip(1) =~= prefix.skip(2) + more);
        assert(input.skip(2) =~= prefix.skip(2) + more);
        match Terminator::flagged((bits[6], bits[7])) {
            Ok(terminator) => {
                lemma_numbers_wanted_more(prefix.skip(2), more, bits, terminator);
            },
            Err(_) => {},
        }
    } else if prefix.len() == 1 {
        assert(input =~= prefix);
    } else {
        assert(input =~= Seq::<u8>::empty());
    }
}

} // verus!
