//! What the operations on the parts of interfaces and wires do, told by what is there before and
//! after them.
use crate::complete_lock::{CompleteLock, CompleteLockState};
use crate::error::{Error, IoErrorKind};
use crate::incoming::{
    bytes_wanted, parse, read_frame, read_message, wanted, Received, ReceivedFrame,
};
use crate::integer::{get_as_smallest_int, get_as_smallest_int_from_usize, le_value, Integer};
use crate::message::{bytes_of, BufferState, ChunkSender, ChunkStream, MessageBuffer, StreamState};
use crate::pack::{array_header, frame_args, Pack, Packed, Unpack};
use crate::procedure_args::{ProcedureArgs, Tuple};
use crate::reader::Reader;
use crate::roi_queue::{law_identifiers_unique, law_relinquish_frees, RoiQueue};
use crate::types::{IpfiInteger, ProcedureIndex, Terminator};
use crate::wire_utils::{
    bits_of, bool_array_to_u8, law_bits_of_pack, make_multiflag, u8_to_bool_array, Message, Packet,
};
use vstd::prelude::*;

verus! {

/// A new lock is incomplete. It tells its state, and whether it is complete.
pub proof fn law_locks(
    new: CompleteLock,
    lock: CompleteLock,
    state: CompleteLockState,
    completed: bool,
    waited: Option<CompleteLockState>,
)
    ensures
        call_ensures(CompleteLock::new, (), new) ==> new@ is Incomplete,
        call_ensures(CompleteLock::state, (&lock,), state) ==> state == lock@,
        call_ensures(CompleteLock::completed, (&lock,), completed) ==> (completed
            <==> lock@ is Complete),
        call_ensures(CompleteLock::wait_for_completion, (&lock,), waited) ==> {
            &&& waited is None <==> lock@ is Incomplete
            &&& waited matches Some(state) ==> state == lock@
        },
{
}

/// A lock can always be completed, and can only be poisoned as long as it has not been.
pub proof fn law_lock_changes()
    ensures
        forall|lock: &mut CompleteLock| #[trigger]
            call_ensures(CompleteLock::mark_complete, (lock,), ()) ==> final(lock)@ is Complete,
        forall|lock: &mut CompleteLock| #[trigger]
            call_ensures(CompleteLock::poison, (lock,), ()) ==> {
                &&& (*lock)@ is Complete <==> final(lock)@ is Complete
                &&& !((*lock)@ is Complete) <==> final(lock)@ is Poisoned
            },
{
}

/// Identifiers start at zero.
pub proof fn law_new_identifiers(queue: RoiQueue, other: RoiQueue)
    ensures
        call_ensures(RoiQueue::new, (), queue) ==> queue@.counter == 0 && queue@.free.len() == 0,
        call_ensures(<RoiQueue as Default>::default, (), other) ==> other@.counter == 0
            && other@.free.len() == 0,
{
}

/// An identifier that is issued is the one that has waited the longest to be reused, or else a new
/// one. One that is relinquished waits behind all the others.
pub proof fn law_identifier_changes(id: IpfiInteger)
    ensures
        forall|queue: &mut RoiQueue, issued: IpfiInteger| #[trigger]
            call_ensures(RoiQueue::get, (queue,), issued) ==> {
                let before = (*queue)@;
                let after = final(queue)@;
                &&& before.free.len() > 0 ==> before.free == seq![issued] + after.free
                    && after.counter == before.counter
                &&& before.free.len() == 0 ==> issued == before.counter && after.free.len() == 0
                &&& before.free.len() == 0 && issued < IpfiInteger::MAX ==> after.counter == issued
                    + 1
                &&& before.free.len() == 0 && issued == IpfiInteger::MAX ==> after.counter == 0
                &&& before.sound() && !before.exhausted() ==> {
                    &&& !before.in_use(issued)
                    &&& after.in_use(issued)
                    &&& after.sound()
                }
            },
        forall|queue: &mut RoiQueue| #[trigger]
            call_ensures(RoiQueue::relinquish, (queue, id), ()) ==> {
                let before = (*queue)@;
                let after = final(queue)@;
                &&& after.counter == before.counter
                &&& after.free == before.free.push(id)
                &&& before.sound() && before.in_use(id) ==> after.sound() && !after.in_use(id)
            },
{
    assert forall|queue: &mut RoiQueue, issued: IpfiInteger| #[trigger]
        call_ensures(RoiQueue::get, (queue,), issued) implies {
        let before = (*queue)@;
        let after = final(queue)@;
        &&& before.free.len() > 0 ==> before.free == seq![issued] + after.free
        &&& before.sound() && !before.exhausted() ==> {
            &&& !before.in_use(issued)
            &&& after.in_use(issued)
            &&& after.sound()
        }
    } by {
        let before = (*queue)@;
        if before.sound() && !before.exhausted() {
            law_identifiers_unique(before);
        }
        if before.free.len() > 0 {
            assert(before.free =~= seq![issued] + final(queue)@.free);
        }
    }
    assert forall|queue: &mut RoiQueue| #[trigger]
        call_ensures(RoiQueue::relinquish, (queue, id), ()) && (*queue)@.sound() && (
        *queue)@.in_use(id) implies final(queue)@.sound() && !final(queue)@.in_use(id) by {
        law_relinquish_frees((*queue)@, id);
    }
}

/// A message tells what it is.
pub proof fn law_message_questions(
    serial: u64,
    new: MessageBuffer,
    buffer: MessageBuffer,
    state: CompleteLockState,
    answer: bool,
    sender: ChunkSender,
    chunk: Vec<u8>,
    chunks: Vec<Vec<u8>>,
)
    ensures
        call_ensures(MessageBuffer::new, (serial,), new) ==> {
            &&& new@.chunks == seq![Seq::<u8>::empty()]
            &&& new@.lock is Incomplete
            &&& new@.serial == serial
            &&& new@.sender is Absent
        },
        call_ensures(MessageBuffer::lock_state, (&buffer,), state) ==> state == buffer@.lock,
        call_ensures(MessageBuffer::is_complete, (&buffer,), answer) ==> (answer
            <==> buffer@.lock is Complete),
        call_ensures(MessageBuffer::serial, (&buffer,), serial) ==> serial == buffer@.serial,
        call_ensures(MessageBuffer::sender, (&buffer,), sender) ==> sender == buffer@.sender,
        call_ensures(MessageBuffer::is_chunked, (&buffer,), answer) ==> (answer
            <==> buffer@.chunks.len() > 1),
        call_ensures(MessageBuffer::first_chunk, (&buffer,), chunk) ==> chunk@ == buffer@.chunks[0],
        call_ensures(MessageBuffer::into_chunks, (buffer,), chunks) ==> bytes_of(chunks@)
            == buffer@.chunks,
{
}

/// Each change of a message changes what it says, and nothing else.
pub proof fn law_message_buffer_changes(datum: u8, data: &[u8], sender: ChunkSender)
    ensures
        forall|buffer: &mut MessageBuffer| #[trigger]
            call_ensures(MessageBuffer::set_sender, (buffer, sender), ()) ==> final(buffer)@ == (
            BufferState { sender, ..(*buffer)@ }),
        forall|buffer: &mut MessageBuffer| #[trigger]
            call_ensures(MessageBuffer::push, (buffer, datum), ()) && (*buffer)@.chunks.len() > 0
                ==> {
                let chunks = (*buffer)@.chunks;
                final(buffer)@ == (BufferState {
                    chunks: chunks.update(chunks.len() - 1, chunks.last().push(datum)),
                    ..(*buffer)@
                })
            },
        forall|buffer: &mut MessageBuffer| #[trigger]
            call_ensures(MessageBuffer::extend, (buffer, data), ()) && (*buffer)@.chunks.len() > 0
                ==> {
                let chunks = (*buffer)@.chunks;
                final(buffer)@ == (BufferState {
                    chunks: chunks.update(chunks.len() - 1, chunks.last() + data@),
                    ..(*buffer)@
                })
            },
        forall|buffer: &mut MessageBuffer| #[trigger]
            call_ensures(MessageBuffer::mark_complete, (buffer,), ()) ==> final(buffer)@ == (
            BufferState { lock: CompleteLockState::Complete, ..(*buffer)@ }),
        forall|buffer: &mut MessageBuffer| #[trigger]
            call_ensures(MessageBuffer::poison, (buffer,), ()) ==> {
                &&& final(buffer)@ == (BufferState { lock: final(buffer)@.lock, ..(*buffer)@ })
                &&& (*buffer)@.lock is Complete <==> final(buffer)@.lock is Complete
                &&& !((*buffer)@.lock is Complete) <==> final(buffer)@.lock is Poisoned
            },
        forall|buffer: &mut MessageBuffer, chunk: Vec<u8>| #[trigger]
            call_ensures(MessageBuffer::take_chunk, (buffer,), chunk) && (
            *buffer)@.chunks.len() > 0 ==> {
                let chunks = (*buffer)@.chunks;
                &&& chunk@ == chunks.last()
                &&& final(buffer)@ == (BufferState {
                    chunks: chunks.update(chunks.len() - 1, Seq::empty()),
                    ..(*buffer)@
                })
            },
        forall|buffer: &mut MessageBuffer| #[trigger]
            call_ensures(MessageBuffer::start_chunk, (buffer,), ()) ==> final(buffer)@ == (
            BufferState { chunks: (*buffer)@.chunks.push(Seq::empty()), ..(*buffer)@ }),
{
    assert forall|buffer: &mut MessageBuffer| #[trigger]
        call_ensures(MessageBuffer::push, (buffer, datum), ()) && (
        *buffer)@.chunks.len() > 0 implies ({
        let chunks = (*buffer)@.chunks;
        final(buffer)@ == (BufferState {
            chunks: chunks.update(chunks.len() - 1, chunks.last().push(datum)),
            ..(*buffer)@
        })
    }) by {
        let chunks = (*buffer)@.chunks;
        assert(chunks.last() + seq![datum] =~= chunks.last().push(datum));
        assert(final(buffer)@.chunks =~= chunks.update(
            chunks.len() - 1,
            chunks.last().push(datum),
        ));
    }
    assert forall|buffer: &mut MessageBuffer| #[trigger]
        call_ensures(MessageBuffer::extend, (buffer, data), ()) && (
        *buffer)@.chunks.len() > 0 implies ({
        let chunks = (*buffer)@.chunks;
        final(buffer)@ == (BufferState {
            chunks: chunks.update(chunks.len() - 1, chunks.last() + data@),
            ..(*buffer)@
        })
    }) by {
        let chunks = (*buffer)@.chunks;
        assert(final(buffer)@.chunks =~= chunks.update(chunks.len() - 1, chunks.last() + data@));
    }
    assert forall|buffer: &mut MessageBuffer, chunk: Vec<u8>| #[trigger]
        call_ensures(MessageBuffer::take_chunk, (buffer,), chunk) && (
        *buffer)@.chunks.len() > 0 implies ({
        let chunks = (*buffer)@.chunks;
        final(buffer)@ == (BufferState {
            chunks: chunks.update(chunks.len() - 1, Seq::empty()),
            ..(*buffer)@
        })
    }) by {
        let chunks = (*buffer)@.chunks;
        assert(final(buffer)@.chunks =~= chunks.update(chunks.len() - 1, Seq::empty()));
    }
}

/// A stream hands out what is sent to it, in order, each chunk once. Closing it keeps what is still
/// in it.
pub proof fn law_chunk_streams(
    new: ChunkStream,
    stream: ChunkStream,
    open: bool,
    lock: CompleteLockState,
    chunk: Vec<u8>,
)
    ensures
        call_ensures(ChunkStream::new, (), new) ==> {
            &&& new@.queue.len() == 0
            &&& new@.open
            &&& new@.lock is Incomplete
        },
        call_ensures(ChunkStream::is_open, (&stream,), open) ==> open == stream@.open,
        call_ensures(ChunkStream::lock, (&stream,), lock) ==> lock == stream@.lock,
        forall|stream: &mut ChunkStream| #[trigger]
            call_ensures(ChunkStream::send, (stream, chunk), ()) ==> final(stream)@ == (
            StreamState { queue: (*stream)@.queue.push(chunk@), ..(*stream)@ }),
        forall|stream: &mut ChunkStream, received: Option<Vec<u8>>| #[trigger]
            call_ensures(ChunkStream::receive, (stream,), received) ==> {
                let before = (*stream)@;
                let after = final(stream)@;
                &&& received is None <==> before.queue.len() == 0
                &&& received is None ==> after == before
                &&& received matches Some(chunk) ==> before.queue == seq![chunk@] + after.queue
                &&& after.open == before.open
                &&& after.lock == before.lock
            },
        forall|stream: &mut ChunkStream| #[trigger]
            call_ensures(ChunkStream::close, (stream,), ()) ==> final(stream)@ == (StreamState {
                open: false,
                ..(*stream)@
            }),
        forall|stream: &mut ChunkStream| #[trigger]
            call_ensures(ChunkStream::orphan, (stream, lock), ()) ==> final(stream)@ == (
            StreamState { open: false, lock, queue: (*stream)@.queue }),
{
    assert forall|stream: &mut ChunkStream, received: Option<Vec<u8>>| #[trigger]
        call_ensures(ChunkStream::receive, (stream,), received) && received is Some implies (
    *stream)@.queue == seq![received->Some_0@] + final(stream)@.queue by {
        assert((*stream)@.queue =~= seq![received->Some_0@] + final(stream)@.queue);
    }
}

/// A reader hands out the bytes that it was given, in order, each of them once. A read for which
/// too few are left fails, and drops them.
pub proof fn law_readers(bytes: Vec<u8>, new: Reader, reader: Reader, left: usize, count: usize)
    ensures
        call_ensures(Reader::new, (bytes,), new) ==> new@ == bytes@,
        call_ensures(Reader::remaining, (&reader,), left) ==> left == reader@.len(),
        forall|reader: &mut Reader, result: Result<Vec<u8>, Error>| #[trigger]
            call_ensures(Reader::read_exact, (reader, count), result) ==> {
                let before = (*reader)@;
                let after = final(reader)@;
                &&& result is Ok <==> count <= before.len()
                &&& result matches Ok(bytes) ==> bytes@.len() == count && before == bytes@ + after
                &&& result matches Err(error) ==> error == Error::IoError(
                    IoErrorKind::UnexpectedEof,
                ) && after.len() == 0
            },
{
    assert forall|reader: &mut Reader, result: Result<Vec<u8>, Error>| #[trigger]
        call_ensures(Reader::read_exact, (reader, count), result) && result is Ok implies (
    *reader)@ == result->Ok_0@ + final(reader)@ by {
        assert((*reader)@ =~= result->Ok_0@ + final(reader)@);
    }
}

/// Integers are told apart by how many bytes they take up, and those bytes are worth the number.
pub proof fn law_integers(
    integer: Integer,
    flag: (bool, bool),
    empty: Integer,
    bytes: Vec<u8>,
    fitted: Option<IpfiInteger>,
    size: Option<usize>,
)
    ensures
        call_ensures(Integer::to_flag, (&integer,), flag) ==> {
            &&& flag.0 <==> integer is U32 || integer is U64
            &&& flag.1 <==> integer is U16 || integer is U64
        },
        call_ensures(Integer::from_flag, (flag,), empty) ==> {
            &&& empty.flag() == flag
            &&& empty.value() == 0
        },
        call_ensures(Integer::to_le_bytes, (&integer,), bytes) ==> {
            &&& bytes@.len() == integer.width()
            &&& le_value(bytes@) == integer.value()
        },
        call_ensures(Integer::into_int, (integer,), fitted) ==> {
            &&& fitted is Some <==> integer.value() <= IpfiInteger::MAX
            &&& fitted matches Some(value) ==> value == integer.value()
        },
        call_ensures(Integer::into_usize, (integer,), size) ==> {
            &&& size is Some <==> integer.value() <= usize::MAX
            &&& size matches Some(value) ==> value == integer.value()
        },
{
    integer.law_round_trip();
}

/// A number that is read has the width that was asked for, and is worth what its bytes are.
pub proof fn law_populate_from_reader(integer: Integer)
    ensures
        forall|reader: &mut Reader, result: Result<Integer, Error>| #[trigger]
            call_ensures(Integer::populate_from_reader, (integer, reader), result) ==> {
                let before = (*reader)@;
                let after = final(reader)@;
                let width = integer.width() as int;
                &&& result is Ok <==> width <= before.len()
                &&& result matches Ok(read) ==> {
                    &&& read.width() == integer.width()
                    &&& read.value() == le_value(before.take(width))
                    &&& after == before.skip(width)
                }
                &&& result matches Err(error) ==> error == Error::IoError(
                    IoErrorKind::UnexpectedEof,
                ) && after.len() == 0
            },
{
    integer.law_round_trip();
    assert forall|reader: &mut Reader, result: Result<Integer, Error>| #[trigger]
        call_ensures(
            Integer::populate_from_reader,
            (integer, reader),
            result,
        ) && result is Ok implies result->Ok_0.width() == integer.width() by {
        result->Ok_0.law_round_trip();
    }
}

/// The smallest integer for a number is worth that number, and no other that is takes up less.
pub proof fn law_smallest_integers(
    value: IpfiInteger,
    size: usize,
    integer: Integer,
    other: Integer,
)
    ensures
        call_ensures(get_as_smallest_int, (value,), integer) ==> {
            &&& integer.value() == value
            &&& other.value() == value ==> integer.width() <= other.width()
        },
        call_ensures(get_as_smallest_int_from_usize, (size,), integer) ==> {
            &&& integer.value() == size
            &&& other.value() == size ==> integer.width() <= other.width()
        },
{
    Integer::law_smallest_is_smallest(value as nat, other);
    Integer::law_smallest_is_smallest(size as nat, other);
}

/// The bits of a byte are told one by one, and put together again, the lowest first.
pub proof fn law_bits(value: u8, bits: [bool; 8], arr: &[bool], packed: u8)
    ensures
        call_ensures(u8_to_bool_array, (value,), bits) ==> bits@ == bits_of(value),
        call_ensures(bool_array_to_u8, (arr,), packed) ==> forall|i: int|
            0 <= i < 8 ==> (#[trigger] bits_of(packed)[i] <==> i < arr@.len() && arr@[i]),
{
}

/// The multiflag holds the flags of three integers and a terminator, in that order.
pub proof fn law_multiflag(
    procedure: Integer,
    call: Integer,
    length: Integer,
    terminator: Terminator,
    multiflag: u8,
)
    requires
        call_ensures(make_multiflag, (&procedure, &call, &length, terminator), multiflag),
    ensures
        bits_of(multiflag)[0] == procedure.flag().0,
        bits_of(multiflag)[1] == procedure.flag().1,
        bits_of(multiflag)[2] == call.flag().0,
        bits_of(multiflag)[3] == call.flag().1,
        bits_of(multiflag)[4] == length.flag().0,
        bits_of(multiflag)[5] == length.flag().1,
        bits_of(multiflag)[6] == terminator.flag().0,
        bits_of(multiflag)[7] == terminator.flag().1,
{
    law_bits_of_pack(
        seq![
            procedure.flag().0,
            procedure.flag().1,
            call.flag().0,
            call.flag().1,
            length.flag().0,
            length.flag().1,
            terminator.flag().0,
            terminator.flag().1,
        ],
    );
}

/// Terminators are turned into flags and back, and say what they end.
pub proof fn law_terminators(
    terminator: Terminator,
    flag: (bool, bool),
    result: Result<Terminator, Error>,
    len: usize,
    ends: bool,
    frame: ReceivedFrame,
)
    ensures
        call_ensures(Terminator::to_flag, (terminator,), flag) ==> {
            &&& flag.0 <==> !(terminator is Partial)
            &&& flag.1 <==> terminator is Complete
        },
        call_ensures(Terminator::from_flag, (flag,), result) ==> {
            &&& result == Err::<Terminator, Error>(Error::InvalidTerminator) <==> !flag.0 && flag.1
            &&& result == Ok::<Terminator, Error>(Terminator::Complete) <==> flag.0 && flag.1
            &&& result == Ok::<Terminator, Error>(Terminator::Chunk) <==> flag.0 && !flag.1
            &&& result == Ok::<Terminator, Error>(Terminator::Partial) <==> !flag.0 && !flag.1
        },
        call_ensures(Terminator::ends_series, (terminator, len), ends) ==> (ends
            <==> terminator is Complete || (terminator is Partial && len == 0)),
        call_ensures(ReceivedFrame::ends, (&frame,), ends) ==> (ends
            <==> frame.terminator is Complete || (frame.terminator is Partial
            && frame.payload@.len() == 0)),
{
}

/// What is sent for a message is read as that message, with nothing left over.
pub proof fn law_messages_are_sent(message: Message, bytes: Vec<u8>)
    requires
        message@.encodable(),
        call_ensures(Message::to_bytes, (&message,), bytes),
    ensures
        parse(bytes@, false).result == Ok::<Option<Packet>, Error>(Some(message@)),
        parse(bytes@, false).rest.len() == 0,
{
    crate::incoming::law_parse_encode(message@, Seq::empty(), false);
    assert(message@.encode() + Seq::<u8>::empty() =~= message@.encode());
}

/// A message is read as what the input says, and nothing behind it is touched. A frame is what
/// follows the type of a call. How many more bytes
/// it takes is told by those that are there.
pub proof fn law_messages_are_read(prefix: &[u8], module_style: bool, count: usize)
    ensures
        forall|reader: &mut Reader, result: Result<Received, Error>| #[trigger]
            call_ensures(read_message, (reader, module_style), result) ==> {
                let parsed = parse((*reader)@, module_style);
                &&& final(reader)@ == parsed.rest
                &&& result matches Ok(received) ==> parsed.result == Ok::<Option<Packet>, Error>(
                    received@,
                )
                &&& result matches Err(error) ==> parsed.result == Err::<Option<Packet>, Error>(
                    error,
                )
            },
        forall|reader: &mut Reader, result: Result<ReceivedFrame, Error>| #[trigger]
            call_ensures(read_frame, (reader,), result) ==> {
                let parsed = parse(seq![1u8] + (*reader)@, module_style);
                &&& final(reader)@ == parsed.rest
                &&& result matches Ok(frame) ==> parsed.result == Ok::<Option<Packet>, Error>(
                    Some(Packet::Call(frame@)),
                )
                &&& result matches Err(error) ==> parsed.result == Err::<Option<Packet>, Error>(
                    error,
                )
            },
        call_ensures(bytes_wanted, (prefix, module_style), count) ==> {
            &&& count == wanted(prefix@, module_style)
            &&& count == 0 <==> parse(prefix@, module_style).result != Err::<
                Option<Packet>,
                Error,
            >(Error::IoError(IoErrorKind::UnexpectedEof))
        },
{
    let nothing = Seq::<u8>::empty();
    assert forall|reader: &mut Reader, result: Result<ReceivedFrame, Error>| #[trigger]
        call_ensures(read_frame, (reader,), result) implies (seq![1u8] + (*reader)@).skip(1) == (
    *reader)@ by {
        assert((seq![1u8] + (*reader)@).skip(1) =~= (*reader)@);
    }
    if wanted(prefix@, module_style) == 0 {
        crate::incoming::law_wanted_zero_is_enough(prefix@, nothing, module_style);
    } else {
        crate::incoming::law_wanted_is_needed(prefix@, nothing, module_style);
        assert(prefix@ + nothing =~= prefix@);
    }
}

/// The marker for how many arguments there are comes in front of them, unless there are none.
pub proof fn law_frame_args(args_len: u32, data: &[u8], result: Result<Vec<u8>, Error>)
    requires
        call_ensures(frame_args, (args_len, data), result),
    ensures
        args_len > 0 ==> (result matches Ok(bytes) && bytes@ == array_header(args_len as nat)
            + data@),
        args_len == 0 ==> {
            &&& result matches Ok(bytes) ==> bytes@ == seq![0xc0u8]
            &&& result matches Err(error) ==> error == Error::Encode
        },
{
}

/// What was serialised elsewhere is not serialised again.
pub proof fn law_pack_packed(value: Packed, result: Result<Vec<u8>, Error>)
    requires
        call_ensures(<Packed as Pack>::pack, (&value,), result),
    ensures
        result matches Ok(bytes) && bytes@ == value.0@,
{
}

/// Numbers are deserialised as what they were serialised from.
pub proof fn law_numbers_round_trip(
    small: u8,
    number: u32,
    large: u64,
    signed: i64,
    bytes: Vec<u8>,
)
    ensures
        call_ensures(<u8 as Pack>::pack, (&small,), Ok::<Vec<u8>, Error>(bytes)) ==> u8::unpacked(
            bytes@,
        ) == Some(small) && bytes@ == small.packed(),
        call_ensures(<u32 as Pack>::pack, (&number,), Ok::<Vec<u8>, Error>(bytes))
            ==> u32::unpacked(bytes@) == Some(number) && bytes@ == number.packed(),
        call_ensures(<u64 as Pack>::pack, (&large,), Ok::<Vec<u8>, Error>(bytes))
            ==> u64::unpacked(bytes@) == Some(large) && bytes@ == large.packed(),
        call_ensures(<i64 as Pack>::pack, (&signed,), Ok::<Vec<u8>, Error>(bytes))
            ==> i64::unpacked(bytes@) == Some(signed) && bytes@ == signed.packed(),
{
}

/// Numbers of other types are deserialised as the same numbers.
pub proof fn law_other_numbers_round_trip(
    number: u16,
    tiny: i8,
    short: i16,
    long: i32,
    bytes: Vec<u8>,
)
    ensures
        call_ensures(<u16 as Pack>::pack, (&number,), Ok::<Vec<u8>, Error>(bytes))
            ==> u32::unpacked(bytes@) == Some(number as u32) && bytes@ == number.packed(),
        call_ensures(<i8 as Pack>::pack, (&tiny,), Ok::<Vec<u8>, Error>(bytes)) ==> i64::unpacked(
            bytes@,
        ) == Some(tiny as i64) && bytes@ == tiny.packed(),
        call_ensures(<i16 as Pack>::pack, (&short,), Ok::<Vec<u8>, Error>(bytes)) ==> i64::unpacked(
            bytes@,
        ) == Some(short as i64) && bytes@ == short.packed(),
        call_ensures(<i32 as Pack>::pack, (&long,), Ok::<Vec<u8>, Error>(bytes)) ==> i64::unpacked(
            bytes@,
        ) == Some(long as i64) && bytes@ == long.packed(),
{
}

/// Booleans, the unit type, and strings that are not too long are deserialised as what they were
/// serialised from.
pub proof fn law_others_round_trip(flag: bool, unit: (), text: String, bytes: Vec<u8>)
    ensures
        call_ensures(<bool as Pack>::pack, (&flag,), Ok::<Vec<u8>, Error>(bytes))
            ==> bool::unpacked(bytes@) == Some(flag),
        call_ensures(<() as Pack>::pack, (&unit,), Ok::<Vec<u8>, Error>(bytes))
            ==> <() as Unpack>::unpacked(bytes@) == Some(()),
        call_ensures(<String as Pack>::pack, (&text,), Ok::<Vec<u8>, Error>(bytes))
            && vstd::utf8::encode_utf8(text@).len() < 0x1_0000_0000 ==> String::unpacked(bytes@)
            == Some(text@),
{
}

/// Arguments are serialised as what they are flattened to, and can only fail to be if a serialiser
/// may fail.
pub proof fn law_into_bytes<A: ProcedureArgs, T: Tuple>(
    args: A,
    result: Result<Vec<u8>, Error>,
    len: u32,
)
    ensures
        call_ensures(A::into_bytes, (args,), result) ==> {
            &&& result matches Ok(bytes) ==> bytes@ == args.flattened()
            &&& result matches Err(error) ==> error == Error::Encode && args.fallible()
        },
        call_ensures(T::len, (), len) ==> len == T::arity(),
{
}

/// A procedure index is what it was made from.
pub proof fn law_procedure_index(idx: IpfiInteger, index: ProcedureIndex)
    requires
        call_ensures(ProcedureIndex::new, (idx,), index),
    ensures
        index.0 == idx,
{
}

} // verus!
