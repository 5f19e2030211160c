//! Wires that carry whole messages of an ordered interface.
use crate::error::{Error, IoErrorKind};
use crate::integer::{
    law_le_round_trip, le_bytes, le_value, lemma_le_bytes_len, lemma_le_limits, Integer,
};
use crate::ordered::{Interface, OrderedState};
use crate::reader::{unexpected_eof, Reader};
use crate::types::IpfiInteger;
use vstd::prelude::*;

verus! {

/// What is sent for some bytes of a message: the index of the message, how many bytes there are (of
/// which only the lowest 32 bits are kept), and the bytes.
pub open spec fn packet(message_idx: IpfiInteger, bytes: Seq<u8>) -> Seq<u8> {
    le_bytes(message_idx as nat, 4) + le_bytes(bytes.len() % 0x1_0000_0000, 4) + bytes
}

/// What is made of the packet at the start of some input: some bytes are appended to a message, or,
/// if there are none, the message is terminated. Whether the interface accepts that is of no
/// concern to the wire.
pub open spec fn receive(interface: OrderedState, input: Seq<u8>) -> (
    OrderedState,
    Seq<u8>,
    Result<(), Error>,
) {
    let failed = (interface, Seq::<u8>::empty(), Err::<(), Error>(unexpected_eof()));
    if input.len() < 8 {
        failed
    } else {
        let message_idx = le_value(input.take(4)) as IpfiInteger;
        let count = le_value(input.skip(4).take(4));
        let rest = input.skip(8);
        if rest.len() < count {
            failed
        } else {
            let after = if interface.refusal(message_idx) is Some {
                interface
            } else if count == 0 {
                interface.completed(message_idx)
            } else {
                interface.appended(message_idx, rest.take(count as int))
            };
            (after, rest.skip(count as int), Ok(()))
        }
    }
}

/// A wire implementation using an input that is there already, and an output that is collected.
pub struct BufferWire {
    /// Where packets come from, if this wire is read from.
    input: Option<Reader>,
    /// Where packets go, if this wire is written to.
    output: Option<Vec<u8>>,
}

/// The state of a [`BufferWire`]: what is left of its input, and what has been written to its
/// output.
#[verifier::ext_equal]
pub struct BufferWireState {
    pub input: Option<Seq<u8>>,
    pub output: Option<Seq<u8>>,
}

impl BufferWireState {
    /// After something has been written to the output, if there is one.
    pub open spec fn written(self, bytes: Seq<u8>) -> BufferWireState {
        BufferWireState {
            output: match self.output {
                Some(output) => Some(output + bytes),
                None => None,
            },
            ..self
        }
    }
}

impl View for BufferWire {
    type V = BufferWireState;

    closed spec fn view(&self) -> BufferWireState {
        BufferWireState {
            input: match self.input {
                Some(input) => Some(input@),
                None => None,
            },
            output: match self.output {
                Some(output) => Some(output@),
                None => None,
            },
        }
    }
}

impl BufferWire {
    /// Creates a new buffer-based wire from the given input and output.
    pub fn new(input: Vec<u8>, output: Vec<u8>) -> (wire: Self)
        ensures
            wire@ == (BufferWireState { input: Some(input@), output: Some(output@) }),
    {
        Self { input: Some(Reader::new(input)), output: Some(output) }
    }

    /// Creates a new buffer-based wire with the given input and no output. Any attempts to write
    /// output to this wire will silently do nothing.
    pub fn new_read_only(input: Vec<u8>) -> (wire: Self)
        ensures
            wire@ == (BufferWireState { input: Some(input@), output: None }),
    {
        Self { input: Some(Reader::new(input)), output: None }
    }

    /// Creates a new buffer-based wire with the given output and no input. Any attempts to read
    /// input from this wire will silently do nothing.
    pub fn new_write_only(output: Vec<u8>) -> (wire: Self)
        ensures
            wire@ == (BufferWireState { input: None, output: Some(output@) }),
    {
        Self { input: None, output: Some(output) }
    }

    /// Takes the wire apart, for what has been written to its output.
    pub fn into_output(self) -> (output: Option<Vec<u8>>)
        ensures
            match output {
                Some(output) => self@.output == Some(output@),
                None => self@.output is None,
            },
    {
        self.output
    }

    /// Writes to the output, if there is one.
    fn write(&mut self, bytes: Vec<u8>)
        ensures
            final(self)@ == old(self)@.written(bytes@),
    {
        let mut output: Option<Vec<u8>> = None;
        std::mem::swap(&mut output, &mut self.output);
        match output {
            Some(written) => {
                let mut written = written;
                let mut bytes = bytes;
                written.append(&mut bytes);
                self.output = Some(written);
            },
            None => {},
        }
    }

    /// Sends some bytes of the given message.
    pub fn send_bytes(&mut self, bytes: &[u8], message_idx: IpfiInteger) -> (result: Result<
        (),
        Error,
    >)
        ensures
            result == Ok::<(), Error>(()),
            final(self)@ == old(self)@.written(packet(message_idx, bytes@)),
    {
        // The message index comes first, in little endian order
        let mut data: Vec<u8> = Integer::U32(message_idx).to_le_bytes();
        // Then we send the number of bytes to expect next
        let count: u32 = (bytes.len() as u64 % 0x1_0000_0000) as u32;
        let mut length: Vec<u8> = Integer::U32(count).to_le_bytes();
        data.append(&mut length);
        // And finally send the actual bytes
        data.extend_from_slice(bytes);
        assert(data@ =~= packet(message_idx, bytes@));
        self.write(data);
        Ok(())
    }

    /// Ends the given message, by sending a length of zero.
    pub fn end_message(&mut self, message_idx: IpfiInteger) -> (result: Result<(), Error>)
        ensures
            result == Ok::<(), Error>(()),
            final(self)@ == old(self)@.written(packet(message_idx, Seq::empty())),
    {
        let mut data: Vec<u8> = Integer::U32(message_idx).to_le_bytes();
        let mut length: Vec<u8> = Integer::U32(0).to_le_bytes();
        data.append(&mut length);
        assert(data@ =~= packet(message_idx, Seq::empty()));
        self.write(data);
        Ok(())
    }

    /// Receives one packet, sending what it holds into the interface.
    pub fn receive_one(&mut self, interface: &mut Interface) -> (result: Result<(), Error>)
        ensures
            final(self)@.output == old(self)@.output,
            match old(self)@.input {
                None => {
                    &&& result == Ok::<(), Error>(())
                    &&& final(self)@ == old(self)@
                    &&& final(interface)@ == old(interface)@
                },
                Some(input) => {
                    let received = receive(old(interface)@, input);
                    &&& final(interface)@ == received.0
                    &&& final(self)@.input == Some(received.1)
                    &&& result == received.2
                },
            },
    {
        let mut input: Option<Reader> = None;
        std::mem::swap(&mut input, &mut self.input);
        match input {
            Some(reader) => {
                let mut reader = reader;
                let result = receive_packet(&mut reader, interface);
                self.input = Some(reader);
                result
            },
            None => Ok(()),
        }
    }
}

/// Reads one packet, sending what it holds into the interface.
fn receive_packet(reader: &mut Reader, interface: &mut Interface) -> (result: Result<(), Error>)
    ensures
        (final(interface)@, final(reader)@, result) == receive(old(interface)@, old(reader)@),
{
    let ghost input = reader@;
    // First is the message index
    let message_idx: IpfiInteger = match Integer::U32(0).populate_from_reader(reader) {
        Ok(Integer::U32(value)) => value,
        Ok(_) => 0,
        Err(error) => return Err(error),
    };
    // Then the number of bytes to expect
    let count: u32 = match Integer::U32(0).populate_from_reader(reader) {
        Ok(Integer::U32(value)) => value,
        Ok(_) => 0,
        Err(error) => return Err(error),
    };
    assert(input.skip(4).skip(4) =~= input.skip(8));
    let bytes = reader.read_exact(count as usize)?;
    // If there are none, we should end the message
    if count == 0 {
        let _ = interface.terminate_message(message_idx);
    } else {
        let _ = interface.send_many(bytes.as_slice(), message_idx);
    }
    Ok(())
}

/// The number of bytes that are missing from a packet of which some have been read: those of its
/// message index and its length first, then those of the message.
pub open spec fn wanted(prefix: Seq<u8>) -> nat {
    if prefix.len() < 8 {
        (8 - prefix.len()) as nat
    } else {
        let count = le_value(prefix.skip(4).take(4));
        if prefix.len() - 8 < count {
            (count - (prefix.len() - 8)) as nat
        } else {
            0
        }
    }
}

/// The number of bytes to read next, given the bytes of a packet that have been read so far.
/// Nothing beyond the end of the packet is ever asked for, and zero means that the packet can be
/// received. This is for whoever has to collect packets from a stream.
pub fn packet_bytes_wanted(prefix: &[u8]) -> (count: usize)
    ensures
        count == wanted(prefix@),
{
    if prefix.len() < 8 {
        return 8 - prefix.len();
    }
    let mut length: Vec<u8> = Vec::new();
    length.extend_from_slice(vstd::slice::slice_subrange(prefix, 4, 8));
    assert(length@ =~= prefix@.skip(4).take(4));
    let mut reader = Reader::new(length);
    assert(reader@.take(4) =~= reader@);
    match Integer::U32(0).populate_from_reader(&mut reader) {
        Ok(Integer::U32(value)) => {
            let count: usize = value as usize;
            if prefix.len() - 8 < count {
                count - (prefix.len() - 8)
            } else {
                0
            }
        },
        _ => 0,
    }
}

/// When no more bytes are wanted, a packet can be received, and when any are, it cannot be until at
/// least that many more have arrived: a reader that asks for just that many never reads past its
/// end.
pub proof fn law_wanted_is_exact(interface: OrderedState, prefix: Seq<u8>, more: Seq<u8>)
    ensures
        receive(interface, prefix).2 is Ok <==> wanted(prefix) == 0,
        more.len() < wanted(prefix) ==> receive(interface, prefix + more).2 is Err,
{
    let input = prefix + more;
    if prefix.len() >= 8 {
        assert(input.skip(4).take(4) =~= prefix.skip(4).take(4));
    }
}

/// What one side sends of a message is what the other side receives of it, and nothing of what
/// follows is touched. Sending nothing ends the message.
pub proof fn law_packets_are_received(
    interface: OrderedState,
    message_idx: IpfiInteger,
    bytes: Seq<u8>,
    rest: Seq<u8>,
)
    requires
        bytes.len() < 0x1_0000_0000,
        interface.refusal(message_idx) is None,
    ensures
        receive(interface, packet(message_idx, bytes) + rest) == (
            if bytes.len() == 0 {
                interface.completed(message_idx)
            } else {
                interface.appended(message_idx, bytes)
            },
            rest,
            Ok::<(), Error>(()),
        ),
{
    let input = packet(message_idx, bytes) + rest;
    lemma_le_limits();
    lemma_le_bytes_len(message_idx as nat, 4);
    lemma_le_bytes_len(bytes.len(), 4);
    law_le_round_trip(message_idx as nat, 4);
    law_le_round_trip(bytes.len(), 4);
    assert(input.take(4) =~= le_bytes(message_idx as nat, 4));
    assert(input.skip(4).take(4) =~= le_bytes(bytes.len(), 4));
    assert(input.skip(8) =~= bytes + rest);
    assert((bytes + rest).take(bytes.len() as int) =~= bytes);
    assert((bytes + rest).skip(bytes.len() as int) =~= rest);
}

/// The start of a packet is wanted as a whole, and then exactly the bytes that it announces: with
/// just those, the packet can be received, and none of them is left over.
pub proof fn law_wanted_bytes_complete(interface: OrderedState, prefix: Seq<u8>, more: Seq<u8>)
    requires
        more.len() == wanted(prefix),
    ensures
        prefix.len() < 8 ==> wanted(prefix) == 8 - prefix.len(),
        prefix.len() >= 8 ==> receive(interface, prefix + more).2 is Ok,
        prefix.len() >= 8 && wanted(prefix) > 0 ==> receive(interface, prefix + more).1.len() == 0,
{
    let input = prefix + more;
    if prefix.len() >= 8 {
        assert(input.skip(4).take(4) =~= prefix.skip(4).take(4));
    }
}

/// Where everything is in a packet: the index of the message comes first, then the number of bytes,
/// each in four bytes, and the bytes are the rest.
pub proof fn law_packet_layout(message_idx: IpfiInteger, bytes: Seq<u8>)
    ensures
        ({
            let sent = packet(message_idx, bytes);
            &&& sent.len() == 8 + bytes.len()
            &&& le_value(sent.take(4)) == message_idx
            &&& bytes.len() < 0x1_0000_0000 ==> le_value(sent.subrange(4, 8)) == bytes.len()
            &&& le_value(sent.subrange(4, 8)) == bytes.len() % 0x1_0000_0000
            &&& sent.skip(8) == bytes
        }),
{
    let sent = packet(message_idx, bytes);
    let count = bytes.len() % 0x1_0000_0000;
    lemma_le_limits();
    lemma_le_bytes_len(message_idx as nat, 4);
    lemma_le_bytes_len(count, 4);
    law_le_round_trip(message_idx as nat, 4);
    law_le_round_trip(count, 4);
    assert(sent.take(4) =~= le_bytes(message_idx as nat, 4));
    assert(sent.subrange(4, 8) =~= le_bytes(count, 4));
    assert(sent.skip(8) =~= bytes);
}

/// A packet for a message that cannot be written to is read, and dropped: nothing changes on the
/// interface, and nothing of what follows is touched.
pub proof fn law_refused_packets_are_dropped(
    interface: OrderedState,
    message_idx: IpfiInteger,
    bytes: Seq<u8>,
    rest: Seq<u8>,
)
    requires
        bytes.len() < 0x1_0000_0000,
        interface.refusal(message_idx) is Some,
    ensures
        receive(interface, packet(message_idx, bytes) + rest) == (
            interface,
            rest,
            Ok::<(), Error>(()),
        ),
{
    let input = packet(message_idx, bytes) + rest;
    lemma_le_limits();
    lemma_le_bytes_len(message_idx as nat, 4);
    lemma_le_bytes_len(bytes.len(), 4);
    law_le_round_trip(message_idx as nat, 4);
    law_le_round_trip(bytes.len(), 4);
    assert(input.take(4) =~= le_bytes(message_idx as nat, 4));
    assert(input.skip(4).take(4) =~= le_bytes(bytes.len(), 4));
    assert(input.skip(8) =~= bytes + rest);
    assert((bytes + rest).skip(bytes.len() as int) =~= rest);
}

/// A packet that is cut short, wherever that is, cannot be received, and changes nothing.
pub proof fn law_cut_packets_fail(
    interface: OrderedState,
    message_idx: IpfiInteger,
    bytes: Seq<u8>,
    len: int,
)
    requires
        bytes.len() < 0x1_0000_0000,
        0 <= len < packet(message_idx, bytes).len(),
    ensures
        receive(interface, packet(message_idx, bytes).take(len)) == (
            interface,
            Seq::<u8>::empty(),
            Err::<(), Error>(Error::IoError(IoErrorKind::UnexpectedEof)),
        ),
{
    let input = packet(message_idx, bytes).take(len);
    lemma_le_limits();
    lemma_le_bytes_len(message_idx as nat, 4);
    lemma_le_bytes_len(bytes.len(), 4);
    law_le_round_trip(bytes.len(), 4);
    if len >= 8 {
        assert(input.skip(4).take(4) =~= le_bytes(bytes.len(), 4));
    }
}

/// What is written goes behind what was written before, and leaves the input alone. Without an
/// output, nothing changes.
pub proof fn law_output_is_in_order(state: BufferWireState, first: Seq<u8>, second: Seq<u8>)
    ensures
        state.written(first).input == state.input,
        state.output is None ==> state.written(first) == state,
        state.output matches Some(output) ==> state.written(first).output == Some(output + first),
        state.written(first).written(second) == state.written(first + second),
{
    if let Some(output) = state.output {
        assert(output + first + second =~= output + (first + second));
    }
}

} // verus!
