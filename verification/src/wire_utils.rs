//! The binary format in which messages travel down a wire.
use crate::error::Error;
use crate::integer::{get_as_smallest_int, get_as_smallest_int_from_usize, Integer};
use crate::types::{CallIndex, IpfiInteger, ProcedureIndex, Terminator};
use vstd::prelude::*;

verus! {

/// Whether a bit of a byte is set, counting from the least significant one.
pub open spec fn bit(value: u8, index: u8) -> bool {
    (value >> index) & 1u8 == 1u8
}

/// The bits of a byte, least significant first.
pub open spec fn bits_of(value: u8) -> Seq<bool> {
    Seq::new(8, |i: int| bit(value, i as u8))
}

/// The byte with the given eight bits, least significant first.
pub open spec fn pack(bits: Seq<bool>) -> u8 {
    (if bits[0] { 0x01u8 } else { 0u8 }) | (if bits[1] { 0x02u8 } else { 0u8 })
        | (if bits[2] { 0x04u8 } else { 0u8 }) | (if bits[3] { 0x08u8 } else { 0u8 })
        | (if bits[4] { 0x10u8 } else { 0u8 }) | (if bits[5] { 0x20u8 } else { 0u8 })
        | (if bits[6] { 0x40u8 } else { 0u8 }) | (if bits[7] { 0x80u8 } else { 0u8 })
}

/// Eight bits survive being packed into a byte.
pub proof fn law_bits_of_pack(bits: Seq<bool>)
    requires
        bits.len() == 8,
    ensures
        bits_of(pack(bits)) == bits,
{
    let (b0, b1, b2, b3) = (bits[0], bits[1], bits[2], bits[3]);
    let (b4, b5, b6, b7) = (bits[4], bits[5], bits[6], bits[7]);
    let p = pack(bits);
    assert(((p >> 0u8) & 1u8 == 1u8) == b0 && ((p >> 1u8) & 1u8 == 1u8) == b1 && ((p >> 2u8) & 1u8
        == 1u8) == b2 && ((p >> 3u8) & 1u8 == 1u8) == b3 && ((p >> 4u8) & 1u8 == 1u8) == b4 && ((p
        >> 5u8) & 1u8 == 1u8) == b5 && ((p >> 6u8) & 1u8 == 1u8) == b6 && ((p >> 7u8) & 1u8 == 1u8)
        == b7) by (bit_vector)
        requires
            p == (if b0 { 0x01u8 } else { 0u8 }) | (if b1 { 0x02u8 } else { 0u8 })
                | (if b2 { 0x04u8 } else { 0u8 }) | (if b3 { 0x08u8 } else { 0u8 })
                | (if b4 { 0x10u8 } else { 0u8 }) | (if b5 { 0x20u8 } else { 0u8 })
                | (if b6 { 0x40u8 } else { 0u8 }) | (if b7 { 0x80u8 } else { 0u8 }),
    ;
    assert(bits_of(p) =~= bits);
}

/// A byte survives being taken apart into its bits.
pub proof fn law_pack_bits_of(value: u8)
    ensures
        pack(bits_of(value)) == value,
{
    let bits = bits_of(value);
    assert(bits[0] == bit(value, 0) && bits[1] == bit(value, 1) && bits[2] == bit(value, 2)
        && bits[3] == bit(value, 3) && bits[4] == bit(value, 4) && bits[5] == bit(value, 5)
        && bits[6] == bit(value, 6) && bits[7] == bit(value, 7));
    assert(value == (if (value >> 0u8) & 1u8 == 1u8 { 0x01u8 } else { 0u8 })
        | (if (value >> 1u8) & 1u8 == 1u8 { 0x02u8 } else { 0u8 })
        | (if (value >> 2u8) & 1u8 == 1u8 { 0x04u8 } else { 0u8 })
        | (if (value >> 3u8) & 1u8 == 1u8 { 0x08u8 } else { 0u8 })
        | (if (value >> 4u8) & 1u8 == 1u8 { 0x10u8 } else { 0u8 })
        | (if (value >> 5u8) & 1u8 == 1u8 { 0x20u8 } else { 0u8 })
        | (if (value >> 6u8) & 1u8 == 1u8 { 0x40u8 } else { 0u8 })
        | (if (value >> 7u8) & 1u8 == 1u8 { 0x80u8 } else { 0u8 })) by (bit_vector);
}

/// Packs eight bits, the first of which becomes the least significant one, into a byte. There may
/// be fewer, and more only if they are not set.
pub fn bool_array_to_u8(arr: &[bool]) -> (result: u8)
    requires
        forall|i: int| 8 <= i < arr@.len() ==> !arr@[i],
    ensures
        bits_of(result) == Seq::new(8, |i: int| i < arr@.len() && arr@[i]),
{
    let mut result: u8 = 0;
    assert(forall|j: u8| #![trigger bit(0, j)] j < 8 ==> !bit(0, j)) by {
        assert(forall|j: u8| j < 8 ==> (0u8 >> j) & 1u8 == 0u8) by (bit_vector);
    }
    let mut i: usize = 0;
    while i < arr.len()
        invariant
            i <= arr@.len(),
            forall|k: int| 8 <= k < arr@.len() ==> !arr@[k],
            forall|j: u8|
                #![trigger bit(result, j)]
                j < 8 ==> bit(result, j) == (j < i && arr@[j as int]),
        decreases arr@.len() - i,
    {
        if arr[i] {
            let ghost before = result;
            let shift: u8 = i as u8;
            result = result | (1u8 << shift);
            assert forall|j: u8| #![trigger bit(result, j)] j < 8 implies bit(result, j) == (bit(
                before,
                j,
            ) || j == shift) by {
                assert(shift < 8 && j < 8 ==> ((((before | (1u8 << shift)) >> j) & 1u8 == 1u8) == (
                (before >> j) & 1u8 == 1u8 || j == shift))) by (bit_vector);
            }
            assert(forall|j: u8|
                #![trigger bit(result, j)]
                j < 8 ==> bit(before, j) == (j < i && arr@[j as int]));
        }
        i = i + 1;
    }
    assert(bits_of(result) =~= Seq::new(8, |i: int| i < arr@.len() && arr@[i]));
    result
}

/// The bits of a byte, least significant first.
pub fn u8_to_bool_array(value: u8) -> (result: [bool; 8])
    ensures
        result@ == bits_of(value),
{
    let mut result: [bool; 8] = [false; 8];
    let mut i: usize = 0;
    while i < 8
        invariant
            i <= 8,
            forall|j: int| 0 <= j < i ==> result@[j] == bits_of(value)[j],
        decreases 8 - i,
    {
        let shift: u8 = i as u8;
        assert((value >> shift) & 1u8 == 0u8 || (value >> shift) & 1u8 == 1u8) by (bit_vector);
        result[i] = (value >> shift) & 1 != 0;
        i = i + 1;
    }
    assert(result@ =~= bits_of(value));
    result
}

impl Terminator {
    /// The 2-bit flag that stands for a terminator. The fourth combination, `(false, true)`,
    /// stands for none of them.
    pub open spec fn flag(self) -> (bool, bool) {
        (!(self is Partial), self is Complete)
    }

    /// The terminator that a 2-bit flag stands for.
    pub open spec fn flagged(flag: (bool, bool)) -> Result<Terminator, Error> {
        match flag {
            (true, true) => Ok(Terminator::Complete),
            (true, false) => Ok(Terminator::Chunk),
            (false, false) => Ok(Terminator::Partial),
            (false, true) => Err(Error::InvalidTerminator),
        }
    }

    /// Whether a message with the given number of bytes is the last of its series: it is marked as
    /// such, or it is empty without being marked at all.
    pub open spec fn ends(self, len: nat) -> bool {
        self is Complete || (self is Partial && len == 0)
    }

    /// Tells whether a message with the given number of bytes is the last of its series.
    pub fn ends_series(self, len: usize) -> (ends: bool)
        ensures
            ends == self.ends(len as nat),
    {
        match self {
            Terminator::Complete => true,
            Terminator::Chunk => false,
            Terminator::Partial => len == 0,
        }
    }

    /// Converts the terminator into a 2-bit flag.
    pub fn to_flag(self) -> (flag: (bool, bool))
        ensures
            flag == self.flag(),
            Terminator::flagged(flag) == Ok::<Terminator, Error>(self),
    {
        match self {
            Terminator::Complete => (true, true),
            Terminator::Chunk => (true, false),
            Terminator::Partial => (false, false),
        }
    }

    /// Gets the terminator that the given 2-bit flag stands for.
    pub fn from_flag(flag: (bool, bool)) -> (result: Result<Self, Error>)
        ensures
            result == Terminator::flagged(flag),
    {
        match flag {
            (true, true) => Ok(Self::Complete),
            (true, false) => Ok(Self::Chunk),
            (false, false) => Ok(Self::Partial),
            (false, true) => Err(Error::InvalidTerminator),
        }
    }
}

/// What a call and a response have in common: the call they belong to, some bytes, and how they
/// end their series of messages.
#[verifier::ext_equal]
pub struct Frame {
    pub procedure: IpfiInteger,
    pub call: IpfiInteger,
    pub terminator: Terminator,
    pub payload: Seq<u8>,
}

impl Frame {
    /// The metadata of the frame: the widths of its three numbers and its terminator.
    pub open spec fn flags(self) -> Seq<bool> {
        let procedure = Integer::smallest(self.procedure as nat).flag();
        let call = Integer::smallest(self.call as nat).flag();
        let length = Integer::smallest(self.payload.len()).flag();
        let terminator = self.terminator.flag();
        seq![
            procedure.0,
            procedure.1,
            call.0,
            call.1,
            length.0,
            length.1,
            terminator.0,
            terminator.1,
        ]
    }

    /// Whether the frame is the last of its series.
    pub open spec fn ends(self) -> bool {
        self.terminator.ends(self.payload.len())
    }

    /// The bytes of the frame: the multiflag, the procedure index, the call index, the number of
    /// payload bytes, and the payload.
    pub open spec fn encode(self) -> Seq<u8> {
        seq![pack(self.flags())] + Integer::smallest(self.procedure as nat).bytes()
            + Integer::smallest(self.call as nat).bytes() + Integer::smallest(
            self.payload.len(),
        ).bytes() + self.payload
    }
}

/// What a message on the wire says.
#[verifier::ext_equal]
pub enum Packet {
    Termination,
    Call(Frame),
    Response(Frame),
    EndOfInput,
}

impl Packet {
    /// The bytes of the message: one byte for its type, and its frame if it has one.
    pub open spec fn encode(self) -> Seq<u8> {
        match self {
            Packet::Termination => seq![0u8],
            Packet::Call(frame) => seq![1u8] + frame.encode(),
            Packet::Response(frame) => seq![2u8] + frame.encode(),
            Packet::EndOfInput => seq![3u8],
        }
    }

    /// Whether the number of payload bytes can be announced at all.
    pub open spec fn encodable(self) -> bool {
        match self {
            Packet::Call(frame) => frame.payload.len() <= usize::MAX,
            Packet::Response(frame) => frame.payload.len() <= usize::MAX,
            _ => true,
        }
    }
}

/// Creates a one-byte multiflag containing metadata about a message: the type of integer that
/// will be used for each of three values, and the terminator.
pub fn make_multiflag(
    procedure_idx: &Integer,
    call_idx: &Integer,
    num_bytes: &Integer,
    terminator: Terminator,
) -> (multiflag: u8)
    ensures
        multiflag == pack(
            seq![
                procedure_idx.flag().0,
                procedure_idx.flag().1,
                call_idx.flag().0,
                call_idx.flag().1,
                num_bytes.flag().0,
                num_bytes.flag().1,
                terminator.flag().0,
                terminator.flag().1,
            ],
        ),
{
    let flag_1 = procedure_idx.to_flag();
    let flag_2 = call_idx.to_flag();
    let flag_3 = num_bytes.to_flag();
    let terminator_flag = terminator.to_flag();
    let bool_arr: [bool; 8] = [
        flag_1.0,
        flag_1.1,
        flag_2.0,
        flag_2.1,
        flag_3.0,
        flag_3.1,
        terminator_flag.0,
        terminator_flag.1,
    ];
    let multiflag: u8 = bool_array_to_u8(bool_arr.as_slice());
    proof {
        law_pack_bits_of(multiflag);
        assert(bits_of(multiflag) =~= bool_arr@);
    }
    multiflag
}

/// A typed representation of a message to be sent down the wire, which can be transformed into a
/// byte vector easily.
pub enum Message<'b> {
    /// A message that indicates the sending program is about to terminate, and that all future
    /// messages will not be received.
    Termination,
    /// A message that calls a procedure. This, like any other message, may have a partial
    /// payload.
    Call {
        procedure_idx: ProcedureIndex,
        call_idx: CallIndex,
        terminator: Terminator,
        args: &'b [u8],
    },
    /// A response to a `Call` message that contains the return type.
    Response {
        procedure_idx: ProcedureIndex,
        call_idx: CallIndex,
        terminator: Terminator,
        message: &'b [u8],
    },
    /// A message that indicates that the sender will not send any more data for now. The channel
    /// is still open for the sender to receive more.
    EndOfInput,
}

impl<'b> View for Message<'b> {
    type V = Packet;

    open spec fn view(&self) -> Packet {
        match *self {
            Message::Termination => Packet::Termination,
            Message::Call { procedure_idx, call_idx, terminator, args } => Packet::Call(
                Frame {
                    procedure: procedure_idx.0,
                    call: call_idx.0,
                    terminator,
                    payload: args@,
                },
            ),
            Message::Response { procedure_idx, call_idx, terminator, message } => Packet::Response(
                Frame {
                    procedure: procedure_idx.0,
                    call: call_idx.0,
                    terminator,
                    payload: message@,
                },
            ),
            Message::EndOfInput => Packet::EndOfInput,
        }
    }
}

/// Appends a frame to the bytes that are already there.
fn write_frame(
    buf: &mut Vec<u8>,
    procedure_idx: ProcedureIndex,
    call_idx: CallIndex,
    terminator: Terminator,
    payload: &[u8],
)
    ensures
        final(buf)@ == old(buf)@ + (Frame {
            procedure: procedure_idx.0,
            call: call_idx.0,
            terminator,
            payload: payload@,
        }).encode(),
{
    let ghost frame = Frame {
        procedure: procedure_idx.0,
        call: call_idx.0,
        terminator,
        payload: payload@,
    };
    let ghost start = buf@;
    let procedure = get_as_smallest_int(procedure_idx.0);
    let call = get_as_smallest_int(call_idx.0);
    let length = get_as_smallest_int_from_usize(payload.len());
    let multiflag: u8 = make_multiflag(&procedure, &call, &length, terminator);
    assert(multiflag == pack(frame.flags()));
    buf.push(multiflag);
    let mut procedure_bytes = procedure.to_le_bytes();
    buf.append(&mut procedure_bytes);
    let mut call_bytes = call.to_le_bytes();
    buf.append(&mut call_bytes);
    let mut length_bytes = length.to_le_bytes();
    buf.append(&mut length_bytes);
    buf.extend_from_slice(payload);
    assert(buf@ =~= start + frame.encode());
}

impl<'b> Message<'b> {
    /// Writes the message in byte form.
    ///
    /// First, a single byte indicating the message type is sent. For termination (0) and
    /// end-of-input (3) messages, that is all. Calls (1) and responses (2) go on with
    ///
    /// 1. the multiflag (three 2-bit integers for the sizes of the next three steps, and two bits
    ///    for the terminator),
    /// 2. the procedure index,
    /// 3. the call index,
    /// 4. the number of message bytes to expect, and
    /// 5. the raw message bytes,
    ///
    /// with all integers in little endian byte order, and no wider than they have to be.
    ///
    /// If there are zero message bytes, and the terminator does not say that they make up a chunk,
    /// the given call (or the response to it) is terminated, whatever else the terminator says.
    pub fn to_bytes(&self) -> (bytes: Vec<u8>)
        ensures
            bytes@ == self@.encode(),
    {
        let mut buf: Vec<u8> = Vec::new();
        match self {
            Self::Termination => {
                buf.push(0);
            },
            Self::Call { procedure_idx, call_idx, terminator, args } => {
                buf.push(1);
                write_frame(&mut buf, *procedure_idx, *call_idx, *terminator, args);
            },
            Self::Response { procedure_idx, call_idx, terminator, message } => {
                buf.push(2);
                write_frame(&mut buf, *procedure_idx, *call_idx, *terminator, message);
            },
            Self::EndOfInput => {
                buf.push(3);
            },
        }
        assert(buf@ =~= self@.encode());
        buf
    }
}

} // verus!
