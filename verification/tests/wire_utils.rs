use ipfi::incoming::{read_frame, read_message, Received, ReceivedFrame};
use ipfi::integer::Integer;
use ipfi::wire_utils::{bool_array_to_u8, make_multiflag, u8_to_bool_array, Message};
use ipfi::{bytes_wanted, CallIndex, Error, IoErrorKind, ProcedureIndex, Reader, Terminator};

fn eof() -> Error {
    Error::IoError(IoErrorKind::UnexpectedEof)
}

#[test]
fn bits_should_be_least_significant_first() {
    assert_eq!(
        bool_array_to_u8(&[true, false, true, false, false, false, false, true]),
        0b1000_0101
    );
    assert_eq!(bool_array_to_u8(&[false, true]), 2);
    assert_eq!(bool_array_to_u8(&[]), 0);
    assert_eq!(
        u8_to_bool_array(0b0100_0010),
        [false, true, false, false, false, false, true, false]
    );
    for value in 0..=255u8 {
        assert_eq!(bool_array_to_u8(&u8_to_bool_array(value)), value);
    }
}

#[test]
fn terminators_should_have_flags() {
    assert_eq!(Terminator::Complete.to_flag(), (true, true));
    assert_eq!(Terminator::Chunk.to_flag(), (true, false));
    assert_eq!(Terminator::Partial.to_flag(), (false, false));
    for terminator in [Terminator::Complete, Terminator::Chunk, Terminator::Partial] {
        assert_eq!(Terminator::from_flag(terminator.to_flag()), Ok(terminator));
    }
    assert_eq!(
        Terminator::from_flag((false, true)),
        Err(Error::InvalidTerminator)
    );
}

#[test]
fn multiflag_should_hold_sizes_and_terminator() {
    let flag = make_multiflag(
        &Integer::U8(0),
        &Integer::U16(0),
        &Integer::U32(0),
        Terminator::Complete,
    );
    assert_eq!(flag, 0b1101_1000);
    let flag = make_multiflag(
        &Integer::U64(0),
        &Integer::U8(0),
        &Integer::U8(0),
        Terminator::Chunk,
    );
    assert_eq!(flag, 0b0100_0011);
}

#[test]
fn messages_should_have_exact_bytes() {
    assert_eq!(Message::Termination.to_bytes(), [0]);
    assert_eq!(Message::EndOfInput.to_bytes(), [3]);
    let call = Message::Call {
        procedure_idx: ProcedureIndex(5),
        call_idx: CallIndex(0x0102),
        terminator: Terminator::Partial,
        args: &[10, 20],
    };
    assert_eq!(call.to_bytes(), [1, 0b0000_1000, 5, 2, 1, 2, 10, 20]);
    let response = Message::Response {
        procedure_idx: ProcedureIndex(0),
        call_idx: CallIndex(0),
        terminator: Terminator::Complete,
        message: &[],
    };
    assert_eq!(response.to_bytes(), [2, 0b1100_0000, 0, 0, 0]);
}

#[test]
fn messages_should_be_read_back() {
    let payload = vec![9u8; 300];
    let call = Message::Call {
        procedure_idx: ProcedureIndex(70000),
        call_idx: CallIndex(u32::MAX),
        terminator: Terminator::Chunk,
        args: &payload,
    };
    let mut bytes = call.to_bytes();
    bytes.extend(Message::EndOfInput.to_bytes());
    bytes.extend(Message::Termination.to_bytes());
    bytes.push(77);
    let mut reader = Reader::new(bytes);
    assert_eq!(
        read_message(&mut reader, false),
        Ok(Received::Call(ReceivedFrame {
            procedure_idx: ProcedureIndex(70000),
            call_idx: CallIndex(u32::MAX),
            terminator: Terminator::Chunk,
            payload,
        }))
    );
    assert_eq!(read_message(&mut reader, false), Ok(Received::EndOfInput));
    assert_eq!(read_message(&mut reader, false), Ok(Received::Termination));
    assert_eq!(read_message(&mut reader, false), Ok(Received::Ignored));
    assert_eq!(read_message(&mut reader, false), Err(eof()));
}

#[test]
fn modules_should_skip_the_type_of_responses() {
    let mut reader = Reader::new(vec![2, 3]);
    assert_eq!(read_message(&mut reader, true), Ok(Received::Ignored));
    assert_eq!(read_message(&mut reader, true), Ok(Received::EndOfInput));
}

#[test]
fn invalid_frames_should_fail() {
    // An invalid terminator
    let mut reader = Reader::new(vec![0b1000_0000, 0, 0, 0]);
    assert_eq!(read_frame(&mut reader), Err(Error::InvalidTerminator));
    assert_eq!(reader.remaining(), 3);
    // A procedure index of 64 bits that does not fit
    let mut reader = Reader::new(vec![0b0000_0011, 0, 0, 0, 0, 1, 0, 0, 0, 9]);
    assert_eq!(read_frame(&mut reader), Err(Error::IdxTooBig));
    assert_eq!(reader.remaining(), 1);
    // One that does
    let mut reader = Reader::new(vec![0b0000_0011, 1, 0, 0, 0, 0, 0, 0, 0, 0, 0]);
    assert_eq!(read_frame(&mut reader).unwrap().procedure_idx.0, 1);
    // A payload that is too short
    let mut reader = Reader::new(vec![0, 0, 0, 2, 1]);
    assert_eq!(read_frame(&mut reader), Err(eof()));
    assert_eq!(reader.remaining(), 0);
}

#[test]
fn stream_should_never_be_over_read() {
    let payload = vec![1u8; 257];
    let message = Message::Response {
        procedure_idx: ProcedureIndex(300),
        call_idx: CallIndex(2),
        terminator: Terminator::Complete,
        message: &payload,
    };
    let bytes = message.to_bytes();
    let mut read = 0;
    let mut steps = 0;
    loop {
        let wanted = bytes_wanted(&bytes[..read], false);
        if wanted == 0 {
            break;
        }
        read += wanted;
        steps += 1;
    }
    assert_eq!(read, bytes.len());
    assert_eq!(steps, 6);
    // Modules stop after the type
    assert_eq!(bytes_wanted(&bytes[..1], true), 0);
    assert_eq!(bytes_wanted(&[], true), 1);
    assert_eq!(bytes_wanted(&[0], false), 0);
    assert_eq!(bytes_wanted(&[3], false), 0);
    assert_eq!(bytes_wanted(&[200], false), 0);
    assert_eq!(bytes_wanted(&[1, 0b1000_0000], false), 0);
    assert_eq!(bytes_wanted(&[1, 0, 1, 1, 5, 0], false), 4);
}

#[test]
fn reader_should_hand_out_exact_pieces() {
    let mut reader = Reader::new(vec![1, 2, 3, 4]);
    assert_eq!(reader.read_exact(0), Ok(vec![]));
    assert_eq!(reader.read_exact(3), Ok(vec![1, 2, 3]));
    assert_eq!(reader.remaining(), 1);
    assert_eq!(reader.read_exact(2), Err(eof()));
    assert_eq!(reader.remaining(), 0);
    assert_eq!(reader.read_exact(0), Ok(vec![]));
}
