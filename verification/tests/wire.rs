use ipfi::wire_utils::Message;
use ipfi::{
    signal_termination, CallIndex, Error, Interface, IoErrorKind, Pack, PendingCall,
    ProcedureIndex, Progress, Reader, Reception, Terminator, Tuple, Wire,
};

struct Actor {
    interface: Interface,
    wire: Wire,
    input: Vec<u8>,
}

impl Actor {
    fn new() -> Self {
        let mut interface = Interface::new();
        let wire = Wire::new(&mut interface);
        Self {
            interface,
            wire,
            input: Vec::new(),
        }
    }

    /// Reads everything, executing all calls with the given procedure.
    fn fill_with(
        &mut self,
        mut procedure: impl FnMut(&mut Wire, &PendingCall) -> Result<Option<Vec<u8>>, Error>,
    ) -> Result<(), Error> {
        let mut reader = Reader::new(std::mem::take(&mut self.input));
        loop {
            match self.wire.fill(&mut self.interface, &mut reader)? {
                Reception::Call(call) => {
                    let output = procedure(&mut self.wire, &call);
                    self.wire.finish_call(&mut self.interface, call, output)?;
                }
                _ => return Ok(()),
            }
        }
    }

    /// Reads everything, not expecting any calls.
    fn fill(&mut self) -> Result<(), Error> {
        self.fill_with(|_, _| panic!("unexpected call"))
    }
}

fn ready<T>(progress: Progress<T>) -> T {
    match progress {
        Progress::Ready(value) => value,
        Progress::Pending => panic!("not ready"),
    }
}

/// A function that adds `42` to the end of a byte stream.
fn append_42(_: &mut Wire, call: &PendingCall) -> Result<Option<Vec<u8>>, Error> {
    let mut bytes = call.arguments()?;
    bytes.extend([42]);
    Ok(Some(bytes))
}

/// A greeting procedure.
fn greet(_: &mut Wire, call: &PendingCall) -> Result<Option<Vec<u8>>, Error> {
    let (first, last): (String, String) =
        rmp_serde::from_slice(&call.arguments()?).map_err(|_| Error::Decode)?;
    Ok(Some(format!("Hello, {first} {last}!").pack()?))
}

/// A procedure that yields three numbers.
fn count_to_three(wire: &mut Wire, call: &PendingCall) -> Result<Option<Vec<u8>>, Error> {
    wire.yield_value(call.procedure_idx, call.call_idx, &1u32, false)?;
    wire.yield_value(call.procedure_idx, call.call_idx, &2u32, false)?;
    wire.yield_value(call.procedure_idx, call.call_idx, &3u32, true)?;
    Ok(None)
}

#[test]
fn sync_oneshot_byte_call_should_work() {
    let mut alice = Actor::new();
    let mut bob = Actor::new();
    alice.interface.add_raw_procedure(0);

    let handle = bob
        .wire
        .call_with_bytes(&mut bob.interface, ProcedureIndex(0), &[0, 1, 2, 3]);
    assert!(handle.is_ok());

    // Bob signals that he's done and sends everything he has to Alice
    bob.wire.flush_end(&mut alice.input).unwrap();

    // Alice reads until end-of-input and responds to everything she finds
    alice.fill_with(append_42).unwrap();
    // Alice signals she's done and sends everything she has to Bob
    alice.wire.flush_end(&mut bob.input).unwrap();

    // Bob likewise reads until he has everything he needs
    bob.fill().unwrap();

    let result = ready(
        handle
            .unwrap()
            .wait_bytes(&mut bob.wire, &mut bob.interface),
    )
    .unwrap();
    assert_eq!(result[0], [0, 1, 2, 3, 42]);
}

#[test]
fn two_bytes_calls_should_use_correct_call_indices() {
    let mut alice = Actor::new();
    let mut bob = Actor::new();
    alice.interface.add_raw_procedure(0);

    for expected in 0..2 {
        let call_idx = bob
            .wire
            .start_call_with_partial_bytes(&mut bob.interface, ProcedureIndex(0), &[0, 1, 2, 3])
            .unwrap();
        assert_eq!(call_idx.0, expected);
        let handle = bob
            .wire
            .end_given_call(&mut bob.interface, ProcedureIndex(0), call_idx)
            .unwrap();

        bob.wire.flush_end(&mut alice.input).unwrap();
        alice.fill_with(append_42).unwrap();
        alice.wire.flush_end(&mut bob.input).unwrap();
        bob.fill().unwrap();

        let result = ready(handle.wait_bytes(&mut bob.wire, &mut bob.interface)).unwrap();
        assert_eq!(result[0], [0, 1, 2, 3, 42]);
    }
}

#[test]
fn partial_bytes_call_should_work() {
    let mut alice = Actor::new();
    let mut bob = Actor::new();
    alice.interface.add_raw_procedure(0);

    let call_idx =
        bob.wire
            .start_call_with_partial_bytes(&mut bob.interface, ProcedureIndex(0), &[0]);
    assert!(call_idx.is_ok());
    let call_idx = call_idx.unwrap();
    // This should be the first time we've called the method
    assert_eq!(call_idx.0, 0);
    // Try continuing the call
    assert!(bob
        .wire
        .continue_given_call_with_bytes(ProcedureIndex(0), call_idx, &[1, 2, 3])
        .is_ok());
    // And now try to end it
    let handle = bob
        .wire
        .end_given_call(&mut bob.interface, ProcedureIndex(0), call_idx);
    assert!(handle.is_ok());

    bob.wire.flush_end(&mut alice.input).unwrap();
    alice.fill_with(append_42).unwrap();
    alice.wire.flush_end(&mut bob.input).unwrap();
    bob.fill().unwrap();

    let result = ready(
        handle
            .unwrap()
            .wait_bytes(&mut bob.wire, &mut bob.interface),
    )
    .unwrap();
    assert_eq!(result[0], [0, 1, 2, 3, 42]);
}

#[test]
fn other_side_should_pick_up_send_after_end() {
    let mut alice = Actor::new();
    let mut bob = Actor::new();
    alice.interface.add_raw_procedure(0);

    let call_idx = bob
        .wire
        .start_call_with_partial_bytes(&mut bob.interface, ProcedureIndex(0), &[0, 1, 2, 3])
        .unwrap();
    let handle = bob
        .wire
        .end_given_call(&mut bob.interface, ProcedureIndex(0), call_idx);
    assert!(handle.is_ok());
    // Try continuing the call (should work locally)
    assert!(bob
        .wire
        .continue_given_call_with_bytes(ProcedureIndex(0), call_idx, &[1, 2, 3])
        .is_ok());

    bob.wire.flush_end(&mut alice.input).unwrap();

    // Alice should still be fine (should have recycled indices on her end)
    assert!(alice.fill_with(append_42).is_ok());
    alice.wire.flush_end(&mut bob.input).unwrap();
    bob.fill().unwrap();

    let result = ready(
        handle
            .unwrap()
            .wait_bytes(&mut bob.wire, &mut bob.interface),
    )
    .unwrap();
    assert_eq!(result[0], [0, 1, 2, 3, 42]);
}

#[test]
fn oneshot_args_call_should_work() {
    let mut alice = Actor::new();
    let mut bob = Actor::new();
    alice
        .interface
        .add_procedure(0, <(String, String) as Tuple>::len());

    let handle = bob
        .wire
        .call(&mut bob.interface, ProcedureIndex(0), ("John", "Doe"));
    assert!(handle.is_ok());

    bob.wire.flush_end(&mut alice.input).unwrap();
    alice.fill_with(greet).unwrap();
    alice.wire.flush_end(&mut bob.input).unwrap();
    bob.fill().unwrap();

    let result = ready(
        handle
            .unwrap()
            .wait::<String>(&mut bob.wire, &mut bob.interface),
    );
    assert!(result.is_ok());
    assert_eq!(result.unwrap(), "Hello, John Doe!");
}

#[test]
fn call_with_wrong_type_should_fail() {
    let mut alice = Actor::new();
    let mut bob = Actor::new();
    alice
        .interface
        .add_procedure(0, <(String, String) as Tuple>::len());

    let handle = bob
        .wire
        .call(&mut bob.interface, ProcedureIndex(0), ("John", "Doe"));
    assert!(handle.is_ok());

    bob.wire.flush_end(&mut alice.input).unwrap();
    alice.fill_with(greet).unwrap();
    alice.wire.flush_end(&mut bob.input).unwrap();
    bob.fill().unwrap();

    let result = ready(
        handle
            .unwrap()
            .wait::<u32>(&mut bob.wire, &mut bob.interface),
    );
    assert!(result.is_err());
}

#[test]
fn call_with_wrong_arg_types_should_fail() {
    let mut alice = Actor::new();
    let mut bob = Actor::new();
    alice
        .interface
        .add_procedure(0, <(String, String) as Tuple>::len());

    let handle = bob.wire.call(&mut bob.interface, ProcedureIndex(0), (0, 1));
    assert!(handle.is_ok());

    bob.wire.flush_end(&mut alice.input).unwrap();
    // While attempting to respond, Alice should encounter an error
    assert!(alice.fill_with(greet).is_err());
}

#[test]
fn partial_args_call_should_work() {
    let mut alice = Actor::new();
    let mut bob = Actor::new();
    alice
        .interface
        .add_procedure(0, <(String, String) as Tuple>::len());

    let call_idx =
        bob.wire
            .start_call_with_partial_args(&mut bob.interface, ProcedureIndex(0), ("John",));
    assert!(call_idx.is_ok());
    let call_idx = call_idx.unwrap();
    // This should be the first time we've called the method
    assert_eq!(call_idx.0, 0);
    // Try continuing the call
    assert!(bob
        .wire
        .continue_given_call_with_args(ProcedureIndex(0), call_idx, ("Doe",))
        .is_ok());
    // And now try to end it
    let handle = bob
        .wire
        .end_given_call(&mut bob.interface, ProcedureIndex(0), call_idx);
    assert!(handle.is_ok());

    bob.wire.flush_end(&mut alice.input).unwrap();
    alice.fill_with(greet).unwrap();
    alice.wire.flush_end(&mut bob.input).unwrap();
    bob.fill().unwrap();

    let result = ready(
        handle
            .unwrap()
            .wait::<String>(&mut bob.wire, &mut bob.interface),
    );
    assert!(result.is_ok());
    assert_eq!(result.unwrap(), "Hello, John Doe!");
}

#[test]
fn streaming_procedure_should_work() {
    let mut alice = Actor::new();
    let mut bob = Actor::new();
    alice
        .interface
        .add_sequence_procedure(0, <() as Tuple>::len());

    let handle = bob.wire.call(&mut bob.interface, ProcedureIndex(0), ());
    assert!(handle.is_ok());

    bob.wire.flush_end(&mut alice.input).unwrap();
    alice.fill_with(count_to_three).unwrap();
    alice.wire.flush_end(&mut bob.input).unwrap();
    bob.fill().unwrap();

    let result = ready(
        handle
            .unwrap()
            .wait_chunks::<u32>(&mut bob.wire, &mut bob.interface),
    );
    assert!(result.is_ok());
    assert_eq!(result.unwrap().unwrap(), [1, 2, 3]);
}

#[test]
fn streaming_both_ends_should_work() {
    let mut alice = Actor::new();
    let mut bob = Actor::new();
    alice
        .interface
        .add_sequence_procedure(0, <() as Tuple>::len());

    let handle = bob.wire.call(&mut bob.interface, ProcedureIndex(0), ());
    assert!(handle.is_ok());
    let rx = ready(handle.unwrap().wait_chunk_stream(&mut bob.interface)).unwrap();

    bob.wire.flush_end(&mut alice.input).unwrap();
    alice.fill_with(count_to_three).unwrap();
    alice.wire.flush_end(&mut bob.input).unwrap();
    bob.fill().unwrap();

    for expected in 1..=3u8 {
        let chunk = ready(rx.recv_raw(&mut bob.wire, &mut bob.interface));
        assert_eq!(chunk.unwrap().unwrap(), [expected]);
    }

    assert!(ready(rx.recv_raw(&mut bob.wire, &mut bob.interface))
        .unwrap()
        .is_none());
}

#[test]
fn terminating_wire_should_halt_waiting_call_handle() {
    let mut alice = Actor::new();
    let mut bob = Actor::new();
    alice
        .interface
        .add_sequence_procedure(0, <() as Tuple>::len());

    let handle = bob.wire.call(&mut bob.interface, ProcedureIndex(0), ());
    assert!(handle.is_ok());

    bob.wire.flush_end(&mut alice.input).unwrap();
    alice
        .fill_with(|wire, call| {
            // This procedure will never finish, so we'd be waiting forever if the wire didn't
            // terminate
            wire.yield_value(call.procedure_idx, call.call_idx, &1u32, false)?;
            Ok(None)
        })
        .unwrap();
    alice.wire.signal_termination();
    alice.wire.flush_end(&mut bob.input).unwrap();
    let Actor {
        mut interface,
        mut wire,
        ..
    } = alice;
    wire.release(&mut interface);
    let handle = handle.unwrap();
    assert_eq!(
        handle.wait_bytes(&mut bob.wire, &mut bob.interface),
        Progress::Pending
    );
    bob.fill().unwrap();

    // The handle should also have been poisoned
    assert!(ready(handle.wait_bytes(&mut bob.wire, &mut bob.interface)).is_err());
}

#[test]
fn terminating_wire_should_halt_streaming_procedure() {
    let mut alice = Actor::new();
    let mut bob = Actor::new();
    alice
        .interface
        .add_sequence_procedure(0, <() as Tuple>::len());

    let handle = bob.wire.call(&mut bob.interface, ProcedureIndex(0), ());
    assert!(handle.is_ok());
    let rx = ready(handle.unwrap().wait_chunk_stream(&mut bob.interface)).unwrap();

    bob.wire.flush_end(&mut alice.input).unwrap();
    let mut pending = None;
    alice
        .fill_with(|wire, call| {
            wire.yield_value(call.procedure_idx, call.call_idx, &1u32, false)?;
            pending = Some((call.procedure_idx, call.call_idx));
            Ok(None)
        })
        .unwrap();
    alice.wire.signal_termination();
    alice.wire.flush_end(&mut bob.input).unwrap();
    alice.wire.mark_terminated(&mut alice.interface);
    bob.fill().unwrap();

    // By now, the wire has been terminated, so the next yield should fail
    let (procedure_idx, call_idx) = pending.unwrap();
    assert_eq!(
        alice
            .wire
            .yield_value(procedure_idx, call_idx, &2u32, true),
        Err(Error::WireTerminated)
    );

    // Even though the receiver is now poisoned, we should be able to get the last sent value
    assert_eq!(
        ready(rx.recv_raw(&mut bob.wire, &mut bob.interface))
            .unwrap()
            .unwrap(),
        [1]
    );

    // After that, though, there should be nothing
    assert!(ready(rx.recv_raw(&mut bob.wire, &mut bob.interface)).is_err());
}

#[test]
fn wire_termination_should_halt_ongoing_receiver() {
    let mut alice = Actor::new();
    let mut bob = Actor::new();
    alice.interface.add_procedure(0, <() as Tuple>::len());

    let handle = bob
        .wire
        .call(&mut bob.interface, ProcedureIndex(0), ())
        .unwrap();
    let rx = ready(handle.wait_chunk_stream(&mut bob.interface)).unwrap();
    assert_eq!(
        rx.recv::<u32>(&mut bob.wire, &mut bob.interface),
        Progress::Pending
    );

    // Immediately terminate Alice's wire before Bob's procedure call can go through
    alice.wire.signal_termination();
    alice.wire.flush_end(&mut bob.input).unwrap();
    bob.fill().unwrap();

    // It should be that the receiver failed
    assert!(ready(rx.recv::<u32>(&mut bob.wire, &mut bob.interface)).is_err());
}

/// A procedure that adds `42` to a number.
fn add_42(_: &mut Wire, call: &PendingCall) -> Result<Option<Vec<u8>>, Error> {
    let (num,): (u32,) = rmp_serde::from_slice(&call.arguments()?).map_err(|_| Error::Decode)?;
    Ok(Some((num + 42).pack()?))
}

#[test]
fn too_many_accumulating_calls_should_fail() {
    let mut alice = Actor::new();
    alice.wire = alice.wire.max_ongoing_procedures(2);
    let mut bob = Actor::new();
    alice.interface.add_procedure(0, <(u32,) as Tuple>::len());

    let mut start = || {
        bob.wire
            .start_call_with_partial_args(&mut bob.interface, ProcedureIndex(0), (0,))
            .unwrap()
    };
    let call_idx_1 = start();
    let call_idx_2 = start();
    // This should be rejected
    let call_idx_3 = start();

    let handle_1 = bob
        .wire
        .end_given_call(&mut bob.interface, ProcedureIndex(0), call_idx_1)
        .unwrap();
    let handle_2 = bob
        .wire
        .end_given_call(&mut bob.interface, ProcedureIndex(0), call_idx_2)
        .unwrap();

    bob.wire.flush_end(&mut alice.input).unwrap();
    alice.fill_with(add_42).unwrap();
    alice.wire.flush_end(&mut bob.input).unwrap();
    bob.fill().unwrap();

    let (wire, interface) = (&mut bob.wire, &mut bob.interface);
    assert_eq!(ready(handle_1.wait_bytes(wire, interface)).unwrap()[0], [42]);
    assert_eq!(ready(handle_2.wait_bytes(wire, interface)).unwrap()[0], [42]);

    // A new call should work perfectly well
    let handle_4 = bob
        .wire
        .call(&mut bob.interface, ProcedureIndex(0), (0,))
        .unwrap();

    bob.wire.flush_end(&mut alice.input).unwrap();
    alice.fill_with(add_42).unwrap();
    alice.wire.flush_end(&mut bob.input).unwrap();
    bob.fill().unwrap();

    let (wire, interface) = (&mut bob.wire, &mut bob.interface);
    assert_eq!(ready(handle_4.wait_bytes(wire, interface)).unwrap()[0], [42]);

    // But, as our third call was rejected, trying to finish it will fail
    let _ = bob
        .wire
        .end_given_call(&mut bob.interface, ProcedureIndex(0), call_idx_3)
        .unwrap();
    bob.wire.flush_end(&mut alice.input).unwrap();
    assert!(alice.fill_with(add_42).is_err());
}

/// Calls a procedure that does not finish three times, and counts how often it is executed.
fn count_simultaneous_calls(alice: &mut Actor) -> u8 {
    let mut bob = Actor::new();
    alice
        .interface
        .add_sequence_procedure(0, <() as Tuple>::len());
    for _ in 0..3 {
        let _ = bob
            .wire
            .call(&mut bob.interface, ProcedureIndex(0), ())
            .unwrap();
    }
    bob.wire.flush_end(&mut alice.input).unwrap();
    let mut num_calls = 0;
    alice
        .fill_with(|_, _| {
            num_calls += 1;
            Ok(None)
        })
        .unwrap();
    num_calls
}

#[test]
fn under_limit_of_simultaneous_calls_should_succeed() {
    let mut alice = Actor::new();
    assert_eq!(count_simultaneous_calls(&mut alice), 3);
}

#[test]
fn too_many_simultaneous_calls_should_fail() {
    let mut alice = Actor::new();
    alice.wire = alice.wire.max_ongoing_procedures(2);
    assert_eq!(count_simultaneous_calls(&mut alice), 2);
}

#[test]
fn default_limit_should_be_ten() {
    let mut alice = Actor::new();
    let mut bob = Actor::new();
    for _ in 0..12 {
        bob.wire
            .start_call_with_partial_bytes(&mut bob.interface, ProcedureIndex(0), &[1])
            .unwrap();
    }
    bob.wire.flush_end(&mut alice.input).unwrap();
    alice.fill().unwrap();
    // The last two have left no trace
    assert_eq!(alice.interface.push(), 10);
}

#[test]
fn terminated_wire_should_refuse_everything() {
    let mut bob = Actor::new();
    bob.input = vec![0, 1, 2, 3];
    bob.fill().unwrap();
    assert!(bob.wire.is_terminated());
    let terminated = Error::WireTerminated;
    let procedure = ProcedureIndex(0);
    let (wire, interface) = (&mut bob.wire, &mut bob.interface);
    assert_eq!(wire.call(interface, procedure, ()).err(), Some(terminated));
    assert_eq!(
        wire.call_with_bytes(interface, procedure, &[1]).err(),
        Some(terminated)
    );
    assert_eq!(
        wire.start_call_with_partial_args(interface, procedure, (1u8,)),
        Err(terminated)
    );
    assert_eq!(
        wire.start_call_with_partial_bytes(interface, procedure, &[1]),
        Err(terminated)
    );
    assert_eq!(
        wire.continue_given_call_with_args(procedure, CallIndex(0), (1u8,)),
        Err(terminated)
    );
    assert_eq!(
        wire.continue_given_call_with_bytes(procedure, CallIndex(0), &[1]),
        Err(terminated)
    );
    assert_eq!(
        wire.end_given_call(interface, procedure, CallIndex(0)).err(),
        Some(terminated)
    );
    assert_eq!(
        wire.get_response_idx(procedure, CallIndex(0)),
        Err(terminated)
    );
    assert_eq!(wire.signal_end_of_input(), Err(terminated));
    assert_eq!(
        wire.yield_response(procedure, CallIndex(0), &[], Terminator::Complete),
        Err(terminated)
    );
    let mut reader = Reader::new(vec![3]);
    assert_eq!(wire.receive_one(interface, &mut reader), Err(terminated));
    assert_eq!(wire.fill(interface, &mut reader), Err(terminated));
    assert_eq!(reader.remaining(), 1);
    let mut output = Vec::new();
    assert_eq!(wire.flush_partial(&mut output), Err(terminated));
    assert_eq!(wire.flush_end(&mut output), Err(terminated));
    assert_eq!(wire.flush_terminate(&mut output), Err(terminated));
    assert!(output.is_empty());
}

#[test]
fn module_should_not_call() {
    let mut interface = Interface::new();
    let mut wire = Wire::new_module(&mut interface);
    assert!(wire.is_module_style());
    let refused = Error::CallFromModule;
    let procedure = ProcedureIndex(0);
    assert_eq!(
        wire.call(&mut interface, procedure, ()).err(),
        Some(refused)
    );
    assert_eq!(
        wire.start_call_with_partial_bytes(&mut interface, procedure, &[1]),
        Err(refused)
    );
    assert_eq!(
        wire.end_given_call(&mut interface, procedure, CallIndex(0))
            .err(),
        Some(refused)
    );
    // Response messages are ignored, after their type has been read
    let mut reader = Reader::new(vec![2, 3]);
    assert_eq!(
        wire.receive_one(&mut interface, &mut reader),
        Ok(Reception::Message(false))
    );
    assert_eq!(
        wire.receive_one(&mut interface, &mut reader),
        Ok(Reception::EndOfInput)
    );
}

#[test]
fn empty_partial_arguments_should_be_refused() {
    let mut bob = Actor::new();
    let refused = Err(Error::ZeroLengthInNonTerminating);
    let (wire, interface) = (&mut bob.wire, &mut bob.interface);
    assert_eq!(
        wire.start_call_with_partial_bytes(interface, ProcedureIndex(0), &[]),
        refused
    );
    assert_eq!(
        wire.start_call_with_partial_args(interface, ProcedureIndex(0), ()),
        refused
    );
    assert_eq!(
        wire.continue_given_call_with_bytes(ProcedureIndex(0), CallIndex(0), &[]),
        Err(Error::ZeroLengthInNonTerminating)
    );
    assert_eq!(wire.pop_packet(), None);
    assert_eq!(interface.push(), 0);
}

#[test]
fn responses_should_only_reach_their_buffers() {
    let mut bob = Actor::new();
    let secret = bob.interface.push();
    bob.input = Message::Response {
        procedure_idx: ProcedureIndex(0),
        call_idx: CallIndex(0),
        terminator: Terminator::Complete,
        message: &[1],
    }
    .to_bytes();
    assert_eq!(
        bob.fill(),
        Err(Error::NoResponseBuffer {
            index: 0,
            call_idx: 0
        })
    );
    assert_eq!(bob.interface.get_raw(secret), Progress::Pending);
    assert!(!bob.wire.is_terminated());
    // Ending a call that was not started sends a message nonetheless
    assert_eq!(
        bob.wire
            .end_given_call(&mut bob.interface, ProcedureIndex(1), CallIndex(2))
            .err(),
        Some(Error::NoResponseBuffer {
            index: 1,
            call_idx: 2
        })
    );
    assert_eq!(
        bob.wire.pop_packet(),
        Some(vec![1, 0b1100_0000, 1, 2, 0])
    );
}

#[test]
fn end_of_stream_should_terminate() {
    let mut bob = Actor::new();
    let handle = bob
        .wire
        .call(&mut bob.interface, ProcedureIndex(0), ())
        .unwrap();
    let other = bob.interface.push();
    // The input ends in the middle of a message
    bob.input = vec![9, 2, 0];
    assert_eq!(
        bob.fill(),
        Err(Error::IoError(IoErrorKind::UnexpectedEof))
    );
    assert!(bob.wire.is_terminated());
    assert_eq!(
        handle.wait_bytes(&mut bob.wire, &mut bob.interface),
        Progress::Ready(Err(Error::LockPoisoned { index: 0 }))
    );
    // Messages that have nothing to do with the wire are not affected
    assert_eq!(bob.interface.get_raw(other), Progress::Pending);
}

#[test]
fn receive_one_should_not_terminate_at_end_of_stream() {
    let mut bob = Actor::new();
    let mut reader = Reader::new(vec![]);
    assert_eq!(
        bob.wire.receive_one(&mut bob.interface, &mut reader),
        Err(Error::IoError(IoErrorKind::UnexpectedEof))
    );
    assert!(!bob.wire.is_terminated());
}

#[test]
fn termination_should_drop_accumulated_arguments() {
    let mut alice = Actor::new();
    let mut bob = Actor::new();
    bob.wire
        .start_call_with_partial_bytes(&mut bob.interface, ProcedureIndex(0), &[1])
        .unwrap();
    bob.wire.flush_terminate(&mut alice.input).unwrap();
    alice.fill().unwrap();
    assert!(alice.wire.is_terminated());
    // The identifier has been recycled
    assert_eq!(alice.interface.push(), 0);
}

#[test]
fn completed_response_should_survive_termination() {
    let mut alice = Actor::new();
    let mut bob = Actor::new();
    alice.interface.add_raw_procedure(0);
    let handle = bob
        .wire
        .call_with_bytes(&mut bob.interface, ProcedureIndex(0), &[])
        .unwrap();
    bob.wire.flush_end(&mut alice.input).unwrap();
    alice.fill_with(append_42).unwrap();
    alice.wire.flush_terminate(&mut bob.input).unwrap();
    bob.fill().unwrap();
    assert!(bob.wire.is_terminated());
    assert_eq!(
        handle.wait_bytes(&mut bob.wire, &mut bob.interface),
        Progress::Ready(Ok(vec![vec![42]]))
    );
}

#[test]
fn released_handle_should_not_be_poisoned() {
    let mut bob = Actor::new();
    let handle = bob
        .wire
        .call(&mut bob.interface, ProcedureIndex(0), ())
        .unwrap();
    let response_idx = handle.into_response_idx(&mut bob.wire);
    assert_eq!(response_idx, 0);
    bob.wire.mark_terminated(&mut bob.interface);
    assert_eq!(bob.interface.get_raw(response_idx), Progress::Pending);
}

#[test]
fn recycled_message_should_not_be_poisoned() {
    let mut bob = Actor::new();
    let _ = bob
        .wire
        .call(&mut bob.interface, ProcedureIndex(0), ())
        .unwrap();
    // Somebody else takes the response, and the identifier is used for something else
    bob.interface.terminate_message(0).unwrap();
    ready(bob.interface.get_raw(0)).unwrap();
    assert_eq!(bob.interface.push(), 0);
    bob.wire.mark_terminated(&mut bob.interface);
    assert_eq!(bob.interface.get_raw(0), Progress::Pending);
}

#[test]
fn taken_response_should_be_noticed() {
    let mut bob = Actor::new();
    let call_idx = bob
        .wire
        .start_call_with_partial_bytes(&mut bob.interface, ProcedureIndex(0), &[1])
        .unwrap();
    assert_eq!(bob.wire.get_response_idx(ProcedureIndex(0), call_idx), Ok(0));
    assert!(!bob
        .wire
        .is_response_taken(&mut bob.interface, ProcedureIndex(0), call_idx));
    bob.interface.terminate_message(0).unwrap();
    ready(bob.interface.get_raw(0)).unwrap();
    assert!(bob
        .wire
        .is_response_taken(&mut bob.interface, ProcedureIndex(0), call_idx));
    assert!(!bob
        .wire
        .is_response_taken(&mut bob.interface, ProcedureIndex(1), call_idx));
}

#[test]
fn release_should_recycle_the_identifier() {
    let mut interface = Interface::new();
    let mut first = Wire::new(&mut interface);
    let second = Wire::new_module(&mut interface);
    let id = first.id();
    assert!(id != second.id());
    first.release(&mut interface);
    assert!(first.is_terminated());
    assert_eq!(Wire::new(&mut interface).id(), id);
}

#[test]
fn shared_wire_should_keep_its_identifier() {
    let mut interface = Interface::new();
    let mut wire = Wire::new(&mut interface);
    let id = wire.id();
    assert_eq!(wire.holders(), 1);
    wire.share();
    assert_eq!(wire.holders(), 2);
    // One of those who hold the wire drops it, which terminates it
    wire.release(&mut interface);
    assert!(wire.is_terminated());
    assert_eq!(wire.holders(), 1);
    for _ in 0..10 {
        assert!(Wire::new(&mut interface).id() != id);
        assert!(interface.get_id() != id);
    }
    wire.release(&mut interface);
    assert_eq!(wire.holders(), 0);
    assert_eq!(interface.get_id(), id);
}

#[test]
fn empty_call_message_should_end_the_call() {
    let mut alice = Actor::new();
    alice.interface.add_raw_procedure(0);
    // There is no terminator flag in this
    alice.input = vec![1, 0x00, 0, 0, 0];
    let mut calls = 0;
    // There is no end-of-input either
    assert_eq!(
        alice.fill_with(|_, call| {
            calls += 1;
            assert_eq!(call.arguments()?, []);
            Ok(Some(vec![42]))
        }),
        Err(Error::IoError(IoErrorKind::UnexpectedEof))
    );
    assert_eq!(calls, 1);
    assert_eq!(
        alice.wire.pop_packet(),
        Some(vec![2, 0b1100_0000, 0, 0, 1, 42])
    );
}

#[test]
fn empty_call_message_should_end_accumulated_arguments() {
    let mut alice = Actor::new();
    alice.interface.add_raw_procedure(0);
    for (args, ends) in [(&[1u8, 2][..], false), (&[3], false), (&[], true)] {
        let message = Message::Call {
            procedure_idx: ProcedureIndex(0),
            call_idx: CallIndex(0),
            terminator: Terminator::Partial,
            args,
        };
        let mut reader = Reader::new(message.to_bytes());
        match alice.wire.receive_one(&mut alice.interface, &mut reader) {
            Ok(Reception::Message(false)) => assert!(!ends),
            Ok(Reception::Call(call)) => {
                assert!(ends);
                assert_eq!(call.args, [1, 2, 3]);
            }
            _ => panic!("unexpected reception"),
        }
    }
}

#[test]
fn empty_response_message_should_end_the_response() {
    let mut bob = Actor::new();
    let handle = bob
        .wire
        .call_with_bytes(&mut bob.interface, ProcedureIndex(0), &[])
        .unwrap();
    // An empty chunk is a chunk
    for (terminator, message, last) in [
        (Terminator::Partial, &[1u8][..], false),
        (Terminator::Chunk, &[], false),
        (Terminator::Partial, &[], true),
    ] {
        let message = Message::Response {
            procedure_idx: ProcedureIndex(0),
            call_idx: CallIndex(0),
            terminator,
            message,
        };
        let mut reader = Reader::new(message.to_bytes());
        assert_eq!(
            bob.wire.receive_one(&mut bob.interface, &mut reader),
            Ok(Reception::Message(last))
        );
    }
    assert_eq!(
        ready(handle.wait_bytes(&mut bob.wire, &mut bob.interface)),
        Ok(vec![vec![1], vec![]])
    );
}

#[test]
fn signalled_termination_should_terminate() {
    let mut output = Vec::new();
    signal_termination(&mut output).unwrap();
    let mut alice = Actor::new();
    alice.wire.signal_termination();
    let mut flushed = Vec::new();
    alice.wire.flush_partial(&mut flushed).unwrap();
    assert_eq!(output, flushed);

    let mut bob = Actor::new();
    let mut reader = Reader::new(output);
    assert_eq!(
        bob.wire.receive_one(&mut bob.interface, &mut reader),
        Ok(Reception::Terminated)
    );
    assert!(bob.wire.is_terminated());
    assert_eq!(
        bob.wire.receive_one(&mut bob.interface, &mut reader),
        Err(Error::WireTerminated)
    );
}

#[test]
fn output_should_be_flushed_in_order() {
    let mut bob = Actor::new();
    assert!(bob.wire.can_call(ProcedureIndex(7)));
    let _ = bob
        .wire
        .call_with_bytes(&mut bob.interface, ProcedureIndex(7), &[5])
        .unwrap();
    bob.wire.signal_end_of_input().unwrap();
    bob.wire.signal_termination();
    let mut output = vec![99];
    bob.wire.flush_partial(&mut output).unwrap();
    assert_eq!(output, [99, 1, 0b1100_0000, 7, 0, 1, 5, 3, 0]);
    // Everything has been written
    bob.wire.flush_partial(&mut output).unwrap();
    assert_eq!(output.len(), 9);
    signal_termination(&mut output).unwrap();
    assert_eq!(output[9..], [0]);
}

#[test]
fn failed_procedure_should_fail_the_reception() {
    let mut alice = Actor::new();
    let mut bob = Actor::new();
    alice.wire = alice.wire.max_ongoing_procedures(1);
    alice.interface.add_raw_procedure(0);
    for _ in 0..2 {
        let _ = bob
            .wire
            .call_with_bytes(&mut bob.interface, ProcedureIndex(0), &[])
            .unwrap();
    }
    bob.wire.flush_end(&mut alice.input).unwrap();
    assert_eq!(
        alice.fill_with(|_, _| Err(Error::Decode)),
        Err(Error::Decode)
    );
    // Nothing was sent, and the call still counts as ongoing
    assert_eq!(alice.wire.pop_packet(), None);
    let mut executed = false;
    let _ = bob
        .wire
        .call_with_bytes(&mut bob.interface, ProcedureIndex(0), &[])
        .unwrap();
    bob.wire.flush_end(&mut alice.input).unwrap();
    alice
        .fill_with(|_, _| {
            executed = true;
            Ok(None)
        })
        .unwrap();
    assert!(!executed);
}

#[test]
fn unknown_procedure_should_fail_the_reception() {
    let mut alice = Actor::new();
    let mut bob = Actor::new();
    let _ = bob
        .wire
        .call_with_bytes(&mut bob.interface, ProcedureIndex(3), &[])
        .unwrap();
    bob.wire.flush_end(&mut alice.input).unwrap();
    assert_eq!(alice.fill(), Err(Error::NoSuchProcedure { index: 3 }));
}

#[test]
fn receiver_handle_should_be_configurable() {
    let mut bob = Actor::new();
    let handle = bob
        .wire
        .call(&mut bob.interface, ProcedureIndex(0), ())
        .unwrap();
    let rx = ready(handle.wait_chunk_stream(&mut bob.interface)).unwrap();
    assert_eq!(rx.timeout_millis(), 10);
    let rx = rx.termination_timeout_millis(20);
    assert_eq!(rx.timeout_millis(), 20);
    // Without a receiver, the response stays where it is
    rx.release(&mut bob.interface);
    bob.input = Message::Response {
        procedure_idx: ProcedureIndex(0),
        call_idx: CallIndex(0),
        terminator: Terminator::Complete,
        message: &[1, 2],
    }
    .to_bytes();
    bob.wire
        .receive_one(&mut bob.interface, &mut Reader::new(bob.input))
        .unwrap();
    assert_eq!(
        handle.wait_chunks::<u8>(&mut bob.wire, &mut bob.interface),
        Progress::Ready(Ok(None))
    );
    assert_eq!(
        bob.interface.get_raw(0),
        Progress::Ready(Ok(vec![vec![1, 2]]))
    );
}

#[test]
fn filling_should_pass_over_plain_messages_only() {
    let mut alice = Actor::new();
    assert_eq!(
        alice
            .wire
            .fill_step(&mut alice.interface, Ok(Reception::Message(true))),
        None
    );
    assert_eq!(
        alice
            .wire
            .fill_step(&mut alice.interface, Ok(Reception::EndOfInput)),
        Some(Ok(Reception::EndOfInput))
    );
    assert_eq!(
        alice.wire.fill_step(
            &mut alice.interface,
            Err(Error::IoError(IoErrorKind::Other))
        ),
        Some(Err(Error::IoError(IoErrorKind::Other)))
    );
    assert!(!alice.wire.is_terminated());
    assert_eq!(
        alice.wire.fill_step(
            &mut alice.interface,
            Err(Error::IoError(IoErrorKind::UnexpectedEof))
        ),
        Some(Err(Error::IoError(IoErrorKind::UnexpectedEof)))
    );
    assert!(alice.wire.is_terminated());
}

#[test]
fn handles_should_know_their_response() {
    let mut bob = Actor::new();
    for expected in 0..3 {
        let handle = bob
            .wire
            .call_with_bytes(&mut bob.interface, ProcedureIndex(0), &[])
            .unwrap();
        assert_eq!(handle.response_idx(), expected);
        assert_eq!(handle.into_response_idx(&mut bob.wire), expected);
    }
}

#[test]
fn empty_answer_should_make_room() {
    let mut alice = Actor::new();
    alice.wire = alice.wire.max_ongoing_procedures(1);
    alice.interface.add_raw_streaming_procedure(0);
    let call = |call_idx: u32| {
        Message::Call {
            procedure_idx: ProcedureIndex(0),
            call_idx: CallIndex(call_idx),
            terminator: Terminator::Complete,
            args: &[1],
        }
        .to_bytes()
    };
    let mut reader = Reader::new(call(0));
    let first = match alice.wire.receive_one(&mut alice.interface, &mut reader) {
        Ok(Reception::Call(first)) => first,
        _ => panic!("unexpected reception"),
    };
    alice
        .wire
        .finish_call(&mut alice.interface, first, Ok(None))
        .unwrap();
    // Neither a part of the answer nor an empty chunk ends it
    for (message, terminator) in [
        (&[5u8][..], Terminator::Partial),
        (&[], Terminator::Chunk),
    ] {
        alice
            .wire
            .yield_response(ProcedureIndex(0), CallIndex(0), message, terminator)
            .unwrap();
        let mut reader = Reader::new(call(1));
        assert_eq!(
            alice.wire.receive_one(&mut alice.interface, &mut reader),
            Ok(Reception::Message(false))
        );
    }
    alice
        .wire
        .yield_response(ProcedureIndex(0), CallIndex(0), &[], Terminator::Partial)
        .unwrap();
    let mut reader = Reader::new(call(1));
    assert!(matches!(
        alice.wire.receive_one(&mut alice.interface, &mut reader),
        Ok(Reception::Call(_))
    ));
}

#[test]
fn any_number_of_parts_should_make_up_the_arguments() {
    for parts in 0..5u8 {
        for (terminator, end) in [
            (Terminator::Complete, &[77u8, 78][..]),
            (Terminator::Complete, &[]),
            (Terminator::Partial, &[]),
        ] {
            let mut alice = Actor::new();
            alice.interface.add_raw_procedure(0);
            let mut expected = Vec::new();
            for part in 0..parts {
                let message = Message::Call {
                    procedure_idx: ProcedureIndex(0),
                    call_idx: CallIndex(0),
                    terminator: Terminator::Partial,
                    args: &[part, 9],
                };
                expected.extend([part, 9]);
                let mut reader = Reader::new(message.to_bytes());
                assert_eq!(
                    alice.wire.receive_one(&mut alice.interface, &mut reader),
                    Ok(Reception::Message(false))
                );
            }
            let message = Message::Call {
                procedure_idx: ProcedureIndex(0),
                call_idx: CallIndex(0),
                terminator,
                args: end,
            };
            expected.extend(end);
            let mut reader = Reader::new(message.to_bytes());
            match alice.wire.receive_one(&mut alice.interface, &mut reader) {
                Ok(Reception::Call(call)) => assert_eq!(call.args, expected),
                _ => panic!("unexpected reception"),
            }
        }
    }
}

#[test]
fn termination_should_keep_arguments_and_responses_apart() {
    let mut interface = Interface::new();
    interface.add_raw_procedure(0);
    let mut first = Wire::new(&mut interface);
    let mut second = Wire::new(&mut interface);
    // Both wires accumulate arguments for a call, and wait for the response to another
    let part = Message::Call {
        procedure_idx: ProcedureIndex(0),
        call_idx: CallIndex(0),
        terminator: Terminator::Partial,
        args: &[1],
    }
    .to_bytes();
    let mut handles = Vec::new();
    for wire in [&mut first, &mut second] {
        let mut reader = Reader::new(part.clone());
        wire.receive_one(&mut interface, &mut reader).unwrap();
        let handle = wire.call_with_bytes(&mut interface, ProcedureIndex(0), &[]);
        handles.push(handle.unwrap());
    }
    first.mark_terminated(&mut interface);
    assert_eq!(
        handles[0].wait_bytes(&mut first, &mut interface),
        Progress::Ready(Err(Error::LockPoisoned {
            index: handles[0].response_idx()
        }))
    );
    // Nothing of the other wire is touched
    assert_eq!(
        handles[1].wait_bytes(&mut second, &mut interface),
        Progress::Pending
    );
    let mut reader = Reader::new(vec![1, 0x00, 0, 0, 0]);
    match second.receive_one(&mut interface, &mut reader) {
        Ok(Reception::Call(call)) => assert_eq!(call.args, [1]),
        _ => panic!("unexpected reception"),
    }
}
