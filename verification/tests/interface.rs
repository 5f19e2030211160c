use ipfi::{
    ArgumentFormat, CallIndex, CompleteLockState, Error, Interface, Procedure, ProcedureIndex,
    ProcedureKind, Progress, WireId,
};

fn has_duplicates<T: Eq + std::hash::Hash>(vec: &[T]) -> bool {
    let mut set = std::collections::HashSet::new();
    vec.iter().any(|x| !set.insert(x))
}

fn ready<T>(progress: Progress<T>) -> T {
    match progress {
        Progress::Ready(value) => value,
        Progress::Pending => panic!("not ready"),
    }
}

#[test]
fn interface_wire_ids_should_be_unique() {
    let mut interface = Interface::new();
    let mut ids = Vec::new();
    for _ in 0..255 {
        let id = interface.get_id();
        assert!(!ids.contains(&id));
        ids.push(id);
    }
}

#[test]
fn relinquished_wire_ids_should_be_reused() {
    let mut interface = Interface::new();
    let first = interface.get_id();
    let second = interface.get_id();
    interface.relinquish_id(first);
    assert_eq!(interface.get_id(), first);
    assert_eq!(interface.get_id(), WireId(second.0 + 1));
}

#[test]
fn interface_call_buffers_should_be_distinct() {
    let mut interface = Interface::new();
    let buf_1 = interface.get_call_buffer(ProcedureIndex(0), CallIndex(0), WireId(0));
    let buf_2 = interface.get_call_buffer(ProcedureIndex(0), CallIndex(0), WireId(1));
    let buf_3 = interface.get_call_buffer(ProcedureIndex(0), CallIndex(1), WireId(0));
    let buf_4 = interface.get_call_buffer(ProcedureIndex(1), CallIndex(0), WireId(0));

    assert!(!has_duplicates(&[buf_1, buf_2, buf_3, buf_4]));
}

#[test]
fn interface_call_buffers_should_be_reused() {
    let mut interface = Interface::new();
    let buf_1 = interface.get_call_buffer(ProcedureIndex(0), CallIndex(0), WireId(0));
    let buf_2 = interface.get_call_buffer(ProcedureIndex(0), CallIndex(0), WireId(1));
    let buf_3 = interface.get_call_buffer(ProcedureIndex(0), CallIndex(0), WireId(0));
    let buf_4 = interface.get_call_buffer(ProcedureIndex(0), CallIndex(0), WireId(1));

    assert!(has_duplicates(&[buf_1, buf_2, buf_3, buf_4]));
    assert!(buf_1 == buf_3 && buf_2 == buf_4);
}

#[test]
fn interface_message_buf_allocs_should_not_overlap() {
    let mut interface = Interface::new();
    let buf_1 = interface.push();
    let buf_2 = interface.push();
    let buf_3 = interface.push();
    let buf_4 = interface.push();

    assert!(!has_duplicates(&[buf_1, buf_2, buf_3, buf_4]));
}

#[test]
fn interface_writing_to_msg_until_end_should_work() {
    let mut interface = Interface::new();
    let id = interface.push();

    assert!(interface.send(0, id).is_ok());
    assert!(interface.send(1, id).is_ok());
    assert!(interface.send(2, id).is_ok());
    assert!(interface.send(-1, id).is_ok());

    assert!(interface.send(0, id).is_err());
    assert!(interface.send(-1, id).is_err());
}

#[test]
fn interface_send_many_should_never_terminate() {
    let mut interface = Interface::new();
    let id = interface.push();

    assert!(interface.send_many(&[0, 0, 1, 3, 2, 5, 12], id).is_ok());
    assert!(interface.send_many(&[0, 8, 1, 3], id).is_ok());
    assert!(interface.terminate_message(id).is_ok());

    assert!(interface.send_many(&[1, 4, 3], id).is_err());
}

#[test]
fn send_to_unreserved_buf_should_fail() {
    let mut interface = Interface::new();
    assert_eq!(interface.push(), 0);
    assert_eq!(interface.push(), 1);

    assert!(interface.send(0, 0).is_ok());
    assert!(interface.send(0, 1).is_ok());

    assert!(interface.send(0, 2).is_err());
}

#[test]
fn double_terminate_should_fail() {
    let mut interface = Interface::new();
    let id = interface.push();
    interface.send(42, id).unwrap();
    assert!(interface.terminate_message(id).is_ok());
    assert!(interface.terminate_message(id).is_err());
}

#[test]
fn roi_buf_queue_should_work() {
    let mut interface = Interface::new();
    // We should start at 0
    assert_eq!(interface.push(), 0);
    interface.send(42, 0).unwrap();
    interface.terminate_message(0).unwrap();
    // We haven't fetched, so this should increment
    assert_eq!(interface.push(), 1);
    let msg = ready(interface.get_raw(0)).unwrap();
    assert_eq!(msg[0], [42]);
    // But now we have fetched from the ID, so it should be reused
    assert_eq!(interface.push(), 0);
}

#[test]
fn interface_get_should_work() {
    let mut interface = Interface::new();
    let id = interface.push();
    interface.send(42, id).unwrap();
    interface.terminate_message(id).unwrap();

    // This implicitly tests `.get_raw()` as well
    let msg = ready(interface.get::<u8>(id));
    assert!(msg.is_ok());
    assert_eq!(msg.unwrap(), 42);
}

#[test]
fn interface_get_with_wrong_type_should_fail() {
    let mut interface = Interface::new();
    let id = interface.push();
    interface.send(42, id).unwrap();
    interface.terminate_message(id).unwrap();

    let msg = ready(interface.get::<String>(id));
    assert!(msg.is_err());
}

#[test]
fn terminate_zero_sized_should_work() {
    let mut interface = Interface::new();
    let id = interface.push();
    assert!(interface.terminate_message(id).is_ok());
    let msg = ready(interface.get_raw(id)).unwrap();
    assert_eq!(msg[0], []);
}

#[test]
fn chunk_streaming_should_work() {
    let mut interface = Interface::new();
    let id = interface.push();
    // This will resolve immediately because the message has been created
    let rx = ready(interface.get_chunk_stream(id)).unwrap();

    interface.send(42, id).unwrap();
    interface.terminate_chunk(id).unwrap();
    assert_eq!(ready(interface.recv_raw(&rx)).unwrap().unwrap(), [42]);
    interface.send(43, id).unwrap();
    // We don't terminate that final chunk!
    interface.terminate_message(id).unwrap();
    assert_eq!(ready(interface.recv_raw(&rx)).unwrap().unwrap(), [43]);

    assert!(ready(interface.recv_raw(&rx)).unwrap().is_none());

    // Make sure the message buffer has been reallocated
    let new_id = interface.push();
    assert_eq!(id, new_id);
}

#[test]
fn stream_then_drop_rx_should_buffer() {
    let mut interface = Interface::new();
    let id = interface.push();
    // This will resolve immediately because the message has been created
    let rx = ready(interface.get_chunk_stream(id)).unwrap();

    interface.send(42, id).unwrap();
    interface.terminate_chunk(id).unwrap();
    assert_eq!(ready(interface.recv_raw(&rx)).unwrap().unwrap(), [42]);
    // Now drop the receiver: future chunks should be buffered
    interface.drop_receiver(rx);
    interface.send(43, id).unwrap();
    // We don't terminate that final chunk!
    // Because the receiver has been dropped, the message buffer should not be recycled
    interface.terminate_message(id).unwrap();

    // Getting the buffer itself should fail, but, getting the raw bytes should show
    // the last chunk buffered (as it couldn't be sent)
    assert!(ready(interface.get_chunks::<()>(id)).unwrap().is_none());
    assert_eq!(ready(interface.get_raw(id)).unwrap(), [[43]]);
}

#[test]
fn get_chunks_should_work() {
    let mut interface = Interface::new();
    let id = interface.push();

    interface.send(42, id).unwrap();
    interface.terminate_chunk(id).unwrap();
    interface.send(43, id).unwrap();
    // We don't terminate that final chunk!
    interface.terminate_message(id).unwrap();

    assert_eq!(
        ready(interface.get_chunks::<u32>(id)).unwrap().unwrap(),
        [42, 43]
    );
}

#[test]
fn interface_concurrent_get_after_creation_should_resolve() {
    let mut interface = Interface::new();

    let id = interface.push();
    assert_eq!(id, 0, "spurious failure: interface push did not start at 0");
    assert_eq!(interface.get_raw(0), Progress::Pending);
    interface.send(42, id).unwrap();
    // We haven't terminated it yet
    assert_eq!(interface.get_raw(0), Progress::Pending);
    interface.terminate_message(id).unwrap();

    let msg = ready(interface.get_raw(0)).unwrap();
    assert_eq!(msg[0], [42]);
}

#[test]
fn interface_concurrent_get_before_creation_should_resolve() {
    let mut interface = Interface::new();

    // Note that this message does not even exist yet
    assert_eq!(interface.get_raw(0), Progress::Pending);
    assert_eq!(interface.resume_message_creation(0), Progress::Pending);
    assert_eq!(
        interface.push(),
        0,
        "spurious failure: interface push did not start at 0"
    );

    interface.send(42, 0).unwrap();
    assert_eq!(
        interface.resume_message_creation(0),
        Progress::Ready(Ok(()))
    );
    // We haven't terminated it yet
    assert_eq!(interface.get_raw(0), Progress::Pending);
    interface.terminate_message(0).unwrap();

    let msg = ready(interface.get_raw(0)).unwrap();
    assert_eq!(msg[0], [42]);
    // Whoever waits for the next message with this identifier has to wait for its creation again
    assert!(!interface.is_stranded(0));
    assert_eq!(interface.get_raw(0), Progress::Pending);
}

#[test]
fn creation_lock_should_be_left_for_its_waiters() {
    let mut interface = Interface::new();
    // Two of them wait for the same message
    assert_eq!(interface.wait_for_message_creation(0), Progress::Pending);
    assert_eq!(interface.wait_for_message_creation(0), Progress::Pending);
    assert_eq!(interface.push(), 0);
    interface.terminate_message(0).unwrap();
    // Somebody else, who does not have to wait, takes it away from them
    assert_eq!(
        interface.wait_for_message_creation(0),
        Progress::Ready(Ok(()))
    );
    assert_eq!(interface.get_raw(0), Progress::Ready(Ok(vec![vec![]])));
    assert!(interface.is_stranded(0));
    // They find out nonetheless that it was created
    assert_eq!(
        interface.resume_message_creation(0),
        Progress::Ready(Ok(()))
    );
    assert_eq!(
        interface.resume_message_creation(0),
        Progress::Ready(Ok(()))
    );
    assert!(!interface.is_stranded(0));
    assert_eq!(interface.wait_for_message_creation(0), Progress::Pending);
}

#[test]
fn message_deleted_before_it_was_seen_should_be_reported() {
    let mut interface = Interface::new();
    assert_eq!(interface.wait_for_message_creation(0), Progress::Pending);
    let buf = interface.get_call_buffer(ProcedureIndex(0), CallIndex(0), WireId(0));
    assert_eq!(buf, 0);
    assert!(!interface.is_stranded(0));
    interface.drop_associated_call_message(ProcedureIndex(0), CallIndex(0), WireId(0));
    assert!(interface.is_stranded(0));
    // This resolves, and there is nothing to wait for anymore
    assert_eq!(
        interface.wait_for_message_creation(0),
        Progress::Ready(Ok(()))
    );
    assert!(!interface.is_stranded(0));
}

#[test]
fn send_should_report_what_it_did() {
    let mut interface = Interface::new();
    let id = interface.push();
    assert_eq!(interface.send(5, id), Ok(true));
    assert_eq!(interface.send(-5, id), Ok(false));
    assert_eq!(
        interface.send(5, id),
        Err(Error::AlreadyCompleted { index: id })
    );
    assert_eq!(
        interface.send_many(&[5], 7),
        Err(Error::OutOfBounds { index: 7 })
    );
    assert_eq!(
        interface.terminate_chunk(id),
        Err(Error::AlreadyCompleted { index: id })
    );
    assert_eq!(
        interface.terminate_message(7),
        Err(Error::OutOfBounds { index: 7 })
    );
    assert_eq!(interface.get_raw(id), Progress::Ready(Ok(vec![vec![5]])));
}

#[test]
fn chunks_should_be_counted() {
    let mut interface = Interface::new();
    let id = interface.push();
    assert_eq!(interface.is_chunked(id), Progress::Pending);
    interface.send_many(&[1, 2], id).unwrap();
    interface.terminate_chunk(id).unwrap();
    interface.terminate_message(id).unwrap();
    assert_eq!(interface.is_chunked(id), Progress::Ready(Ok(true)));
    assert_eq!(interface.has_stream(id), Progress::Ready(Ok(false)));
    assert_eq!(
        interface.get_raw(id),
        Progress::Ready(Ok(vec![vec![1, 2], vec![]]))
    );
}

#[test]
fn get_chunks_should_fail_on_any_bad_chunk() {
    let mut interface = Interface::new();
    let id = interface.push();
    interface.send_many(&[1], id).unwrap();
    interface.terminate_chunk(id).unwrap();
    // This is nil, which is no number
    interface.send_many(&[0xc0], id).unwrap();
    interface.terminate_message(id).unwrap();
    assert_eq!(
        interface.get_chunks::<u32>(id),
        Progress::Ready(Err(Error::Decode))
    );
    // It has been taken nonetheless
    assert_eq!(interface.push(), id);
}

#[test]
fn poisoned_message_should_fail_until_completed() {
    let mut interface = Interface::new();
    let id = interface.push();
    let serial = interface.get_lock_serial(id).unwrap();
    // Some other lock is of no concern to this message
    interface.poison_message(id, serial + 1);
    assert_eq!(interface.get_raw(id), Progress::Pending);
    interface.poison_message(id, serial);
    assert_eq!(
        interface.get_raw(id),
        Progress::Ready(Err(Error::LockPoisoned { index: id }))
    );
    assert_eq!(
        interface.get_complete_lock(id),
        Some(CompleteLockState::Poisoned)
    );
    assert_eq!(interface.send(1, id), Ok(true));
    interface.terminate_message(id).unwrap();
    assert_eq!(interface.get_raw(id), Progress::Ready(Ok(vec![vec![1]])));
    assert!(interface.get_complete_lock(id).is_none());
    assert!(interface.get_lock_serial(id).is_none());
}

#[test]
fn poisoned_receiver_should_drain_first() {
    let mut interface = Interface::new();
    let id = interface.push();
    let rx = ready(interface.get_chunk_stream(id)).unwrap();
    assert_eq!(interface.recv_raw(&rx), Progress::Pending);
    interface.send(1, id).unwrap();
    interface.terminate_chunk(id).unwrap();
    let serial = interface.get_lock_serial(id).unwrap();
    interface.poison_message(id, serial);
    assert_eq!(interface.recv::<u8>(&rx), Progress::Ready(Ok(Some(Ok(1)))));
    assert_eq!(
        interface.recv::<u8>(&rx),
        Progress::Ready(Err(Error::LockPoisoned { index: id }))
    );
    // Completing the message removes the poison
    interface.send(2, id).unwrap();
    interface.terminate_message(id).unwrap();
    assert_eq!(
        interface.recv::<String>(&rx),
        Progress::Ready(Ok(Some(Err(Error::Decode))))
    );
    assert_eq!(interface.recv::<u8>(&rx), Progress::Ready(Ok(None)));
}

#[test]
fn poison_should_outlive_the_message() {
    let mut interface = Interface::new();
    let id = interface.get_call_buffer(ProcedureIndex(0), CallIndex(0), WireId(0));
    let rx = ready(interface.get_chunk_stream(id)).unwrap();
    let serial = interface.get_lock_serial(id).unwrap();
    interface.poison_message(id, serial);
    interface.drop_associated_call_message(ProcedureIndex(0), CallIndex(0), WireId(0));
    // Another message with the same identifier makes no difference
    assert_eq!(interface.push(), id);
    assert_eq!(
        interface.recv_raw(&rx),
        Progress::Ready(Err(Error::LockPoisoned { index: id }))
    );
}

#[test]
fn second_stream_should_replace_the_first() {
    let mut interface = Interface::new();
    let id = interface.push();
    let first = ready(interface.get_chunk_stream(id)).unwrap();
    let second = ready(interface.get_chunk_stream(id)).unwrap();
    interface.send(1, id).unwrap();
    interface.terminate_chunk(id).unwrap();
    assert_eq!(interface.recv_raw(&first), Progress::Ready(Ok(None)));
    assert_eq!(
        interface.recv_raw(&second),
        Progress::Ready(Ok(Some(vec![1])))
    );
    assert_eq!(second.timeout_millis(), 10);
    assert_eq!(second.message_id(), id);
    assert_eq!(second.termination_timeout_millis(50).timeout_millis(), 50);
}

#[test]
fn stream_should_wait_for_creation() {
    let mut interface = Interface::new();
    assert!(matches!(
        interface.get_chunk_stream(0),
        Progress::Pending
    ));
    interface.push();
    assert_eq!(
        interface.resume_message_creation(0),
        Progress::Ready(Ok(()))
    );
    assert!(matches!(
        interface.get_chunk_stream(0),
        Progress::Ready(Ok(_))
    ));
    assert_eq!(interface.has_stream(0), Progress::Pending);
    interface.send(-1, 0).unwrap();
    assert_eq!(interface.has_stream(0), Progress::Ready(Ok(true)));
}

#[test]
fn procedure_calls_should_fail_with_reasons() {
    let mut interface = Interface::new();
    let (procedure, call, wire) = (ProcedureIndex::new(3), CallIndex(0), WireId(0));
    assert_eq!(
        interface.call_procedure(procedure, call, wire),
        Err(Error::NoSuchProcedure { index: 3 })
    );
    interface.add_raw_procedure(3);
    let buf = interface.get_call_buffer(procedure, call, wire);
    assert_eq!(
        interface.call_procedure(procedure, call, wire),
        Err(Error::CallBufferIncomplete { index: buf })
    );
    let buf = interface.get_call_buffer(procedure, call, wire);
    let serial = interface.get_lock_serial(buf).unwrap();
    interface.poison_message(buf, serial);
    assert_eq!(
        interface.call_procedure(procedure, call, wire),
        Err(Error::CallBufferPoisoned { index: buf })
    );
    let buf = interface.get_call_buffer(procedure, call, wire);
    interface.terminate_message(buf).unwrap();
    ready(interface.get_raw(buf)).unwrap();
    assert_eq!(
        interface.call_procedure(procedure, call, wire),
        Err(Error::NoCallBuffer { index: buf })
    );
}

#[test]
fn finished_calls_should_give_up_their_arguments() {
    let mut interface = Interface::new();
    interface.add_raw_procedure(0);
    interface.add_raw_streaming_procedure(1);
    interface.add_procedure(2, 3);
    interface.add_sequence_procedure(3, 0);
    let wire = WireId(0);
    let mut start = |procedure: u32| {
        let procedure = ProcedureIndex(procedure);
        let buf = interface.get_call_buffer(procedure, CallIndex(0), wire);
        interface.send_many(&[7, 8, 9], buf).unwrap();
        interface.terminate_message(buf).unwrap();
        interface
            .call_procedure(procedure, CallIndex(0), wire)
            .unwrap()
    };
    let raw = start(0);
    let streaming = start(1);
    let tuple = start(2);
    let sequence = start(3);
    assert_eq!(
        raw.procedure,
        Procedure {
            kind: ProcedureKind::Standard,
            format: ArgumentFormat::Raw
        }
    );
    assert_eq!(raw.arguments(), Ok(vec![7, 8, 9]));
    assert_eq!(streaming.procedure.kind, ProcedureKind::Streaming);
    assert_eq!(tuple.arguments(), Ok(vec![0x93, 7, 8, 9]));
    // Without arguments, what was accumulated does not matter
    assert_eq!(sequence.arguments(), Ok(vec![0xc0]));

    assert_eq!(
        interface.finish_call(raw, Ok(Some(vec![1]))),
        Ok(Some(vec![1]))
    );
    assert!(interface.get_complete_lock(0).is_none());
    // Streaming procedures keep their arguments if they fail
    assert_eq!(
        interface.finish_call(streaming, Err(Error::Decode)),
        Err(Error::Decode)
    );
    assert!(interface.get_complete_lock(1).is_some());
    assert_eq!(
        interface.finish_call(tuple, Err(Error::Encode)),
        Err(Error::Encode)
    );
    assert!(interface.get_complete_lock(2).is_none());
    assert_eq!(interface.finish_call(sequence, Ok(None)), Ok(None));
    assert!(interface.get_complete_lock(3).is_none());
    // Identifiers are recycled in the order in which they were given up
    assert_eq!(interface.push(), 0);
    assert_eq!(interface.push(), 2);
}
