use ipfi::ordered::Interface;
use ipfi::{Error, Progress};

fn has_duplicates<T: Eq + std::hash::Hash>(vec: &[T]) -> bool {
    let mut set = std::collections::HashSet::new();
    vec.iter().any(|x| !set.insert(x))
}

fn ready<T>(progress: Progress<T>) -> T {
    match progress {
        Progress::Ready(value) => value,
        Progress::Pending => panic!("not ready"),
    }
}

#[test]
fn wire_ids_should_be_unique() {
    let mut interface = Interface::new();
    let mut ids = Vec::new();
    for _ in 0..1000 {
        assert!(interface.has_id());
        let id = interface.get_id();
        assert!(!ids.contains(&id));
        ids.push(id);
    }
}

#[test]
fn call_buffers_should_be_distinct() {
    let mut interface = Interface::new();
    let buf_1 = interface.get_call_buffer(0, 0, 0);
    let buf_2 = interface.get_call_buffer(0, 0, 1);
    let buf_3 = interface.get_call_buffer(0, 1, 0);
    let buf_4 = interface.get_call_buffer(1, 0, 0);

    assert!(!has_duplicates(&[buf_1, buf_2, buf_3, buf_4]));
}

#[test]
fn call_buffers_should_be_reused() {
    let mut interface = Interface::new();
    let buf_1 = interface.get_call_buffer(0, 0, 0);
    let buf_2 = interface.get_call_buffer(0, 0, 1);
    let buf_3 = interface.get_call_buffer(0, 0, 0);
    let buf_4 = interface.get_call_buffer(0, 0, 1);

    assert!(has_duplicates(&[buf_1, buf_2, buf_3, buf_4]));
    assert!(buf_1 == buf_3 && buf_2 == buf_4);
}

#[test]
fn message_buf_allocs_should_not_overlap() {
    let mut interface = Interface::new();
    let buf_1 = interface.push();
    let buf_2 = interface.push();
    let buf_3 = interface.push();
    let buf_4 = interface.push();

    assert!(!has_duplicates(&[buf_1, buf_2, buf_3, buf_4]));
    assert_eq!(interface.message_count(), 4);
}

#[test]
fn writing_to_msg_until_end_should_work() {
    let mut interface = Interface::new();
    assert!(interface.send(0, 0).is_ok());
    assert!(interface.send(1, 0).is_ok());
    assert!(interface.send(2, 0).is_ok());
    assert!(interface.send(-1, 0).is_ok());

    assert!(interface.send(0, 0).is_err());
    assert!(interface.send(-1, 0).is_err());
}

#[test]
fn send_many_should_never_terminate() {
    let mut interface = Interface::new();
    assert!(interface.send_many(&[0, 0, 1, 3, 2, 5, 12], 0).is_ok());
    assert!(interface.send_many(&[0, 8, 1, 3], 0).is_ok());
    assert!(interface.terminate_message(0).is_ok());

    assert!(interface.send_many(&[1, 4, 3], 0).is_err());
}

#[test]
fn send_to_late_buf_should_fail() {
    let mut interface = Interface::new();
    // No buffers allocated, but 0 should work (next-in-line)
    assert!(interface.send(0, 0).is_ok());
    // Now 1 is next
    assert!(interface.send(0, 1).is_ok());
    // Now 2 is next, so 3 shouldn't work
    assert!(interface.send(0, 3).is_err());
}

#[test]
fn get_should_work() {
    let mut interface = Interface::new();
    interface.send(42, 0).unwrap();
    interface.terminate_message(0).unwrap();

    // This implicitly tests `.get_raw()` as well
    let msg = ready(interface.get::<u8>(0));
    assert!(msg.is_ok());
    assert_eq!(msg.unwrap(), 42);
}

#[test]
fn get_with_wrong_type_should_fail() {
    let mut interface = Interface::new();
    interface.send(42, 0).unwrap();
    interface.terminate_message(0).unwrap();

    let msg = ready(interface.get::<String>(0));
    assert!(msg.is_err());
}

#[test]
fn concurrent_get_should_resolve() {
    let mut interface = Interface::new();

    // Note that this message does not even exist yet
    assert_eq!(interface.get::<String>(1), Progress::Pending);
    // We can terminate before creation (zero-sized)
    interface.terminate_message(0).unwrap();
    interface
        .send_many(&rmp_serde::encode::to_vec("Hello, world!").unwrap(), 1)
        .unwrap();
    // We haven't terminated it yet
    assert_eq!(interface.get::<String>(1), Progress::Pending);
    interface.terminate_message(1).unwrap();

    let msg = ready(interface.get::<String>(1)).unwrap();
    assert_eq!(msg, "Hello, world!");
}

#[test]
fn ordered_errors_should_name_the_message() {
    let mut interface = Interface::new();
    assert_eq!(
        interface.send(0, 3),
        Err(Error::OutOfBounds { index: 3 })
    );
    assert_eq!(interface.send(5, 0), Ok(true));
    assert_eq!(interface.send(-1, 0), Ok(false));
    assert_eq!(
        interface.send_many(&[1], 0),
        Err(Error::AlreadyCompleted { index: 0 })
    );
    assert_eq!(
        interface.terminate_message(0),
        Err(Error::AlreadyCompleted { index: 0 })
    );
    assert_eq!(interface.get_raw(0), Progress::Ready(vec![5]));
    // Nothing is deleted by being read
    assert_eq!(interface.get_raw(0), Progress::Ready(vec![5]));
}

#[test]
fn ordered_procedures_should_get_framed_arguments() {
    let mut interface = Interface::new();
    let buf = interface.get_call_buffer(4, 0, 0);
    assert_eq!(
        interface.call_procedure(4, buf),
        Err(Error::NoSuchProcedure { index: 4 })
    );
    interface.add_procedure(4, 2);
    assert_eq!(
        interface.call_procedure(4, 9),
        Err(Error::NoCallBuffer { index: 9 })
    );
    assert_eq!(
        interface.call_procedure(4, buf),
        Err(Error::CallBufferIncomplete { index: buf })
    );
    interface.send_many(&[1, 2], buf).unwrap();
    interface.terminate_message(buf).unwrap();
    let args = interface.call_procedure(4, buf).unwrap();
    assert_eq!(args, [0x92, 1, 2]);
    assert_eq!(rmp_serde::from_slice::<(u8, u8)>(&args).unwrap(), (1, 2));
}
