use ipfi::ordered::Interface;
use ipfi::{packet_bytes_wanted, BufferWire, Error, IoErrorKind, Progress};

#[test]
fn packets_should_be_framed() {
    let mut wire = BufferWire::new(Vec::new(), vec![9]);
    wire.send_bytes(&[10, 20, 30], 0x0102).unwrap();
    wire.end_message(1).unwrap();
    assert_eq!(
        wire.into_output().unwrap(),
        [9, 2, 1, 0, 0, 3, 0, 0, 0, 10, 20, 30, 1, 0, 0, 0, 0, 0, 0, 0]
    );
}

#[test]
fn packets_should_reach_the_interface() {
    let mut sender = BufferWire::new_write_only(Vec::new());
    sender.send_bytes(&[1, 2], 0).unwrap();
    sender.send_bytes(&[3], 0).unwrap();
    sender.end_message(0).unwrap();
    // The interface does not accept this, which is of no concern to the wire
    sender.send_bytes(&[4], 0).unwrap();

    let mut interface = Interface::new();
    let mut receiver = BufferWire::new_read_only(sender.into_output().unwrap());
    for _ in 0..4 {
        receiver.receive_one(&mut interface).unwrap();
    }
    assert_eq!(interface.get_raw(0), Progress::Ready(vec![1, 2, 3]));
    assert_eq!(
        receiver.receive_one(&mut interface),
        Err(Error::IoError(IoErrorKind::UnexpectedEof))
    );
}

#[test]
fn truncated_packet_should_fail() {
    let mut interface = Interface::new();
    let mut wire = BufferWire::new_read_only(vec![0, 0, 0, 0, 5, 0, 0, 0, 1, 2]);
    assert_eq!(
        wire.receive_one(&mut interface),
        Err(Error::IoError(IoErrorKind::UnexpectedEof))
    );
    assert_eq!(interface.message_count(), 0);
}

#[test]
fn missing_ends_should_silently_do_nothing() {
    let mut interface = Interface::new();
    let mut reader = BufferWire::new_read_only(Vec::new());
    reader.send_bytes(&[1], 0).unwrap();
    assert!(reader.into_output().is_none());
    let mut writer = BufferWire::new_write_only(Vec::new());
    writer.receive_one(&mut interface).unwrap();
    assert_eq!(interface.message_count(), 0);
}

#[test]
fn packets_should_be_collected_exactly() {
    let packet = [2, 0, 0, 0, 3, 0, 0, 0, 7, 8, 9];
    assert_eq!(packet_bytes_wanted(&[]), 8);
    assert_eq!(packet_bytes_wanted(&packet[..5]), 3);
    assert_eq!(packet_bytes_wanted(&packet[..8]), 3);
    assert_eq!(packet_bytes_wanted(&packet[..10]), 1);
    assert_eq!(packet_bytes_wanted(&packet), 0);
    // A length of zero asks for nothing more
    assert_eq!(packet_bytes_wanted(&[2, 0, 0, 0, 0, 0, 0, 0]), 0);
    assert_eq!(
        packet_bytes_wanted(&[0, 0, 0, 0, 255, 255, 255, 255]),
        u32::MAX as usize
    );
}
