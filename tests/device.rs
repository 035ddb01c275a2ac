use sysmaster_core::device_monitor::{monitor_header, payload_start};

#[test]
fn kernel_uevent_payload_follows_prefix() {
    let msg = b"change@/devices/virtual/block/sda\0ACTION=change\0DEVNAME=/dev/sda\0";
    assert_eq!(payload_start(msg), Some(34));
    assert_eq!(&msg[34..48], b"ACTION=change\0");
}

#[test]
fn own_messages_skip_header() {
    let mut msg = monitor_header(10);
    assert_eq!(msg.len(), 40);
    assert_eq!(&msg[0..8], b"libdevm\0");
    assert_eq!(&msg[8..12], &[254, 237, 190, 239]);
    assert_eq!(&msg[20..24], &[0, 0, 0, 10]);
    msg.extend_from_slice(b"A=1\0B=22\0\0");
    assert_eq!(payload_start(&msg), Some(40));
    assert_eq!(monitor_header(0x01020304)[20..24], [1, 2, 3, 4]);
}

#[test]
fn other_messages_are_refused() {
    assert_eq!(payload_start(b"hello\0world"), None);
    assert_eq!(payload_start(b""), None);
    assert_eq!(payload_start(b"libdevm\0short"), None);
    assert_eq!(payload_start(b"add@/x"), Some(6));
}
