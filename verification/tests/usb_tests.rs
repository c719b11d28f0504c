use zkfp::usb::{
    firmware_from_reply, frame_from_bytes, handshake_accepted, hardware_config_writes,
    image_ready, led_register_value, BulkRead, BulkStep, CaptureSession, ControlWrite,
    FirmwareVersion, FrameAssembler, LedColor, PollAction, PollEvent, RawImage, UsbError,
    BULK_IN_ENDPOINT, CMD_GET_GPIO, CMD_GET_IMAGE, CMD_INIT, CMD_SET_GPIO, CTRL_IN, CTRL_OUT,
    GPIO_GET_VERSION, GPIO_LED, IMAGE_SIZE, INTERRUPT_IN_ENDPOINT, ZK9500_PID, ZKTECO_VID,
};

#[test]
fn test_constants() {
    assert_eq!(ZKTECO_VID, 0x1B55);
    assert_eq!(ZK9500_PID, 0x0124);
    assert_eq!(IMAGE_SIZE, 112500);
    assert_eq!(CMD_INIT, 0xE0);
    assert_eq!(CMD_SET_GPIO, 0xE1);
    assert_eq!(CMD_GET_GPIO, 0xE2);
    assert_eq!(CMD_GET_IMAGE, 0xE5);
    assert_eq!(CTRL_OUT, 0x40);
    assert_eq!(CTRL_IN, 0xC0);
    assert_eq!(GPIO_GET_VERSION, 0x55);
    assert_eq!(GPIO_LED, 0x70);
    assert_eq!(BULK_IN_ENDPOINT, 0x82);
    assert_eq!(INTERRUPT_IN_ENDPOINT, 0x81);
}

#[test]
fn test_raw_image_create() {
    let data = vec![128u8; IMAGE_SIZE];
    let img = RawImage::default_size(data).unwrap();
    assert_eq!(img.width, 300);
    assert_eq!(img.height, 375);
    assert_eq!(img.dpi, 500);
    assert_eq!(img.pixel(0, 0), 128);
}

#[test]
fn test_raw_image_invalid_size() {
    let data = vec![0u8; 100];
    let result = RawImage::default_size(data);
    assert!(result.is_err());
}

#[test]
fn test_firmware_version_display() {
    let v = FirmwareVersion { major: 2, minor: 5 };
    assert_eq!(v.to_string(), "2.5");
}

#[test]
fn raw_image_error_and_data() {
    match RawImage::new(2, 2, 500, vec![1, 2, 3]) {
        Err(UsbError::InvalidDimensions { width, height }) => assert_eq!((width, height), (2, 2)),
        other => panic!("unexpected {:?}", other.map(|i| i.width)),
    }
    let img = RawImage::new(2, 2, 96, vec![1, 2, 3, 4]).unwrap();
    assert_eq!(img.data(), &[1, 2, 3, 4]);
    assert_eq!(img.pixel(1, 1), 4);
}

#[test]
fn firmware_version_two_digits() {
    let v = FirmwareVersion { major: 10, minor: 255 };
    assert_eq!(v.to_string(), "10.255");
    assert_eq!(firmware_from_reply(2, &[3, 7, 0, 0]), FirmwareVersion { major: 3, minor: 7 });
    assert_eq!(firmware_from_reply(1, &[3, 7, 0, 0]), FirmwareVersion { major: 0, minor: 0 });
}

#[test]
fn led_values() {
    assert_eq!(led_register_value(LedColor::Green, true), 15);
    assert_eq!(led_register_value(LedColor::White, true), 15);
    assert_eq!(led_register_value(LedColor::Red, true), 16);
    assert_eq!(led_register_value(LedColor::Red, false), 0);
}

#[test]
fn handshake_replies() {
    assert!(handshake_accepted(16, &[0, 0, 0, 0, 9]));
    assert!(!handshake_accepted(16, &[1, 0, 0, 0, 9]));
    assert!(!handshake_accepted(3, &[0, 0, 0, 0]));
    assert!(handshake_accepted(0, &[5, 5, 5, 5]));
    assert!(image_ready(1, 1));
    assert!(!image_ready(0, 1));
    assert!(!image_ready(4, 0));
}

#[test]
fn frame_sizes_from_byte_counts() {
    let full = frame_from_bytes(vec![7u8; 114688]).unwrap();
    assert_eq!((full.width, full.height, full.dpi, full.data.len()), (300, 375, 500, 112500));
    let narrow = frame_from_bytes(vec![7u8; 110000]).unwrap();
    assert_eq!((narrow.width, narrow.height, narrow.data.len()), (288, 375, 108000));
    let partial = frame_from_bytes(vec![7u8; 30250]).unwrap();
    assert_eq!((partial.width, partial.height, partial.data.len()), (300, 100, 30000));
    assert!(frame_from_bytes(vec![7u8; 29999]).is_none());
    assert!(frame_from_bytes(vec![]).is_none());
}

#[test]
fn bulk_assembly_steps() {
    let mut a = FrameAssembler::new();
    assert!(a.wants_more());
    assert_eq!(a.on_read(BulkRead::Timeout), BulkStep::Continue { clear_halt: false, sleep_ms: 0 });
    assert_eq!(a.on_read(BulkRead::Io), BulkStep::Continue { clear_halt: true, sleep_ms: 50 });
    assert_eq!(a.on_read(BulkRead::Bytes(vec![1u8; 16384])), BulkStep::Continue { clear_halt: false, sleep_ms: 0 });
    assert_eq!(a.on_read(BulkRead::Pipe), BulkStep::Continue { clear_halt: true, sleep_ms: 0 });
    assert_eq!(a.on_read(BulkRead::Other), BulkStep::Fail);
    for _ in 0..5 {
        a.on_read(BulkRead::Bytes(vec![1u8; 16384]));
    }
    assert_eq!(a.bytes.len(), 6 * 16384);
    assert_eq!(a.on_read(BulkRead::Bytes(vec![2u8; 12000])), BulkStep::Done { clear_halt: false });
    assert_eq!(a.on_read(BulkRead::Other), BulkStep::Done { clear_halt: true });
    assert_eq!(a.on_read(BulkRead::Timeout), BulkStep::Done { clear_halt: false });
    let img = a.finish().unwrap();
    assert_eq!((img.width, img.height), (288, 375));
}

#[test]
fn capture_polling() {
    assert!(matches!(CaptureSession::start(false), Err(UsbError::NotInitialized)));
    let mut s = CaptureSession::start(true).unwrap();
    assert!(matches!(s.on_poll(PollEvent::StatusFailed), PollAction::Poll { clear_image: false, sleep_ms: 50 }));
    assert_eq!(s.attempts, 1);
    assert!(matches!(s.on_poll(PollEvent::NotReady), PollAction::Poll { clear_image: false, sleep_ms: 100 }));
    assert!(matches!(s.on_poll(PollEvent::NoFrame), PollAction::Poll { clear_image: true, sleep_ms: 0 }));
    for _ in 0..26 {
        assert!(matches!(s.on_poll(PollEvent::NotReady), PollAction::Poll { .. }));
    }
    assert!(matches!(
        s.on_poll(PollEvent::NotReady),
        PollAction::Fail { clear_image: false, error: UsbError::CaptureTimeout(3000) }
    ));
}

#[test]
fn failing_status_reads_end_the_capture() {
    let mut s = CaptureSession::start(true).unwrap();
    for _ in 0..29 {
        assert!(matches!(s.on_poll(PollEvent::StatusFailed), PollAction::Poll { clear_image: false, sleep_ms: 50 }));
    }
    assert!(matches!(
        s.on_poll(PollEvent::StatusFailed),
        PollAction::Fail { clear_image: false, error: UsbError::CaptureTimeout(3000) }
    ));
}

#[test]
fn hardware_configuration_writes() {
    let led = [5u8, 0, 2, 0, 0, 1, 9, 9, 9, 9];
    let exp = [0x34u8, 0x12, 7, 0, 0, 0, 0, 1, 0, 0, 0, 0];
    let w = hardware_config_writes(&led, &exp);
    let expect = vec![
        ControlWrite { request: 0xE1, value: 5 * 256 + 1, index: 0 },
        ControlWrite { request: 0xE1, value: 2 * 256 + 1, index: 2 },
        ControlWrite { request: 0xE1, value: 257, index: 5 },
        ControlWrite { request: 0xA5, value: 7, index: (-91i16) as u16 },
        ControlWrite { request: 0xA5, value: 7, index: (-90i16) as u16 },
        ControlWrite { request: 0xA5, value: 0, index: (-87i16) as u16 },
        ControlWrite { request: 0xA5, value: 0, index: (-86i16) as u16 },
        ControlWrite { request: 0xA5, value: 0x12, index: 3 },
        ControlWrite { request: 0xA5, value: 0x34, index: 4 },
    ];
    assert_eq!(w, expect);
}
