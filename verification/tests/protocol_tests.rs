use tt_rc_pro::protocol::{
    begin_next_frame, cmd_0c_dims, handshake_advance, cmd_0c_next, cmd_18, cmd_1a, cmd_1d, hid_id_pattern, hid_iocgfeature,
    hid_iocsfeature, init_display, send_chunks, usb_device_path, usb_id_pattern, HandshakeProgress, HidStep, CHUNK, USBDEVFS_RESET,
    USB_PID, USB_VID,
};

#[test]
fn ioctl_numbers() {
    assert_eq!(hid_iocsfeature(64), 0xC040_4806);
    assert_eq!(hid_iocgfeature(64), 0xC040_4807);
    assert_eq!(hid_iocsfeature(0), 0xC000_4806);
    assert_eq!(USBDEVFS_RESET, ((b'U' as u64) << 8) | 20);
}

#[test]
fn feature_reports() {
    let c = cmd_18();
    assert_eq!(&c[..2], &[0x03, 0x18]);
    assert!(c[2..].iter().all(|b| *b == 0));
    assert_eq!(&cmd_1a()[..2], &[0x03, 0x1a]);
    assert_eq!(
        &cmd_0c_dims()[..16],
        &[0x03, 0x0c, 0x64, 0, 0, 0, 0, 0xe0, 0x01, 0x80, 0x00, 0x04, 0x05, 0, 0, 0]
    );
    assert_eq!(&cmd_0c_next()[..9], &[0x03, 0x0c, 0x64, 0xff, 0xff, 0xea, 0xff, 0xff, 0xff]);
    assert_eq!(&cmd_1d()[..9], &[0x03, 0x1d, 0x00, 0xff, 0xff, 0xea, 0xff, 0xff, 0xff]);
    assert_eq!(cmd_1d().len(), 64);
}

#[test]
fn handshake_sequences() {
    let init = init_display();
    assert_eq!(init.len(), 15);
    assert!(matches!(init[0], HidStep::SetFeature(b) if b[1] == 0x18));
    assert!(matches!(init[4], HidStep::GetFeature(0x07)));
    let dims = init.iter().filter(|s| matches!(s, HidStep::SetFeature(b) if b[1] == 0x0c)).count();
    assert_eq!(dims, 4);
    assert!(matches!(init[14], HidStep::SetFeature(b) if b[1] == 0x1d));
    let next = begin_next_frame();
    assert!(matches!(next[0], HidStep::GetFeature(0x0f)));
    assert!(matches!(next[1], HidStep::SetFeature(b) if b[1] == 0x0c && b[3] == 0xff));
    assert!(matches!(next[2], HidStep::SleepMs(20)));
}

#[test]
fn empty_image_has_no_report() {
    assert!(send_chunks(&[]).is_empty());
}

#[test]
fn exact_chunk_image_is_one_last_report() {
    let jpeg: Vec<u8> = (0..CHUNK).map(|i| (i % 251) as u8).collect();
    let r = send_chunks(&jpeg);
    assert_eq!(r.len(), 1);
    assert_eq!(&r[0][..8], &[0x02, 0x09, 0x00, 0x01, 0xf8, 0x03, 0x00, 0x00]);
    assert_eq!(&r[0][8..], &jpeg[..]);
}

#[test]
fn reports_carry_image_and_padding() {
    let jpeg: Vec<u8> = (0..(2 * CHUNK + 5)).map(|i| (i % 7 + 1) as u8).collect();
    let r = send_chunks(&jpeg);
    assert_eq!(r.len(), 3);
    assert_eq!(&r[0][..8], &[0x02, 0x09, 0x00, 0x00, 0xf8, 0x03, 0x00, 0x00]);
    assert_eq!(&r[1][..8], &[0x02, 0x09, 0x00, 0x00, 0xf8, 0x03, 0x01, 0x00]);
    assert_eq!(&r[2][..8], &[0x02, 0x09, 0x00, 0x01, 0x05, 0x00, 0x02, 0x00]);
    let mut payload = Vec::new();
    for rep in &r {
        assert_eq!(rep.len(), 8 + CHUNK);
        payload.extend_from_slice(&rep[8..]);
    }
    assert_eq!(&payload[..jpeg.len()], &jpeg[..]);
    assert!(payload[jpeg.len()..].iter().all(|b| *b == 0));
}

#[test]
fn report_index_is_little_endian() {
    let jpeg = vec![1u8; 300 * CHUNK];
    let r = send_chunks(&jpeg);
    assert_eq!(r.len(), 300);
    assert_eq!(&r[299][6..8], &[0x2b, 0x01]);
}

#[test]
fn device_discovery_texts() {
    assert_eq!(hid_id_pattern(USB_VID, USB_PID), "0000264A:0000232A");
    assert_eq!(usb_id_pattern(USB_VID, USB_PID), "264a/232a");
    assert_eq!(usb_device_path(1, 5), "/dev/bus/usb/001/005");
    assert_eq!(usb_device_path(12, 1234), "/dev/bus/usb/012/1234");
}

#[test]
fn handshake_aborts_only_on_failed_write() {
    let steps = init_display();
    assert!(matches!(steps[0], HidStep::SetFeature(_)));
    assert_eq!(handshake_advance(&steps, 0, true), HandshakeProgress::Next(1));
    assert_eq!(handshake_advance(&steps, 0, false), HandshakeProgress::Aborted);
    let read = steps.iter().position(|s| matches!(s, HidStep::GetFeature(_))).unwrap();
    assert_eq!(handshake_advance(&steps, read, false), HandshakeProgress::Next(read + 1), "a failed read is skipped");
    let last = steps.len() - 1;
    assert_eq!(handshake_advance(&steps, last, true), HandshakeProgress::Done);
    let next = begin_next_frame();
    assert_eq!(handshake_advance(&next, 0, false), HandshakeProgress::Next(1));
    assert_eq!(handshake_advance(&next, 1, false), HandshakeProgress::Aborted);
    assert_eq!(handshake_advance(&next, 2, true), HandshakeProgress::Done);
}
