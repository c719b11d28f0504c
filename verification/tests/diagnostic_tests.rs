use zkfp::diagnostic::{
    ascii_preview, buffer_stats, check_geometries, gray_bmp_bytes, is_flat, preview_geometry,
    CheckCapture,
};
use zkfp::usb::{BulkRead, BulkStep};

#[test]
fn gray_bmp_layout() {
    let bmp = gray_bmp_bytes(&[1, 2, 3, 4, 5, 6], 3, 2);
    assert_eq!(bmp.len(), 1086);
    assert_eq!(&bmp[0..2], b"BM");
    assert_eq!(&bmp[2..6], &[0x3E, 0x04, 0, 0]);
    assert_eq!(&bmp[6..10], &[0, 0, 0, 0]);
    assert_eq!(&bmp[10..14], &[0x36, 0x04, 0, 0]);
    assert_eq!(&bmp[14..18], &[40, 0, 0, 0]);
    assert_eq!(&bmp[18..22], &[3, 0, 0, 0]);
    // top-down: the height is stored negated
    assert_eq!(&bmp[22..26], &[0xFE, 0xFF, 0xFF, 0xFF]);
    assert_eq!(&bmp[26..30], &[1, 0, 8, 0]);
    assert_eq!(&bmp[30..34], &[0, 0, 0, 0]);
    assert_eq!(&bmp[34..38], &[8, 0, 0, 0]);
    assert_eq!(&bmp[38..46], &[0x13, 0x0B, 0, 0, 0x13, 0x0B, 0, 0]);
    assert_eq!(&bmp[46..54], &[0, 1, 0, 0, 0, 0, 0, 0]);
    assert_eq!(&bmp[54..58], &[0, 0, 0, 0]);
    assert_eq!(&bmp[54 + 4 * 200..54 + 4 * 201], &[200, 200, 200, 0]);
    assert_eq!(&bmp[1078..], &[1, 2, 3, 0, 4, 5, 6, 0]);
}

#[test]
fn gray_bmp_short_data_is_black() {
    let bmp = gray_bmp_bytes(&[9], 2, 2);
    assert_eq!(&bmp[1078..], &[9, 0, 0, 0, 0, 0, 0, 0]);
    let empty = gray_bmp_bytes(&[], 0, 0);
    assert_eq!(empty.len(), 1078);
    assert_eq!(&empty[22..26], &[0, 0, 0, 0]);
}

#[test]
fn ascii_preview_samples() {
    let lines = ascii_preview(&[0, 255, 128, 26], 2, 2);
    assert_eq!(lines, vec![" @".to_string(), "= ".to_string()]);
    let frame = vec![0u8; 300 * 375];
    let lines = ascii_preview(&frame, 300, 375);
    assert_eq!(lines.len(), 20);
    assert!(lines.iter().all(|l| l.len() == 40 && l.chars().all(|c| c == ' ')));
    let short = ascii_preview(&[255], 3, 1);
    assert_eq!(short, vec!["@  ".to_string()]);
}

#[test]
fn buffer_statistics() {
    assert!(buffer_stats(&[]).is_none());
    let st = buffer_stats(&[10, 20, 30]).unwrap();
    assert_eq!((st.len, st.min, st.max, st.sum, st.sum_sq), (3, 10, 30, 60, 1400));
    assert!(!is_flat(&st));
    let flat = buffer_stats(&[5, 5, 5, 6]).unwrap();
    assert!(is_flat(&flat));
}

#[test]
fn preview_geometries() {
    assert_eq!(preview_geometry(112500), Some((300, 375)));
    assert_eq!(preview_geometry(108000), Some((288, 375)));
    assert_eq!(preview_geometry(3300), Some((300, 11)));
    assert_eq!(preview_geometry(3000), None);
    assert_eq!(preview_geometry(0), None);
    assert_eq!(check_geometries(), vec![(300, 375), (300, 360), (288, 375), (256, 360)]);
}

#[test]
fn check_capture_steps() {
    let mut c = CheckCapture::new();
    assert_eq!(c.on_read(BulkRead::Timeout), BulkStep::Continue { clear_halt: false, sleep_ms: 0 });
    assert_eq!(c.on_read(BulkRead::Io), BulkStep::Continue { clear_halt: true, sleep_ms: 50 });
    assert_eq!(c.on_read(BulkRead::Bytes(vec![7; 100])), BulkStep::Continue { clear_halt: false, sleep_ms: 0 });
    assert_eq!(c.bytes.len(), 100);
    assert_eq!(c.on_read(BulkRead::Pipe), BulkStep::Continue { clear_halt: true, sleep_ms: 0 });
    assert_eq!(c.on_read(BulkRead::Timeout), BulkStep::Done { clear_halt: false });
    assert_eq!(c.on_read(BulkRead::Bytes(vec![1; 112400])), BulkStep::Done { clear_halt: false });
    assert_eq!(c.on_read(BulkRead::Overflow), BulkStep::Done { clear_halt: true });
    assert_eq!(c.on_read(BulkRead::Other), BulkStep::Fail);
    assert_eq!(c.bytes.len(), 112500);
}
