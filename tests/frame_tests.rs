use cc_hook::frame::{FrameDetector, DEBOUNCE_MS, DEBOUNCE_NS, MAX_BYTES_WITHOUT_NEWLINE};

const MS: u64 = 1_000_000;

#[test]
fn test_debounce_detection() {
    let mut detector = FrameDetector::new();

    detector.on_data_at(b"Hello", 0);
    assert!(!detector.should_capture_frame_at(0));

    assert!(detector.should_capture_frame_at(20 * MS));
}

#[test]
fn test_large_data_detection() {
    let mut detector = FrameDetector::new();

    let large_data = vec![b'a'; MAX_BYTES_WITHOUT_NEWLINE + 100];
    detector.on_data(&large_data);

    assert!(detector.should_capture_frame());
}

#[test]
fn debounce_window_is_sixteen_ms() {
    let mut d = FrameDetector::new();
    d.on_data_at(b"abc", 100 * MS);
    assert!(!d.should_capture_frame_at(100 * MS));
    assert!(!d.should_capture_frame_at(116 * MS - 1));
    assert!(d.should_capture_frame_at(116 * MS));
    assert_eq!(DEBOUNCE_MS, 16);
    assert_eq!(DEBOUNCE_NS, 16 * MS);
}

#[test]
fn close_writes_keep_frame_pending() {
    let mut d = FrameDetector::new();
    let mut t: u64 = 0;
    for _ in 0..100 {
        d.on_data_at(b"0123456789", t);
        assert!(!d.should_capture_frame_at(t + 10 * MS));
        t += 10 * MS;
    }
    assert!(d.should_capture_frame_at(t - 10 * MS + 16 * MS));
}

#[test]
fn exactly_threshold_bytes_is_not_enough() {
    let mut d = FrameDetector::new();
    d.on_data_at(&vec![b'x'; 4096], 5 * MS);
    assert!(!d.should_capture_frame_at(5 * MS));
    d.on_data_at(b"x", 5 * MS);
    assert!(d.should_capture_frame_at(5 * MS));
}

#[test]
fn newline_restarts_byte_count() {
    let mut d = FrameDetector::new();
    let mut data = vec![b'x'; 5000];
    data.push(b'\n');
    data.extend_from_slice(b"tail");
    d.on_data_at(&data, 7 * MS);
    assert!(!d.should_capture_frame_at(7 * MS));
}

#[test]
fn reset_clears_count_but_not_time() {
    let mut d = FrameDetector::new();
    d.on_data_at(&vec![b'x'; 5000], 50 * MS);
    assert!(d.should_capture_frame_at(50 * MS));
    d.reset();
    assert!(!d.should_capture_frame_at(50 * MS));
    assert!(d.should_capture_frame_at(66 * MS));
}

#[test]
fn clock_before_last_byte_counts_as_no_time() {
    let mut d = FrameDetector::new();
    d.on_data_at(b"a", 1000 * MS);
    assert!(!d.should_capture_frame_at(10 * MS));
}
