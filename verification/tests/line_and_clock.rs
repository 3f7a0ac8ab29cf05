use statusline::clock::{time_reading, Timestamp};
use statusline::line::{battery_pair, status_line};

#[test]
fn battery_pair_joins_with_space() {
    let r = battery_pair(b"0: 80%", b"C: 100%");
    assert_eq!(r, b"0: 80% C: 100%".to_vec());
}

#[test]
fn status_line_frames_the_readings() {
    let r = status_line(b"37%", b"42%", b"0: 80% C: 100%", b"2024-01-01 00:00:00");
    assert_eq!(
        r,
        b"[V: 37%] [B: 42%] [0: 80% C: 100%] [2024-01-01 00:00:00]\0".to_vec()
    );
}

#[test]
fn status_line_strips_line_feeds_from_any_input() {
    let r = status_line(b"37%\n", b"\n42%", b"0: 80\n% C: 100%", b"2024-01-01 00:00:00\n");
    assert_eq!(
        r,
        b"[V: 37%] [B: 42%] [0: 80% C: 100%] [2024-01-01 00:00:00]\0".to_vec()
    );
    assert!(!r.contains(&b'\n'));
}

#[test]
fn timestamp_format_is_zero_padded() {
    let ts = Timestamp { year: 2024, month: 1, day: 1, hour: 0, minute: 0, second: 0 };
    assert_eq!(ts.format(), b"2024-01-01 00:00:00".to_vec());
    let ts = Timestamp { year: 999, month: 12, day: 31, hour: 23, minute: 59, second: 9 };
    assert_eq!(ts.format(), b"0999-12-31 23:59:09".to_vec());
}

#[test]
fn time_reading_has_the_clock_shape() {
    let r = time_reading().expect("the clock year should have four digits");
    assert_eq!(r.len(), 19);
    assert_eq!(r[4], b'-');
    assert_eq!(r[7], b'-');
    assert_eq!(r[10], b' ');
    assert_eq!(r[13], b':');
    assert_eq!(r[16], b':');
    for &b in &r {
        assert!(b.is_ascii_digit() || b == b'-' || b == b' ' || b == b':');
    }
}
