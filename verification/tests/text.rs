use statusline::text::{
    contains_bytes, find_byte_from, nth_segment_bounds, nth_token_bounds, remove_bytes,
};

#[test]
fn find_byte_from_first_occurrence() {
    assert_eq!(find_byte_from(b"a.b.c", b'.', 0), 1);
    assert_eq!(find_byte_from(b"a.b.c", b'.', 2), 3);
    assert_eq!(find_byte_from(b"abc", b'.', 0), 3);
}

#[test]
fn segments_are_split_at_the_separator() {
    let s = b"aa\nbb\ncc";
    assert_eq!(nth_segment_bounds(s, b'\n', 0), Some((0, 2)));
    assert_eq!(nth_segment_bounds(s, b'\n', 1), Some((3, 5)));
    assert_eq!(nth_segment_bounds(s, b'\n', 2), Some((6, 8)));
    assert_eq!(nth_segment_bounds(s, b'\n', 3), None);
}

#[test]
fn empty_segments_exist() {
    let s = b"\n\n";
    assert_eq!(nth_segment_bounds(s, b'\n', 0), Some((0, 0)));
    assert_eq!(nth_segment_bounds(s, b'\n', 2), Some((2, 2)));
    assert_eq!(nth_segment_bounds(s, b'\n', 3), None);
}

#[test]
fn tokens_skip_runs_of_whitespace() {
    let s = b"  Mono:  Playback\t48129 ";
    assert_eq!(nth_token_bounds(s, 0), Some((2, 7)));
    assert_eq!(nth_token_bounds(s, 1), Some((9, 17)));
    assert_eq!(nth_token_bounds(s, 2), Some((18, 23)));
    assert_eq!(nth_token_bounds(s, 3), None);
}

#[test]
fn remove_bytes_drops_both_bytes() {
    assert_eq!(remove_bytes(b"[37%]", b'[', b']'), b"37%".to_vec());
    assert_eq!(remove_bytes(b"a\nb\nc", b'\n', b'\n'), b"abc".to_vec());
    assert_eq!(remove_bytes(b"[[]]", b'[', b']'), b"".to_vec());
}

#[test]
fn contains_bytes_finds_substrings() {
    assert!(contains_bytes(b"Charging\n", b"Charging"));
    assert!(contains_bytes(b"Charging", b"Charging"));
    // The marker is case-sensitive: a discharging unit does not match.
    assert!(!contains_bytes(b"Discharging", b"Charging"));
    assert!(!contains_bytes(b"Full", b"Charging"));
    assert!(!contains_bytes(b"Chargin", b"Charging"));
    assert!(contains_bytes(b"anything", b""));
}
