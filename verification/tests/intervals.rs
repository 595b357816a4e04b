use blackbox_log::intervals::{parse_frame_intervals, FrameIntervals};
use blackbox_log::HeaderMap;

#[test]
fn frame_interval_parsing() {
    let intervals = |i: &str, p: &str| {
        let mut m = HeaderMap::new();
        m.insert("I interval", i);
        m.insert("P interval", p);
        parse_frame_intervals(&m)
    };

    // Current firmware writes a bare denominator...
    assert_eq!(intervals("32", "4"), (32, 1, 4));
    // ...older firmware writes num/denom.
    assert_eq!(intervals("32", "1/2"), (32, 1, 2));
    // Degenerate values are clamped rather than dividing by zero.
    assert_eq!(intervals("0", "0"), (1, 1, 1));
    assert_eq!(parse_frame_intervals(&HeaderMap::new()), (32, 1, 1));
}

#[test]
fn frame_intervals_with_white_space() {
    let intervals = |i: &str, p: &str| {
        let mut m = HeaderMap::new();
        m.insert("I interval", i);
        m.insert("P interval", p);
        parse_frame_intervals(&m)
    };

    assert_eq!(intervals(" 64\r", "\t3 / 8 "), (64, 3, 8));
    assert_eq!(intervals("many", "a/b"), (32, 1, 1));
    assert_eq!(intervals("+7", "/5"), (7, 1, 5));
    assert_eq!(intervals("4294967296", "4294967295"), (32, 1, 4_294_967_295));
    assert_eq!(intervals("-1", "2/0"), (32, 2, 1));
    assert_eq!(intervals("", "1/2/3"), (32, 1, 1));
}

#[test]
fn header_map_keeps_the_last_value() {
    let mut m = HeaderMap::new();
    assert_eq!(m.get("name"), None);
    assert_eq!(m.insert("name", "old"), None);
    assert_eq!(m.insert("name", "new"), Some("old"));
    assert_eq!(m.insert("other", "value"), None);
    assert_eq!(m.get("name"), Some("new"));
    assert_eq!(m.get("other"), Some("value"));
    assert_eq!(m.get("Name"), None);
    assert_eq!(m.len(), 2);
    let mut entries = m.entries();
    entries.sort();
    assert_eq!(entries, vec![("name", "new"), ("other", "value")]);
    assert_eq!(HeaderMap::new().len(), 0);
    assert!(HeaderMap::new().entries().is_empty());
    let copy = m.clone();
    m.insert("name", "newer");
    assert_eq!(copy.get("name"), Some("new"));
    assert_eq!(copy.get("other"), Some("value"));
}

#[test]
fn counts_intentionally_skipped_frames() {
    let count = |i: u32, num: u32, denom: u32, last: u32| {
        FrameIntervals::new(i, num, denom).count_intentionally_skipped_frames(last)
    };

    // 1/1 logs every iteration: nothing is ever skipped.
    for last in 0..8 {
        assert_eq!(count(32, 1, 1, last), 0, "1/1 skipped at {last}");
    }

    // 1/4 writes iterations 0, 4, 8 ... so three are skipped between each.
    assert_eq!(count(32, 1, 4, 0), 3);
    assert_eq!(count(32, 1, 4, 4), 3);

    // 1/2 skips one between each.
    assert_eq!(count(32, 1, 2, 0), 1);
    assert_eq!(count(32, 1, 2, 2), 1);
}

#[test]
fn frames_at_full_rate() {
    let all = FrameIntervals::new(32, 3, 2);
    for index in [0, 1, 2, 31, 32, 33, u32::MAX] {
        assert!(all.should_have_frame(index));
    }
    let largest = FrameIntervals::new(u32::MAX, u32::MAX, u32::MAX);
    assert!(largest.should_have_frame(u32::MAX - 1));
}

#[test]
fn one_frame_in_four() {
    let quarter = FrameIntervals::new(32, 1, 4);
    for index in 0..64u32 {
        assert_eq!(quarter.should_have_frame(index), index % 4 == 0);
    }
    // An intra frame is written although the fraction would leave it out.
    let uneven = FrameIntervals::new(10, 1, 4);
    assert!(uneven.should_have_frame(8));
    assert!(!uneven.should_have_frame(9));
    assert!(uneven.should_have_frame(10));
    assert!(!uneven.should_have_frame(12));
    assert!(uneven.should_have_frame(14));
}

#[test]
fn skipped_run_ends_at_the_next_frame() {
    let uneven = FrameIntervals::new(10, 1, 4);
    // Behind 8 only 9 is skipped, since 10 is an intra frame.
    assert_eq!(uneven.count_intentionally_skipped_frames(8), 1);
    // The count starts again at zero behind the last iteration.
    let rare = FrameIntervals::new(u32::MAX, 1, 1000);
    assert_eq!(rare.count_intentionally_skipped_frames(u32::MAX), 0);
    assert_eq!(rare.count_intentionally_skipped_frames(0), 999);
}
