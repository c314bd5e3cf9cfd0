use ccpast::time::Timestamp;
use ccpast::util::{format_local_short, truncate_to_width};

#[test]
fn truncate_returns_input_when_within_width() {
    assert_eq!(truncate_to_width("hello", 10), "hello");
}

#[test]
fn truncate_handles_ascii_overflow() {
    assert_eq!(truncate_to_width("hello world", 8), "hello w…");
}

#[test]
fn truncate_counts_multibyte_visual_width() {
    // 5 wide characters take 10 cols; we ask for 6 cols, expect "あい…" (5 cols total).
    let out = truncate_to_width("あいうえお", 6);
    assert_eq!(out, "あい…");
}

#[test]
fn truncate_zero_width_returns_empty() {
    assert_eq!(truncate_to_width("hello", 0), "");
}

#[test]
fn truncate_exact_fit_and_one_column() {
    assert_eq!(truncate_to_width("hello", 5), "hello");
    assert_eq!(truncate_to_width("hello", 1), "…");
    assert_eq!(truncate_to_width("", 3), "");
    // Control characters take no columns.
    assert_eq!(truncate_to_width("a\tb", 2), "a\tb");
    // A wide glyph that would straddle the limit is dropped entirely.
    assert_eq!(truncate_to_width("aあい", 4), "aあ…");
}

#[test]
fn format_local_short_renders_known_instant() {
    // 2026-01-02T03:04:05Z
    let ts = Timestamp::from_unix(1_767_323_045, 0).unwrap();
    let out = format_local_short(&ts);
    // Locale-dependent; just verify shape "YYYY-MM-DD HH:MM"
    assert_eq!(out.len(), 16);
    assert_eq!(&out[4..5], "-");
    assert_eq!(&out[7..8], "-");
    assert_eq!(&out[10..11], " ");
    assert_eq!(&out[13..14], ":");
}

#[test]
fn timestamps_outside_chrono_range_are_refused() {
    assert!(Timestamp::from_unix(i64::MAX, 0).is_none());
    assert!(Timestamp::from_unix(0, 2_000_000_000).is_none());
    assert!(Timestamp::from_unix(59, 1_500_000_000).is_some());
    let a = Timestamp::from_unix(10, 5).unwrap();
    let b = Timestamp::from_unix(10, 6).unwrap();
    assert!(b.is_after(&a));
    assert!(!a.is_after(&b));
    assert!(!a.is_after(&Timestamp::from_unix(10, 5).unwrap()));
}

#[test]
fn text_that_fits_in_zero_columns_comes_back() {
    // A lone control character has no width, so it fits in zero columns.
    assert_eq!(truncate_to_width("\u{1}", 0), "\u{1}");
    assert_eq!(truncate_to_width("", 0), "");
    assert_eq!(truncate_to_width("a\u{1}", 0), "");
    // The ellipsis takes one column.
    assert_eq!(truncate_to_width("\u{2026}", 1), "\u{2026}");
    assert_eq!(truncate_to_width("ab", 1), "\u{2026}");
}

#[test]
fn local_short_time_is_within_a_day_of_utc() {
    // 2026-01-02T03:04:05Z: any local offset under a day gives 2026-01-01,
    // 2026-01-02 or 2026-01-03.
    let ts = Timestamp::from_unix(1_767_323_045, 0).unwrap();
    let out = format_local_short(&ts);
    assert!(
        out.starts_with("2026-01-01 ") || out.starts_with("2026-01-02 ")
            || out.starts_with("2026-01-03 "),
        "{out}"
    );
    let minutes: u32 = out[14..16].parse().unwrap();
    assert!(minutes < 60);
}
