use typr_lib::storage::{purge_plan, streak_info, StreakInfo};

fn days(v: &[&str]) -> Vec<String> {
    v.iter().map(|d| d.to_string()).collect()
}

#[test]
fn streak_counts_consecutive_days_including_today() {
    let s = streak_info(&days(&["2026-04-21", "2026-04-22", "2026-04-23"]), "2026-04-23").unwrap();
    assert_eq!(s, StreakInfo { current: 3, longest: 3 });
}

#[test]
fn streak_resets_on_gap() {
    let s = streak_info(
        &days(&["2026-04-10", "2026-04-11", "2026-04-20", "2026-04-23"]),
        "2026-04-23",
    )
    .unwrap();
    assert_eq!(s.current, 1, "today is active but yesterday is missing");
    assert_eq!(s.longest, 2, "Apr 10-11 streak");
}

#[test]
fn streak_spans_month_ends_and_skips_bad_dates() {
    let s = streak_info(&days(&["2026-02-27", "2026-02-28", "garbage", "2026-03-01"]), "2026-03-02").unwrap();
    assert_eq!(s.current, 0);
    assert_eq!(s.longest, 3);
    assert_eq!(streak_info(&days(&[]), "2026-03-02").unwrap(), StreakInfo { current: 0, longest: 0 });
    assert!(streak_info(&days(&["2026-03-01"]), "not a date").is_none());
}

#[test]
fn purge_removes_oldest_until_under_cap() {
    assert_eq!(purge_plan(&[100, 100, 100], 150), 2);
    assert_eq!(purge_plan(&[2, 2, 2], 6), 0);
    assert_eq!(purge_plan(&[10, 1], 0), 2);
    assert_eq!(purge_plan(&[], 5), 0);
    assert_eq!(purge_plan(&[2; 10], 5), 8);
}
