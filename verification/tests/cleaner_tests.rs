use jobd::cleaner::{cleaning_threshold, removal_names};
use jobd::engine::InspectBrief;

fn inspected(name: Option<&str>, finished_at: Option<&str>) -> InspectBrief {
    InspectBrief {
        name: name.map(String::from),
        finished_at: finished_at.map(String::from),
    }
}

#[test]
fn threshold_is_now_minus_age() {
    assert_eq!(cleaning_threshold(1000, 60), Some(940));
    assert_eq!(cleaning_threshold(0, 100), Some(-100));
    assert_eq!(cleaning_threshold(i64::MIN + 5, 10), None);
}

#[test]
fn removes_only_finishes_strictly_before_the_threshold() {
    // A container that exited at T = 0 (the epoch instant).
    let exited_at_t = vec![inspected(Some("/x"), Some("1970-01-01T00:00:00Z"))];
    // Tick at T+59 with a retention of 60: threshold T-1, kept.
    assert_eq!(
        removal_names(&exited_at_t, cleaning_threshold(59, 60).unwrap()),
        Vec::<String>::new()
    );
    // Tick exactly at T+60: threshold T, the strict comparison keeps it.
    assert_eq!(
        removal_names(&exited_at_t, cleaning_threshold(60, 60).unwrap()),
        Vec::<String>::new()
    );
    // Tick at T+61: threshold T+1, removed.
    assert_eq!(
        removal_names(&exited_at_t, cleaning_threshold(61, 60).unwrap()),
        vec!["x".to_string()]
    );
}

#[test]
fn skippable_records_do_not_qualify() {
    let threshold = 1000;
    let records = vec![
        // No name: skipped.
        inspected(None, Some("1970-01-01T00:00:00Z")),
        // No finish time: skipped.
        inspected(Some("/a"), None),
        // Unreadable finish time: skipped.
        inspected(Some("/b"), Some("not a timestamp")),
        // Old enough: removed.
        inspected(Some("/c"), Some("1970-01-01T00:00:30Z")),
    ];
    assert_eq!(removal_names(&records, threshold), vec!["c".to_string()]);
}

#[test]
fn removal_keeps_listing_order() {
    let records = vec![
        inspected(Some("/late"), Some("1970-01-01T00:10:00Z")),
        inspected(Some("/early"), Some("1970-01-01T00:00:00Z")),
    ];
    assert_eq!(
        removal_names(&records, 3600),
        vec!["late".to_string(), "early".to_string()]
    );
}

#[test]
fn nothing_qualifies_on_an_empty_listing() {
    assert_eq!(removal_names(&Vec::new(), 0), Vec::<String>::new());
}
