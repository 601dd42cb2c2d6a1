use jobd::engine::{container_names, first_name, sort_by_created, ContainerBrief};
use jobd::scheduler::schedule_plan;

fn brief(names: Option<Vec<&str>>, created: Option<i64>) -> ContainerBrief {
    ContainerBrief {
        names: names.map(|ns| ns.into_iter().map(String::from).collect()),
        created,
        status: None,
    }
}

#[test]
fn starts_up_to_the_quota_in_listing_order() {
    let pending = vec![
        brief(Some(vec!["/a"]), Some(10)),
        brief(Some(vec!["/b"]), Some(20)),
        brief(Some(vec!["/c"]), Some(30)),
    ];
    // Quota 2, one active: exactly min(2 - 1, 3) = 1 start, the oldest.
    assert_eq!(schedule_plan(2, 1, &pending), vec!["a".to_string()]);
    // Quota 5, one active: room exceeds the backlog, all three start.
    assert_eq!(
        schedule_plan(5, 1, &pending),
        vec!["a".to_string(), "b".to_string(), "c".to_string()]
    );
}

#[test]
fn a_met_quota_starts_nothing() {
    let pending = vec![brief(Some(vec!["/a"]), Some(10))];
    assert_eq!(schedule_plan(2, 2, &pending), Vec::<String>::new());
    assert_eq!(schedule_plan(2, 3, &pending), Vec::<String>::new());
    assert_eq!(schedule_plan(0, 0, &pending), Vec::<String>::new());
}

#[test]
fn unnamed_records_consume_room_but_do_not_start() {
    let pending = vec![
        brief(None, Some(10)),
        brief(Some(vec!["/b"]), Some(20)),
        brief(Some(vec!["/c"]), Some(30)),
    ];
    // Room for two: the nameless record occupies the first slot.
    assert_eq!(schedule_plan(2, 0, &pending), vec!["b".to_string()]);
}

#[test]
fn empty_backlog_starts_nothing() {
    assert_eq!(schedule_plan(4, 0, &Vec::new()), Vec::<String>::new());
}

#[test]
fn first_name_strips_the_engine_prefix() {
    assert_eq!(
        first_name(&brief(Some(vec!["/a", "/alias"]), None)),
        Some("a".to_string())
    );
    assert_eq!(first_name(&brief(Some(vec!["plain"]), None)), Some("plain".to_string()));
    assert_eq!(first_name(&brief(Some(vec![]), None)), None);
    assert_eq!(first_name(&brief(None, None)), None);
}

#[test]
fn container_names_keeps_listing_order_and_skips_nameless() {
    let list = vec![
        brief(Some(vec!["/x"]), Some(3)),
        brief(None, Some(1)),
        brief(Some(vec!["/y"]), Some(2)),
    ];
    assert_eq!(container_names(&list), vec!["x".to_string(), "y".to_string()]);
}

#[test]
fn sorting_orders_by_creation_stamp() {
    let list = vec![
        brief(Some(vec!["/c"]), Some(30)),
        brief(Some(vec!["/a"]), Some(10)),
        brief(Some(vec!["/b"]), Some(20)),
    ];
    let sorted = sort_by_created(list);
    assert_eq!(container_names(&sorted), vec!["a".to_string(), "b".to_string(), "c".to_string()]);
}

#[test]
fn sorting_puts_missing_stamps_first_and_keeps_everything() {
    let list = vec![
        brief(Some(vec!["/b"]), Some(20)),
        brief(Some(vec!["/n"]), None),
        brief(Some(vec!["/a"]), Some(10)),
        brief(Some(vec!["/m"]), None),
    ];
    let sorted = sort_by_created(list);
    let names = container_names(&sorted);
    assert_eq!(names.len(), 4);
    // Missing stamps sort first; equal keys keep no particular order.
    assert!(names[0] == "n" || names[0] == "m");
    assert!(names[1] == "n" || names[1] == "m");
    assert_ne!(names[0], names[1]);
    assert_eq!(names[2], "a");
    assert_eq!(names[3], "b");
}

#[test]
fn a_newly_created_container_waits_for_room() {
    // Two running at quota 2: a fresh pending container is not started.
    let pending = vec![brief(Some(vec!["/c"]), Some(40))];
    assert_eq!(schedule_plan(2, 2, &pending), Vec::<String>::new());
    // One exits: the following tick starts it.
    assert_eq!(schedule_plan(2, 1, &pending), vec!["c".to_string()]);
}
