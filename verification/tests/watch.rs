use cadence_core::watch::{translate, ChangeKind, PendingChanges, WatchEvent, DEBOUNCE_MS};

#[test]
fn notifications_translate_per_path() {
    let paths = vec!["/a".to_owned(), "/b".to_owned()];
    assert_eq!(
        translate(ChangeKind::Create, paths.clone()),
        vec![WatchEvent::Upserted("/a".into()), WatchEvent::Upserted("/b".into())]
    );
    assert_eq!(
        translate(ChangeKind::Modify, vec!["/a".to_owned()]),
        vec![WatchEvent::Upserted("/a".into())]
    );
    assert_eq!(
        translate(ChangeKind::Remove, paths.clone()),
        vec![WatchEvent::Removed("/a".into()), WatchEvent::Removed("/b".into())]
    );
    assert!(translate(ChangeKind::Other, paths).is_empty());
}

#[test]
fn changes_wait_for_the_debounce() {
    let mut p = PendingChanges::new();
    assert!(p.is_empty());
    p.note("/a".into(), 1_000);
    p.note("/b".into(), 1_200);
    assert!(p.take_due(1_400, DEBOUNCE_MS).is_empty());
    assert_eq!(p.take_due(1_500, DEBOUNCE_MS), vec!["/a".to_owned()]);
    assert!(!p.is_empty());
    assert_eq!(p.take_due(1_700, DEBOUNCE_MS), vec!["/b".to_owned()]);
    assert!(p.is_empty());
}

#[test]
fn a_new_change_restarts_the_wait() {
    let mut p = PendingChanges::new();
    p.note("/a".into(), 1_000);
    p.note("/a".into(), 1_400);
    assert!(p.take_due(1_600, DEBOUNCE_MS).is_empty());
    assert_eq!(p.take_due(1_900, DEBOUNCE_MS), vec!["/a".to_owned()]);
    assert!(p.take_due(10_000, DEBOUNCE_MS).is_empty());
}

#[test]
fn a_clock_going_back_is_not_due() {
    let mut p = PendingChanges::new();
    p.note("/a".into(), 5_000);
    assert!(p.take_due(4_000, 0).is_empty());
    assert_eq!(p.take_due(5_000, 0), vec!["/a".to_owned()]);
}
