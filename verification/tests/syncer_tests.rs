use ape_dts::syncer::Syncer;

#[test]
fn advances_monotonically() {
    let mut s = Syncer::new(i64::MIN, String::new());
    assert!(s.set(3, "offset:3".to_string()));
    assert!(s.set(7, "offset:7".to_string()));
    let (ord, pos) = s.get();
    assert_eq!(ord, 7);
    assert_eq!(pos, "offset:7");
}

#[test]
fn lesser_update_is_a_rejected_no_op() {
    let mut s = Syncer::new(i64::MIN, String::new());
    assert!(s.set(7, "offset:7".to_string()));
    assert!(!s.set(3, "offset:3".to_string()));
    let (ord, pos) = s.get();
    assert_eq!(ord, 7);
    assert_eq!(pos, "offset:7");
}

#[test]
fn equal_update_is_accepted() {
    let mut s = Syncer::new(i64::MIN, String::new());
    assert!(s.set(7, "offset:7".to_string()));
    assert!(s.set(7, "offset:7".to_string()));
    assert_eq!(s.get().0, 7);
}

#[test]
fn seeded_syncer_reports_its_seed() {
    let s = Syncer::new(42, "offset:42".to_string());
    let (ord, pos) = s.get();
    assert_eq!(ord, 42);
    assert_eq!(pos, "offset:42");
}
