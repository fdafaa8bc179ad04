use repo_embed::points::PointIds;

#[test]
fn point_ids_increase_from_zero() {
    let mut ids = PointIds::new();
    assert_eq!(ids.current(), 0);
    assert!(ids.advance());
    assert_eq!(ids.current(), 1);
    assert!(ids.advance());
    assert_eq!(ids.current(), 2);
}

#[test]
fn point_ids_stop_at_the_largest() {
    let mut ids = PointIds { next: u64::MAX - 1 };
    assert!(ids.advance());
    assert_eq!(ids.current(), u64::MAX);
    assert!(!ids.advance());
    assert_eq!(ids.current(), u64::MAX);
}
