use plotline::moment::{Moment, Timeline};
use std::sync::Arc;

#[test]
fn moment_must_equals_to_itself_only() {
    let moment_a = Moment::default();
    assert_eq!(moment_a, moment_a, "a moment must equals itself");

    let moment_b = Moment::default();
    assert_ne!(moment_a, moment_b, "two equivalent moments must not equal");
}

#[test]
fn moment_must_compare_in_its_timeline_only() {
    let _moment_a = Moment::default();
    let _moment_b = Moment::default();
}

#[test]
fn moment_compares_equal_to_itself_only() {
    let moment_a = Moment::default();
    let moment_b = Moment::default();
    assert_eq!(
        moment_a.partial_cmp(&moment_a),
        Some(std::cmp::Ordering::Equal)
    );
    assert_eq!(moment_a.partial_cmp(&moment_b), None);
}

#[test]
fn timeline_walks_forwards_and_backwards() {
    let last = Arc::new(Moment::default());
    let first = Arc::new(Moment::default().with_after(last.clone()));

    let mut forwards = Timeline::from(first.clone());
    let walked = forwards.next().unwrap();
    assert!(Arc::ptr_eq(&walked, &first));
    let walked = forwards.next().unwrap();
    assert!(Arc::ptr_eq(&walked, &last));
    assert!(forwards.next().is_none());
    assert!(forwards.next().is_none());

    let middle = Arc::new(Moment::default().with_before(first.clone()));
    let mut backwards = Timeline::from(middle.clone());
    let walked = backwards.next_back().unwrap();
    assert!(Arc::ptr_eq(&walked, &middle));
    let walked = backwards.next_back().unwrap();
    assert!(Arc::ptr_eq(&walked, &first));
    assert!(backwards.next_back().is_none());
}

#[test]
fn with_before_and_with_after_set_the_neighbours() {
    let before = Arc::new(Moment::default());
    let after = Arc::new(Moment::default());
    let moment = Moment::default()
        .with_before(before.clone())
        .with_after(after.clone());
    assert!(Arc::ptr_eq(moment.before.as_ref().unwrap(), &before));
    assert!(Arc::ptr_eq(moment.after.as_ref().unwrap(), &after));
}

#[test]
fn moments_compare_along_their_timeline() {
    let last = Arc::new(Moment::default());
    let middle = Arc::new(Moment::default().with_after(last.clone()));
    let first = Moment::default().with_after(middle.clone());
    assert_eq!(first.partial_cmp(&*middle), Some(std::cmp::Ordering::Less));
    assert_eq!(first.partial_cmp(&*last), Some(std::cmp::Ordering::Less));
    let later = Moment::default().with_before(middle.clone());
    assert_eq!(later.partial_cmp(&*middle), Some(std::cmp::Ordering::Greater));
    assert_eq!((*last).partial_cmp(&first), None);
    assert!(first < *middle);
}
