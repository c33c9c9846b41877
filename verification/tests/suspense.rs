use suspense_core::suspense::SuspenseContext;

#[test]
fn new_context_is_ready() {
    let cx = SuspenseContext::new();
    assert!(cx.is_ready());
    assert_eq!(cx.pending(), 0);
}

#[test]
fn read_makes_the_boundary_wait() {
    let mut cx = SuspenseContext::new();
    cx.track_read();
    assert!(!cx.is_ready());
    assert_eq!(cx.pending(), 1);
}

#[test]
fn resolution_answers_a_read() {
    let mut cx = SuspenseContext::new();
    cx.track_read();
    assert!(cx.track_resolution());
    assert!(cx.is_ready());
    assert_eq!(cx.pending(), 0);
}

#[test]
fn ready_only_when_every_read_has_resolved() {
    let mut cx = SuspenseContext::new();
    cx.track_read();
    cx.track_read();
    cx.track_read();
    assert_eq!(cx.pending(), 3);
    assert!(cx.track_resolution());
    assert!(!cx.is_ready());
    assert!(cx.track_resolution());
    assert!(!cx.is_ready());
    assert_eq!(cx.pending(), 1);
    assert!(cx.track_resolution());
    assert!(cx.is_ready());
}

#[test]
fn interleaved_reads_and_resolutions_balance() {
    let mut cx = SuspenseContext::new();
    cx.track_read();
    assert!(cx.track_resolution());
    assert!(cx.is_ready());
    cx.track_read();
    cx.track_read();
    assert!(cx.track_resolution());
    assert!(!cx.is_ready());
    assert!(cx.track_resolution());
    assert!(cx.is_ready());
}

#[test]
fn stray_resolution_is_reported_and_clamped() {
    let mut cx = SuspenseContext::new();
    assert!(!cx.track_resolution());
    assert_eq!(cx.pending(), 0);
    assert!(cx.is_ready());
    assert!(!cx.track_resolution());
    assert_eq!(cx.pending(), 0);
}

#[test]
fn stray_resolution_does_not_answer_a_later_read() {
    let mut cx = SuspenseContext::new();
    assert!(!cx.track_resolution());
    cx.track_read();
    assert_eq!(cx.pending(), 1);
    assert!(!cx.is_ready());
}

#[test]
fn contexts_count_independently() {
    let mut outer = SuspenseContext::new();
    let mut inner = SuspenseContext::new();
    outer.track_read();
    inner.track_read();
    inner.track_read();
    assert_eq!(outer.pending(), 1);
    assert_eq!(inner.pending(), 2);
    assert!(inner.track_resolution());
    assert_eq!(outer.pending(), 1);
    assert_eq!(inner.pending(), 1);
}

#[test]
fn read_counts_for_the_nearest_enclosing_boundary() {
    let mut scope = suspense_core::suspense::ReadScope::new();
    assert_eq!(scope.depth(), 0);
    scope.enter();
    assert!(scope.track_read());
    scope.enter();
    assert_eq!(scope.depth(), 2);
    assert!(scope.track_read());
    assert!(scope.track_read());
    let inner = scope.leave().unwrap();
    assert_eq!(inner.pending(), 2);
    assert!(scope.track_read());
    let outer = scope.leave().unwrap();
    assert_eq!(outer.pending(), 2);
    assert_eq!(scope.depth(), 0);
    assert!(scope.leave().is_none());
}

#[test]
fn read_outside_every_boundary_is_not_tracked() {
    let mut scope = suspense_core::suspense::ReadScope::new();
    assert!(!scope.track_read());
    scope.enter();
    let context = scope.leave().unwrap();
    assert!(context.is_ready());
    assert!(!scope.track_read());
}
