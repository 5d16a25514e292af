use git_sentry::coordinator::{
    Coordinator, Decision, Outcome, RegisterError, ResolveError,
};

#[test]
fn register_then_resolve_then_await() {
    let mut c = Coordinator::new();
    let id = c.register(0).unwrap();
    assert!(c.contains_pending(id));
    assert_eq!(c.resolve(id, Decision::Approved), Ok(()));
    assert!(!c.contains_pending(id));
    assert_eq!(c.await_decision(id, 0, 300), Some(Outcome::Approved));
}

#[test]
fn at_most_one_resolution() {
    let mut c = Coordinator::new();
    let id = c.register(0).unwrap();
    assert_eq!(c.resolve(id, Decision::Approved), Ok(()));
    assert_eq!(c.resolve(id, Decision::Denied), Err(ResolveError::NotFound));
    assert_eq!(c.resolve(id, Decision::Approved), Err(ResolveError::NotFound));
    // the first resolution is the one delivered
    assert_eq!(c.await_decision(id, 0, 300), Some(Outcome::Approved));
}

#[test]
fn resolve_unknown_id_is_not_found() {
    let mut c = Coordinator::new();
    assert_eq!(c.resolve(42, Decision::Approved), Err(ResolveError::NotFound));
}

#[test]
fn denied_decision_is_delivered() {
    let mut c = Coordinator::new();
    c.register_with_id(7, 10).unwrap();
    assert_eq!(c.resolve(7, Decision::Denied), Ok(()));
    assert_eq!(c.await_decision(7, 10, 300), Some(Outcome::Denied));
}

#[test]
fn register_with_id_refuses_live_collision() {
    let mut c = Coordinator::new();
    assert_eq!(c.register_with_id(7, 0), Ok(()));
    assert_eq!(c.register_with_id(7, 1), Err(RegisterError::IdCollision));
}

#[test]
fn timeout_removes_the_id() {
    let mut c = Coordinator::new();
    c.register_with_id(9, 0).unwrap();
    // before the deadline the wait goes on
    assert_eq!(c.await_decision(9, 0, 1), None);
    assert!(c.contains_pending(9));
    // at the deadline the wait ends and the id is gone
    assert_eq!(c.await_decision(9, 1, 1), Some(Outcome::TimedOut));
    assert!(!c.contains_pending(9));
    // a decision arriving after the timeout is refused
    assert_eq!(c.resolve(9, Decision::Approved), Err(ResolveError::NotFound));
}

#[test]
fn await_unknown_id_is_coordinator_error() {
    let mut c = Coordinator::new();
    assert_eq!(c.await_decision(1234, 0, 300), Some(Outcome::CoordinatorError));
}

#[test]
fn independent_ids_do_not_interfere() {
    let mut c = Coordinator::new();
    c.register_with_id(1, 0).unwrap();
    c.register_with_id(2, 0).unwrap();
    assert_eq!(c.resolve(1, Decision::Denied), Ok(()));
    assert!(c.contains_pending(2));
    assert_eq!(c.await_decision(1, 0, 300), Some(Outcome::Denied));
    assert_eq!(c.await_decision(2, 500, 300), Some(Outcome::TimedOut));
}
