use tower_auth::buffer::{Action, DispatchQueue, Readiness, Submit};

fn dispatched(action: Action<char>) -> char {
    match action {
        Action::Dispatch(c) => c,
        _ => panic!("expected a dispatch"),
    }
}

#[test]
fn dispatches_in_submission_order() {
    let mut q = DispatchQueue::new(3);
    for c in ['A', 'B', 'C'] {
        assert!(matches!(q.submit(c), Submit::Queued));
    }
    let got: Vec<char> = (0..3).map(|_| dispatched(q.step(Readiness::Ready))).collect();
    assert_eq!(got, vec!['A', 'B', 'C']);
    assert!(matches!(q.step(Readiness::Ready), Action::Wait));
}

#[test]
fn capacity_one_slow_service_keeps_order() {
    let mut q = DispatchQueue::new(1);
    let mut waiting = vec!['A', 'B', 'C'];
    let mut received = Vec::new();
    while !waiting.is_empty() || q.len() > 0 {
        if let Some(c) = waiting.first().copied() {
            match q.submit(c) {
                Submit::Queued => {
                    waiting.remove(0);
                }
                Submit::Full(back) => assert_eq!(back, c),
                Submit::Closed(_) => panic!("queue closed"),
            }
        }
        // the service is slow: it is not ready on every other step
        assert!(matches!(q.step(Readiness::NotYet), Action::Wait));
        received.push(dispatched(q.step(Readiness::Ready)));
    }
    assert_eq!(received, vec!['A', 'B', 'C']);
}

#[test]
fn full_queue_pushes_back_until_a_slot_frees() {
    let mut q = DispatchQueue::new(2);
    assert!(matches!(q.submit('a'), Submit::Queued));
    assert!(matches!(q.submit('b'), Submit::Queued));
    assert!(matches!(q.submit('c'), Submit::Full('c')));
    assert_eq!(q.len(), 2);
    assert_eq!(q.capacity(), 2);
    assert_eq!(dispatched(q.step(Readiness::Ready)), 'a');
    assert!(matches!(q.submit('c'), Submit::Queued));
    assert_eq!(dispatched(q.step(Readiness::Ready)), 'b');
    assert_eq!(dispatched(q.step(Readiness::Ready)), 'c');
}

#[test]
fn not_ready_service_gets_nothing() {
    let mut q = DispatchQueue::new(4);
    assert!(matches!(q.submit('x'), Submit::Queued));
    assert!(matches!(q.step(Readiness::NotYet), Action::Wait));
    assert_eq!(q.len(), 1);
}

#[test]
fn failure_reaches_every_waiting_and_later_call() {
    let mut q = DispatchQueue::new(4);
    for c in ['a', 'b', 'c'] {
        assert!(matches!(q.submit(c), Submit::Queued));
    }
    match q.step(Readiness::Failed) {
        Action::Fail(v) => assert_eq!(v, vec!['a', 'b', 'c']),
        _ => panic!("expected the failure to be delivered"),
    }
    assert!(q.is_closed());
    assert_eq!(q.len(), 0);
    assert!(matches!(q.submit('d'), Submit::Closed('d')));
    assert!(matches!(q.step(Readiness::Ready), Action::Wait));
}

#[test]
fn repeated_request_is_dispatched_twice() {
    let mut q = DispatchQueue::new(2);
    assert!(matches!(q.submit('r'), Submit::Queued));
    assert!(matches!(q.submit('r'), Submit::Queued));
    assert_eq!(dispatched(q.step(Readiness::Ready)), 'r');
    assert_eq!(dispatched(q.step(Readiness::Ready)), 'r');
    assert!(matches!(q.step(Readiness::Ready), Action::Wait));
}

#[test]
fn empty_queue_waits() {
    let mut q: DispatchQueue<char> = DispatchQueue::new(1);
    assert!(matches!(q.step(Readiness::Ready), Action::Wait));
    assert!(matches!(q.step(Readiness::Failed), Action::Wait));
    assert!(!q.is_closed());
}
