use openthread::signal::Signal;

#[test]
fn signal_before_wait_ends_the_next_wait_once() {
    let mut signal: Signal<u32> = Signal::new();
    assert_eq!(signal.signal(), None);
    assert!(signal.is_pending());
    assert!(signal.poll_wait(1));
    assert!(!signal.is_pending());
    assert!(!signal.is_waiting());
    assert!(!signal.poll_wait(1));
    assert!(signal.is_waiting());
}

#[test]
fn two_signals_without_a_wait_count_as_one() {
    let mut signal: Signal<u32> = Signal::new();
    assert_eq!(signal.signal(), None);
    assert_eq!(signal.signal(), None);
    assert!(signal.poll_wait(7));
    assert!(!signal.poll_wait(7));
}

#[test]
fn signal_wakes_the_waiter() {
    let mut signal: Signal<u32> = Signal::new();
    assert!(!signal.poll_wait(5));
    assert_eq!(signal.signal(), Some(5));
    assert!(!signal.is_waiting());
    assert!(!signal.is_pending());
    assert_eq!(signal.signal(), None);
    assert!(signal.is_pending());
}

#[test]
fn second_waiter_replaces_the_first() {
    let mut signal: Signal<u32> = Signal::new();
    assert!(!signal.poll_wait(1));
    assert!(!signal.poll_wait(2));
    assert_eq!(signal.signal(), Some(2));
    assert_eq!(signal.signal(), None);
}

#[test]
fn cancel_removes_the_registration() {
    let mut signal: Signal<u32> = Signal::new();
    assert!(!signal.poll_wait(1));
    signal.cancel();
    assert!(!signal.is_waiting());
    assert_eq!(signal.signal(), None);
    assert!(signal.is_pending());
    signal.cancel();
    assert!(signal.is_pending());
}

#[test]
fn poll_of_a_registered_waiter_ends_after_the_signal() {
    let mut signal: Signal<u32> = Signal::new();
    assert_eq!(signal.poll(false, 1), (false, true));
    assert_eq!(signal.poll(true, 1), (false, true));
    assert_eq!(signal.signal(), Some(1));
    assert_eq!(signal.poll(true, 1), (true, false));
    assert!(!signal.is_pending() && !signal.is_waiting());
    assert_eq!(signal.signal(), None);
    assert_eq!(signal.poll(false, 2), (true, false));
    assert_eq!(signal.poll(false, 2), (false, true));
}
