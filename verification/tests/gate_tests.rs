use libserpix_rs::gate::SequenceGate;

#[test]
fn fresh_gate_lets_any_first_header_pass() {
    for sequence in [0u8, 1, 15, 255] {
        let mut gate = SequenceGate::new();
        assert_eq!(gate.last, None);
        assert!(gate.accept(sequence));
        assert_eq!(gate.last, Some(sequence));
    }
}

#[test]
fn same_sequence_n_times_passes_once() {
    for n in 1..50usize {
        let mut gate = SequenceGate::new();
        let passed = (0..n).filter(|_| gate.accept(42)).count();
        assert_eq!(passed, 1);
        assert_eq!(n - passed, n - 1);

        let mut gate = SequenceGate::new();
        assert_eq!(gate.accept_all(&vec![42; n]), 1);
        assert_eq!(gate.last, Some(42));
    }
}

#[test]
fn repeat_of_the_stored_sequence_is_suppressed() {
    let mut gate = SequenceGate { last: Some(7) };
    assert!(!gate.accept(7));
    assert_eq!(gate.last, Some(7));
    assert_eq!(gate.accept_all(&vec![7; 10]), 0);
}

#[test]
fn a_different_sequence_always_passes() {
    let mut gate = SequenceGate::new();
    assert_eq!(gate.accept_all(&vec![1, 2, 3, 2, 1]), 5);
    assert_eq!(gate.last, Some(1));
    assert_eq!(gate.accept_all(&vec![1, 1, 2, 2, 2, 1, 3, 3]), 3);
    assert_eq!(gate.last, Some(3));
    assert_eq!(gate.accept_all(&Vec::new()), 0);
    assert_eq!(gate.last, Some(3));
}

#[test]
fn gate_does_not_notice_a_wrapped_counter() {
    let mut gate = SequenceGate::new();
    assert!(gate.accept(255));
    assert!(gate.accept(0));
    assert!(gate.accept(255));
    assert!(!gate.accept(255));
}
