use vm_bridge::supervisor::{
    IdentitySupervisor, ListenerAction, ServeUnit, UnitAction, VmId, FATAL_EXIT_CODE,
};

#[test]
fn identity_sequence_binds_rebinds_and_unbinds() {
    let a = VmId { value: 0xa };
    let b = VmId { value: 0xb };
    let c = VmId { value: 0xc };
    let mut s = IdentitySupervisor::new();
    assert_eq!(s.bound_identity(), None);
    let actions: Vec<ListenerAction> =
        [Some(a), Some(a), Some(b), None, Some(c)].iter().map(|id| s.observe(*id)).collect();
    assert_eq!(
        actions,
        vec![
            ListenerAction::Start(a),
            ListenerAction::Keep,
            ListenerAction::Restart(b),
            ListenerAction::Stop,
            ListenerAction::Start(c),
        ]
    );
    assert_eq!(s.bound_identity(), Some(c));
}

#[test]
fn absent_identity_stays_unbound() {
    let mut s = IdentitySupervisor::new();
    assert_eq!(s.observe(None), ListenerAction::Keep);
    assert_eq!(s.observe(None), ListenerAction::Keep);
    assert_eq!(s.bound_identity(), None);
}

#[test]
fn three_consecutive_failures_exit_nonzero() {
    let mut u = ServeUnit::new();
    assert_eq!(u.on_failure(), UnitAction::Retry);
    assert_eq!(u.on_failure(), UnitAction::Retry);
    assert_eq!(u.on_failure(), UnitAction::Exit(FATAL_EXIT_CODE));
    assert_ne!(FATAL_EXIT_CODE, 0);
    assert_eq!(u.strike_count(), 3);
}

#[test]
fn two_failures_then_success_keeps_running() {
    let mut u = ServeUnit::new();
    assert_eq!(u.on_failure(), UnitAction::Retry);
    assert_eq!(u.on_failure(), UnitAction::Retry);
    u.on_accepted();
    assert_eq!(u.strike_count(), 0);
    assert_eq!(u.on_failure(), UnitAction::Retry);
    assert_eq!(u.on_failure(), UnitAction::Retry);
}
