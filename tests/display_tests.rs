use vm_bridge::display::{
    holder_alive, lock_file_text, on_existing_lock, parse_lock_holder, LockDecision, ProbeResult,
    X11Lock,
};

#[test]
fn lock_text_is_right_aligned_pid() {
    assert_eq!(lock_file_text(1234), b"      1234\n".to_vec());
    assert_eq!(lock_file_text(0), b"         0\n".to_vec());
    assert_eq!(lock_file_text(u32::MAX), b"4294967295\n".to_vec());
    assert_eq!(lock_file_text(1234), format!("{:>10}\n", 1234).into_bytes());
}

#[test]
fn lock_holder_is_read_back() {
    assert_eq!(parse_lock_holder(b"      1234\n"), Some(1234));
    assert_eq!(parse_lock_holder(&lock_file_text(2147483647)), Some(2147483647));
    assert_eq!(parse_lock_holder(b"\t42 \r\n"), Some(42));
    assert_eq!(parse_lock_holder(b"-7"), Some(-7));
    assert_eq!(parse_lock_holder(b"+7"), Some(7));
    assert_eq!(parse_lock_holder(b"-2147483648"), Some(i32::MIN));
}

#[test]
fn unreadable_lock_holder() {
    assert_eq!(parse_lock_holder(b""), None);
    assert_eq!(parse_lock_holder(b"   \n"), None);
    assert_eq!(parse_lock_holder(b"12 34"), None);
    assert_eq!(parse_lock_holder(b"2147483648"), None);
    assert_eq!(parse_lock_holder(b"pid"), None);
    assert_eq!(parse_lock_holder(b"-"), None);
}

#[test]
fn liveness_of_holder() {
    assert!(holder_alive(Some(ProbeResult::Alive)));
    assert!(holder_alive(Some(ProbeResult::Failed)));
    assert!(!holder_alive(Some(ProbeResult::NoSuchProcess)));
    assert!(!holder_alive(Some(ProbeResult::Zombie)));
    assert!(!holder_alive(None));
}

#[test]
fn second_unforced_acquire_conflicts_then_reclaims_after_exit() {
    let first = X11Lock::held(7);
    assert_eq!(first.display(), 7);
    // the first holder is alive: an unforced caller fails
    assert_eq!(on_existing_lock(false, Some(ProbeResult::Alive)), LockDecision::Conflict);
    // the first holder has exited: the stale lock is reclaimed
    assert_eq!(on_existing_lock(false, Some(ProbeResult::NoSuchProcess)), LockDecision::Reclaim);
    assert_eq!(on_existing_lock(false, Some(ProbeResult::Zombie)), LockDecision::Reclaim);
    assert_eq!(on_existing_lock(false, None), LockDecision::Reclaim);
}

#[test]
fn forced_acquire_reclaims_from_live_holder() {
    assert_eq!(on_existing_lock(true, Some(ProbeResult::Alive)), LockDecision::Reclaim);
    assert_eq!(on_existing_lock(true, Some(ProbeResult::Failed)), LockDecision::Reclaim);
    assert_eq!(on_existing_lock(true, None), LockDecision::Reclaim);
}
