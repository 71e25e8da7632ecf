use svg_tiles::access::{AccessEvent, AccessState};

fn counters(state: &AccessState) -> (u64, bool, u64) {
    (state.readers(), state.is_writing(), state.queued_writers())
}

#[test]
fn new_lock_is_free() {
    assert_eq!(counters(&AccessState::new()), (0, false, 0));
}

#[test]
fn readers_share() {
    let mut state = AccessState::new();
    assert!(state.step(AccessEvent::RequestRead));
    assert!(state.step(AccessEvent::RequestRead));
    assert!(state.step(AccessEvent::RequestRead));
    assert_eq!(counters(&state), (3, false, 0));
    assert!(state.step(AccessEvent::ReleaseRead));
    assert_eq!(counters(&state), (2, false, 0));
}

#[test]
fn writer_waits_for_readers() {
    let mut state = AccessState::new();
    assert!(state.step(AccessEvent::RequestRead));
    assert!(state.step(AccessEvent::RequestRead));
    assert!(state.step(AccessEvent::QueueWrite));
    assert!(!state.step(AccessEvent::RequestWrite));
    assert_eq!(counters(&state), (2, false, 1));
    assert!(state.step(AccessEvent::ReleaseRead));
    assert!(!state.step(AccessEvent::RequestWrite));
    assert!(state.step(AccessEvent::ReleaseRead));
    assert!(state.step(AccessEvent::RequestWrite));
    assert_eq!(counters(&state), (0, true, 0));
}

#[test]
fn queued_writer_keeps_new_readers_out() {
    let mut state = AccessState::new();
    assert!(state.step(AccessEvent::RequestRead));
    assert!(state.step(AccessEvent::QueueWrite));
    assert!(!state.step(AccessEvent::RequestRead));
    assert_eq!(counters(&state), (1, false, 1));
    assert!(state.step(AccessEvent::ReleaseRead));
    assert!(!state.step(AccessEvent::RequestRead));
    assert!(state.step(AccessEvent::RequestWrite));
    assert!(state.step(AccessEvent::ReleaseWrite));
    assert!(state.step(AccessEvent::RequestRead));
    assert_eq!(counters(&state), (1, false, 0));
}

#[test]
fn writer_is_alone() {
    let mut state = AccessState::new();
    assert!(state.step(AccessEvent::QueueWrite));
    assert!(state.step(AccessEvent::RequestWrite));
    assert!(!state.step(AccessEvent::RequestRead));
    assert!(state.step(AccessEvent::QueueWrite));
    assert!(!state.step(AccessEvent::RequestWrite));
    assert_eq!(counters(&state), (0, true, 1));
    assert!(state.step(AccessEvent::ReleaseWrite));
    assert!(state.step(AccessEvent::RequestWrite));
    assert_eq!(counters(&state), (0, true, 0));
}

#[test]
fn write_request_without_queueing_is_not_granted() {
    let mut state = AccessState::new();
    assert!(!state.step(AccessEvent::RequestWrite));
    assert_eq!(counters(&state), (0, false, 0));
}

#[test]
fn release_by_nobody_changes_nothing() {
    let mut state = AccessState::new();
    assert!(!state.step(AccessEvent::ReleaseRead));
    assert!(!state.step(AccessEvent::ReleaseWrite));
    assert_eq!(counters(&state), (0, false, 0));
    assert!(state.step(AccessEvent::RequestRead));
    assert!(!state.step(AccessEvent::ReleaseWrite));
    assert_eq!(counters(&state), (1, false, 0));
}

#[test]
fn writer_and_readers_never_meet() {
    let events = [
        AccessEvent::RequestRead,
        AccessEvent::QueueWrite,
        AccessEvent::RequestWrite,
        AccessEvent::RequestRead,
        AccessEvent::ReleaseRead,
        AccessEvent::RequestWrite,
        AccessEvent::RequestRead,
        AccessEvent::QueueWrite,
        AccessEvent::ReleaseWrite,
        AccessEvent::RequestRead,
        AccessEvent::RequestWrite,
        AccessEvent::ReleaseRead,
        AccessEvent::ReleaseWrite,
        AccessEvent::RequestRead,
    ];
    let mut state = AccessState::new();
    for stride in [1, 3, 5] {
        for turn in 0..events.len() {
            state.step(events[(turn * stride) % events.len()]);
            assert!(!(state.is_writing() && state.readers() > 0));
        }
    }
}
