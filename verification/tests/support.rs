//! The instrumentation.
use sqlite_mcp_core::test_support::{
    all_events, arm, arm_keyed, arm_matches_pending, count, emit, emit_keyed, emit_keyed_always,
    gate_released, inject_cleanup_fault, inject_commit_fault, now_ms, pause_step, release_arm,
    reset_registry, retained_records, set_clock_ms, take_cleanup_fault, take_commit_fault,
    wait_cursor, wait_for, wait_keyed, CommitFault, Event, EventKey, PauseStep, Registry,
    WaitStep, RETAINED_PER_EVENT,
};
use sqlite_mcp_core::CleanupStage;

#[test]
fn keyed_records_are_retained_and_match() {
    let mut registry = Registry::new(false);
    let key = EventKey::operation(7).with_generation(1);
    let mut barrier = arm_keyed(&mut registry, Event::HarnessCommand, Some(key.clone()), 0);
    assert!(emit_keyed_always(&mut registry, Event::HarnessCommand, Some(key)));
    assert_eq!(
        pause_step(&mut registry, Event::HarnessCommand, 10_000, 1),
        PauseStep::Wait(9_999)
    );
    let cursor = wait_cursor(&registry, Event::HarnessCommand, false);
    let record = match wait_for(&registry, Event::HarnessCommand, cursor, 0, 2_000) {
        WaitStep::Found(record) => record,
        other => panic!("{other:?}"),
    };
    assert_eq!(record.key.as_ref().unwrap().operation_id, 7);
    assert_eq!(record.key.as_ref().unwrap().generation, 1);
    assert!(record.key.as_ref().unwrap().worker_id.is_none());
    assert!(!barrier.is_released(&registry));
    barrier.release(&mut registry);
    assert!(barrier.is_released(&registry));
    assert_eq!(
        pause_step(&mut registry, Event::HarnessCommand, 10_000, 2),
        PauseStep::Resume
    );
}

#[test]
fn waits_are_bounded_and_keyed() {
    let mut registry = Registry::new(false);
    let key = EventKey::operation(99);
    let cursor = wait_cursor(&registry, Event::HarnessCommand, true);
    assert_eq!(cursor, 0);
    assert!(matches!(
        wait_keyed(&registry, Event::HarnessCommand, Some(&key), cursor, 0, 50),
        WaitStep::Wait(50)
    ));
    match wait_keyed(&registry, Event::HarnessCommand, Some(&key), cursor, 50, 50) {
        WaitStep::TimedOut(m) => assert_eq!(
            m,
            "event HarnessCommand (key Some(EventKey { operation_id: 99, generation: 0, \
             worker_id: None, creation_id: None })) not observed before 50ms; \
             retained=0, dropped=0, armed=false"
        ),
        other => panic!("{other:?}"),
    }
    let mut barrier =
        arm_keyed(&mut registry, Event::HarnessCommand, Some(EventKey::operation(100)), 0);
    let other = EventKey::operation(101);
    assert!(!emit_keyed_always(&mut registry, Event::HarnessCommand, Some(other)));
    let cursor = wait_cursor(&registry, Event::HarnessCommand, false);
    let record = match wait_for(&registry, Event::HarnessCommand, cursor, 0, 300) {
        WaitStep::Found(record) => record,
        other => panic!("{other:?}"),
    };
    assert_eq!(record.key.as_ref().unwrap().operation_id, 101);
    assert_ne!(record.key.as_ref().unwrap().operation_id, 100);
    barrier.release(&mut registry);
}

#[test]
fn timeouts_show_the_whole_key() {
    let registry = Registry::new(true);
    let mut key = EventKey::operation(1).with_generation(2);
    key.worker_id = Some("a\"b".into());
    match wait_keyed(&registry, Event::Prepare, Some(&key), 0, 1, 1) {
        WaitStep::TimedOut(m) => {
            let shown = format!("{:?}", Some(&key));
            let limit = std::time::Duration::from_millis(1);
            assert_eq!(
                m,
                format!(
                    "event Prepare (key {shown}) not observed before {limit:?}; \
                     retained=0, dropped=0, armed=false"
                )
            );
        }
        other => panic!("{other:?}"),
    }
    match wait_for(&registry, Event::Prepare, 0, 1500, 1500) {
        WaitStep::TimedOut(m) => assert!(m.starts_with(
            "event Prepare (key None) not observed before 1.5s;"
        )),
        other => panic!("{other:?}"),
    }
}

#[test]
fn timeouts_show_the_limit() {
    let registry = Registry::new(true);
    for limit in [0, 1, 50, 999, 1000, 1001, 1010, 1100, 1234, 60_000, 61_050, u64::MAX] {
        let span = std::time::Duration::from_millis(limit);
        match wait_for(&registry, Event::Prepare, 0, limit, limit) {
            WaitStep::TimedOut(m) => {
                assert!(m.contains(&format!(" not observed before {span:?}; ")), "{m}")
            }
            other => panic!("{other:?}"),
        }
    }
}

#[test]
fn nothing_is_recorded_while_off() {
    let mut registry = Registry::new(false);
    assert!(!emit(&mut registry, Event::Prepare));
    inject_commit_fault(&mut registry, CommitFault::Uncertain);
    assert_eq!(count(&registry, Event::Prepare), 0);
    assert_eq!(take_commit_fault(&mut registry), None);
    set_clock_ms(&mut registry, 5);
    assert_eq!(now_ms(&registry, 77), 77);
    let mut on = Registry::new(true);
    assert_eq!(now_ms(&on, 77), 77);
    set_clock_ms(&mut on, 5);
    assert_eq!(now_ms(&on, 77), 5);
    emit_keyed(&mut on, Event::Prepare, Some(EventKey::operation(4)));
    assert_eq!(count(&on, Event::Prepare), 1);
    inject_commit_fault(&mut on, CommitFault::Uncertain);
    assert_eq!(take_commit_fault(&mut on), Some(CommitFault::Uncertain));
    assert_eq!(take_commit_fault(&mut on), None);
}

#[test]
fn records_keep_their_order_and_their_bound() {
    let mut registry = Registry::new(true);
    emit(&mut registry, Event::Prepare);
    emit(&mut registry, Event::CommitEntry);
    emit(&mut registry, Event::Prepare);
    let records = retained_records(&registry, Event::Prepare);
    assert_eq!(records.iter().map(|r| r.seq).collect::<Vec<_>>(), vec![0, 1]);
    assert_eq!(records.iter().map(|r| r.order).collect::<Vec<_>>(), vec![0, 2]);
    for _ in 0..RETAINED_PER_EVENT {
        emit(&mut registry, Event::Prepare);
    }
    assert_eq!(count(&registry, Event::Prepare), RETAINED_PER_EVENT);
    assert_eq!(retained_records(&registry, Event::Prepare)[0].seq, 2);
    reset_registry(&mut registry);
    assert_eq!(count(&registry, Event::Prepare), 0);
    emit(&mut registry, Event::Prepare);
    let first = &retained_records(&registry, Event::Prepare)[0];
    assert_eq!(first.seq, 0);
    assert_eq!(first.order, 3 + RETAINED_PER_EVENT as u64);
}

#[test]
fn an_emitter_is_never_paused_for_long() {
    let mut registry = Registry::new(true);
    let barrier = arm(&mut registry, Event::CommitEntry, 5);
    assert!(emit(&mut registry, Event::CommitEntry));
    assert!(!gate_released(&registry, Event::CommitEntry));
    assert_eq!(barrier.wait(&registry, 0, 20), Ok(Some(20)));
    assert_eq!(
        barrier.wait(&registry, 20, 20),
        Err("test barrier CommitEntry was not released".to_owned())
    );
    assert_eq!(
        pause_step(&mut registry, Event::CommitEntry, 10_005, 10_005),
        PauseStep::Resume
    );
    assert!(gate_released(&registry, Event::CommitEntry));
    assert_eq!(barrier.wait(&registry, 20, 20), Ok(None));
    assert!(gate_released(&registry, Event::Prepare));
}

#[test]
fn gates_tell_what_they_would_pause() {
    let mut registry = Registry::new(true);
    let key = EventKey::operation(1);
    assert!(!arm_matches_pending(&registry, Event::Prepare, Some(&key)));
    arm_keyed(&mut registry, Event::Prepare, Some(EventKey::operation(1)), 0);
    assert!(arm_matches_pending(&registry, Event::Prepare, Some(&key)));
    assert!(!arm_matches_pending(&registry, Event::Prepare, None));
    assert!(!emit(&mut registry, Event::Prepare));
    let later = EventKey::operation(1).with_generation(1);
    assert!(!arm_matches_pending(&registry, Event::Prepare, Some(&later)));
    release_arm(&mut registry, Event::Prepare);
    assert!(gate_released(&registry, Event::Prepare));
    arm(&mut registry, Event::Prepare, 0);
    assert!(arm_matches_pending(&registry, Event::Prepare, Some(&later)));
}

#[test]
fn cleanup_faults_fire_once() {
    let mut registry = Registry::new(true);
    let stage = CleanupStage::SavepointRestore;
    assert!(take_cleanup_fault(&mut registry, stage).is_none());
    inject_cleanup_fault(&mut registry, CleanupStage::ExpiryRollback, "first");
    inject_cleanup_fault(&mut registry, stage, "second");
    inject_cleanup_fault(&mut registry, stage, "third");
    let fault = take_cleanup_fault(&mut registry, stage).unwrap();
    assert_eq!(fault.stage, stage);
    assert_eq!(fault.detail, "third");
    assert!(take_cleanup_fault(&mut registry, stage).is_none());
    assert_eq!(
        take_cleanup_fault(&mut registry, CleanupStage::ExpiryRollback).unwrap().detail,
        "first"
    );
}

#[test]
fn events_are_all_listed() {
    let events = all_events();
    assert_eq!(events.len(), 26);
    assert_eq!(events[0], Event::BeginCompletion);
    assert_eq!(events[25], Event::GuardCleared);
}

#[test]
fn keyed_waits_find_what_came_before_them() {
    let mut registry = Registry::new(true);
    let key = EventKey::operation(5).with_generation(2);
    emit_keyed(&mut registry, Event::CommitEntry, Some(EventKey::operation(5)));
    emit_keyed(&mut registry, Event::CommitEntry, Some(key.clone()));
    let cursor = wait_cursor(&registry, Event::CommitEntry, true);
    match wait_keyed(&registry, Event::CommitEntry, Some(&key), cursor, 0, 50) {
        WaitStep::Found(record) => assert_eq!((record.seq, record.order), (1, 1)),
        other => panic!("unexpected {other:?}"),
    }
    let late = wait_cursor(&registry, Event::CommitEntry, false);
    assert!(matches!(
        wait_for(&registry, Event::CommitEntry, late, 0, 50),
        WaitStep::Wait(50)
    ));
}

#[test]
fn the_newest_emissions_are_retained() {
    let mut registry = Registry::new(true);
    for n in 0..4100u64 {
        emit_keyed(&mut registry, Event::StepProgress, Some(EventKey::operation(n)));
        emit(&mut registry, Event::Prepare);
    }
    let records = retained_records(&registry, Event::StepProgress);
    assert_eq!(records.len(), 4096);
    assert_eq!(count(&registry, Event::StepProgress), 4096);
    assert!(records.iter().all(|r| r.event == Event::StepProgress));
    assert!(records.windows(2).all(|w| w[1].seq == w[0].seq + 1 && w[1].order > w[0].order));
    assert_eq!((records[0].seq, records[4095].seq), (4, 4099));
}
