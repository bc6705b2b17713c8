use eraser::commands::{
    claim_for_restore, parse_command, record_deletion, Command, EraserError, UsageError,
};
use eraser::registry::{DeletionRecord, Registry};
use eraser::retention::{
    is_expired_at, sweep_pass, sweeper_step, SweeperAction, SweeperEvent, SweeperState,
    RETENTION_SECS, SWEEP_INTERVAL_SECS,
};
use eraser::shared::SharedRegistry;

const T0: u64 = 1_700_000_000;

fn s(text: &str) -> String {
    text.to_string()
}

#[test]
fn delete_then_restore_round_trip() {
    let mut registry = Registry::new();
    let r = record_deletion(&mut registry, s("notes.txt"), Ok(s("/tmp/hold-1/notes.txt")), T0);
    assert!(matches!(r, Ok(None)));
    assert_eq!(registry.len(), 1);
    let held = registry.get(&s("notes.txt")).unwrap();
    assert_eq!(held.holding_path, "/tmp/hold-1/notes.txt");
    assert_eq!(held.created_at, T0);

    let back = claim_for_restore(&mut registry, &s("notes.txt")).unwrap();
    assert_eq!(back.holding_path, "/tmp/hold-1/notes.txt");
    assert_eq!(registry.len(), 0);
    assert!(registry.get(&s("notes.txt")).is_none());
}

#[test]
fn restore_without_delete_is_not_found() {
    let mut registry = Registry::new();
    let r = claim_for_restore(&mut registry, &s("never.txt"));
    assert!(matches!(r, Err(EraserError::NotFound)));

    record_deletion(&mut registry, s("other.txt"), Ok(s("/tmp/h/other.txt")), T0).unwrap();
    let r = claim_for_restore(&mut registry, &s("never.txt"));
    assert!(matches!(r, Err(EraserError::NotFound)));
    assert_eq!(registry.len(), 1);
}

#[test]
fn second_delete_of_same_path_supersedes_first() {
    let mut registry = Registry::new();
    record_deletion(&mut registry, s("a.txt"), Ok(s("/tmp/h1/a.txt")), T0).unwrap();
    let r = record_deletion(&mut registry, s("a.txt"), Ok(s("/tmp/h2/a.txt")), T0 + 5).unwrap();
    let first = r.unwrap();
    assert_eq!(first.holding_path, "/tmp/h1/a.txt");
    assert_eq!(first.created_at, T0);
    assert_eq!(registry.len(), 1);

    let back = claim_for_restore(&mut registry, &s("a.txt")).unwrap();
    assert_eq!(back.holding_path, "/tmp/h2/a.txt");
    assert_eq!(back.created_at, T0 + 5);
    assert!(matches!(claim_for_restore(&mut registry, &s("a.txt")), Err(EraserError::NotFound)));
}

#[test]
fn failed_move_records_nothing() {
    let mut registry = Registry::new();
    let r = record_deletion(&mut registry, s("gone.txt"), Err(s("no such file")), T0);
    match r {
        Err(EraserError::Io(why)) => assert_eq!(why, "no such file"),
        _ => panic!("expected an I/O error"),
    }
    assert_eq!(registry.len(), 0);
}

#[test]
fn retention_boundary() {
    assert_eq!(RETENTION_SECS, 24 * 60 * 60);
    assert!(is_expired_at(T0, T0 + RETENTION_SECS, RETENTION_SECS));
    assert!(!is_expired_at(T0, T0 + RETENTION_SECS - 1, RETENTION_SECS));
    assert!(is_expired_at(T0, T0 + RETENTION_SECS + 1, RETENTION_SECS));
    assert!(!is_expired_at(T0 + 10, T0, RETENTION_SECS));
    assert!(is_expired_at(0, u64::MAX, RETENTION_SECS));
}

#[test]
fn sweep_at_threshold_takes_only_the_old_record() {
    let mut registry = Registry::new();
    record_deletion(&mut registry, s("old.txt"), Ok(s("/tmp/h1/old.txt")), T0).unwrap();
    record_deletion(&mut registry, s("young.txt"), Ok(s("/tmp/h2/young.txt")), T0 + 1).unwrap();
    let purged = sweep_pass(&mut registry, T0 + RETENTION_SECS);
    assert_eq!(purged.len(), 1);
    assert_eq!(purged[0].0, "old.txt");
    assert_eq!(purged[0].1.holding_path, "/tmp/h1/old.txt");
    assert_eq!(registry.len(), 1);
    assert!(registry.get(&s("young.txt")).is_some());
    assert!(registry.get(&s("old.txt")).is_none());
}

#[test]
fn sweep_after_a_day_and_a_second() {
    let mut registry = Registry::new();
    record_deletion(&mut registry, s("a.txt"), Ok(s("/tmp/h/a.txt")), T0).unwrap();
    let purged = sweep_pass(&mut registry, T0 + 24 * 60 * 60 + 1);
    assert_eq!(purged.len(), 1);
    assert_eq!(purged[0].0, "a.txt");
    assert_eq!(purged[0].1.holding_path, "/tmp/h/a.txt");
    assert_eq!(registry.len(), 0);
    assert!(registry.get(&s("a.txt")).is_none());
}

#[test]
fn sweep_of_empty_registry_takes_nothing() {
    let mut registry = Registry::new();
    assert!(sweep_pass(&mut registry, T0).is_empty());
    assert_eq!(registry.len(), 0);
}

#[test]
fn snapshot_lists_expired_keys_without_removing() {
    let mut registry = Registry::new();
    record_deletion(&mut registry, s("x"), Ok(s("/h/x")), T0).unwrap();
    record_deletion(&mut registry, s("y"), Ok(s("/h/y")), T0 + 100).unwrap();
    record_deletion(&mut registry, s("z"), Ok(s("/h/z")), T0 + 50).unwrap();
    let mut keys = registry.snapshot_expired(T0 + 150, 100);
    keys.sort();
    assert_eq!(keys, vec![s("x"), s("z")]);
    assert_eq!(registry.len(), 3);
}

#[test]
fn restore_wins_race_against_sweep() {
    let mut registry = Registry::new();
    record_deletion(&mut registry, s("r.txt"), Ok(s("/h/r.txt")), T0).unwrap();
    let now = T0 + RETENTION_SECS + 1;
    let keys = registry.snapshot_expired(now, RETENTION_SECS);
    assert_eq!(keys, vec![s("r.txt")]);
    let restored = claim_for_restore(&mut registry, &s("r.txt"));
    assert!(restored.is_ok());
    assert!(registry.remove_if_expired(&keys[0], now, RETENTION_SECS).is_none());
}

#[test]
fn sweep_wins_race_against_restore() {
    let mut registry = Registry::new();
    record_deletion(&mut registry, s("r.txt"), Ok(s("/h/r.txt")), T0).unwrap();
    let now = T0 + RETENTION_SECS + 1;
    let taken = registry.remove_if_expired(&s("r.txt"), now, RETENTION_SECS);
    assert_eq!(taken.unwrap().holding_path, "/h/r.txt");
    assert!(matches!(claim_for_restore(&mut registry, &s("r.txt")), Err(EraserError::NotFound)));
}

#[test]
fn remove_if_expired_leaves_fresh_record() {
    let mut registry = Registry::new();
    record_deletion(&mut registry, s("f.txt"), Ok(s("/h/f.txt")), T0).unwrap();
    assert!(registry.remove_if_expired(&s("f.txt"), T0 + 10, RETENTION_SECS).is_none());
    assert_eq!(registry.len(), 1);
}

#[test]
fn registry_insert_and_remove() {
    let mut registry = Registry::new();
    assert!(registry.insert(s("k"), DeletionRecord::new(3, s("/h/k"))).is_none());
    let old = registry.insert(s("k"), DeletionRecord::new(4, s("/h/k2"))).unwrap();
    assert_eq!(old.created_at, 3);
    assert_eq!(registry.remove(&s("k")).unwrap().created_at, 4);
    assert!(registry.remove(&s("k")).is_none());
}

#[test]
fn parse_missing_arguments() {
    assert!(matches!(parse_command(&vec![s("eraser")]), Err(UsageError::MissingArguments)));
    assert!(matches!(
        parse_command(&vec![s("eraser"), s("delete")]),
        Err(UsageError::MissingArguments)
    ));
}

#[test]
fn parse_known_commands() {
    match parse_command(&vec![s("eraser"), s("delete"), s("notes.txt")]) {
        Ok(Command::Delete(p)) => assert_eq!(p, "notes.txt"),
        other => panic!("unexpected {:?}", other),
    }
    match parse_command(&vec![s("eraser"), s("restore"), s("notes.txt")]) {
        Ok(Command::Restore(p)) => assert_eq!(p, "notes.txt"),
        other => panic!("unexpected {:?}", other),
    }
}

#[test]
fn parse_unknown_command() {
    match parse_command(&vec![s("eraser"), s("shred"), s("notes.txt")]) {
        Err(UsageError::UnknownCommand(c)) => assert_eq!(c, "shred"),
        other => panic!("unexpected {:?}", other),
    }
}

#[test]
fn sweeper_transitions() {
    assert_eq!(SWEEP_INTERVAL_SECS, 60);
    assert_eq!(
        sweeper_step(SweeperState::Idle, SweeperEvent::IntervalElapsed),
        (SweeperState::Sweeping, SweeperAction::Sweep)
    );
    assert_eq!(
        sweeper_step(SweeperState::Sweeping, SweeperEvent::PassFinished),
        (SweeperState::Idle, SweeperAction::Wait)
    );
    assert_eq!(
        sweeper_step(SweeperState::Idle, SweeperEvent::StopRequested),
        (SweeperState::Stopped, SweeperAction::Exit)
    );
    assert_eq!(
        sweeper_step(SweeperState::Sweeping, SweeperEvent::StopRequested),
        (SweeperState::Sweeping, SweeperAction::Continue)
    );
    assert_eq!(
        sweeper_step(SweeperState::Stopped, SweeperEvent::IntervalElapsed),
        (SweeperState::Stopped, SweeperAction::Exit)
    );
}

#[test]
fn shared_registry_lifecycle() {
    let shared = SharedRegistry::new();
    assert!(shared.record_deletion(s("notes.txt"), Ok(s("/h/notes.txt")), T0).is_ok());
    assert!(shared.record_deletion(s("old.txt"), Ok(s("/h/old.txt")), T0 - RETENTION_SECS).is_ok());
    assert_eq!(shared.len(), 2);

    let purged = shared.sweep(T0);
    assert_eq!(purged.len(), 1);
    assert_eq!(purged[0].0, "old.txt");
    assert_eq!(shared.len(), 1);

    let back = shared.claim_for_restore(&s("notes.txt")).unwrap();
    assert_eq!(back.holding_path, "/h/notes.txt");
    assert_eq!(shared.len(), 0);
    assert!(matches!(shared.claim_for_restore(&s("notes.txt")), Err(EraserError::NotFound)));
}
