use polaris_core::errors::SessionError;
use polaris_core::registry::{ResizeAction, SessionKind, SessionRegistry, SpawnOutcome};

#[test]
fn sequential_create_ids_start_at_one() {
    let mut reg = SessionRegistry::new();
    let a = reg.create(SpawnOutcome::Spawned(SessionKind::Piped));
    let b = reg.create(SpawnOutcome::Spawned(SessionKind::Piped));
    let c = reg.create(SpawnOutcome::Spawned(SessionKind::Pty));
    assert_eq!(a, Ok(1));
    assert_eq!(b, Ok(2));
    assert_eq!(c, Ok(3));
}

#[test]
fn failed_spawn_registers_nothing_and_keeps_counter() {
    let mut reg = SessionRegistry::new();
    let a = reg.create(SpawnOutcome::Failed);
    assert_eq!(a, Err(SessionError::SpawnFailure));
    let b = reg.create(SpawnOutcome::Spawned(SessionKind::Piped));
    assert_eq!(b, Ok(1));
}

#[test]
fn never_issued_id_reports_not_found() {
    let mut reg = SessionRegistry::new();
    assert_eq!(reg.write(42), Err(SessionError::NotFound));
    assert_eq!(reg.resize(42, 80, 24), Err(SessionError::NotFound));
    assert!(reg.kill(42).is_err());
    assert_eq!(reg.get(0), Err(SessionError::NotFound));
}

#[test]
fn kill_removes_the_id_for_good() {
    let mut reg = SessionRegistry::new();
    let id = reg.create(SpawnOutcome::Spawned(SessionKind::Pty)).unwrap();
    let killed = reg.kill(id).unwrap();
    assert_eq!(killed.id, id);
    assert!(killed.stop_requested);
    assert_eq!(reg.write(id), Err(SessionError::NotFound));
    assert_eq!(reg.resize(id, 80, 24), Err(SessionError::NotFound));
    assert_eq!(reg.start_streaming(id), Err(SessionError::NotFound));
}

#[test]
fn second_kill_is_a_not_found_no_op() {
    let mut reg = SessionRegistry::new();
    let id = reg.create(SpawnOutcome::Spawned(SessionKind::Piped)).unwrap();
    assert!(reg.kill(id).is_ok());
    let second = reg.kill(id);
    assert!(matches!(second, Err(SessionError::NotFound)));
    // the other session-mutating calls agree
    assert_eq!(reg.write(id), Err(SessionError::NotFound));
}

#[test]
fn killed_id_is_never_reissued() {
    let mut reg = SessionRegistry::new();
    let first = reg.create(SpawnOutcome::Spawned(SessionKind::Piped)).unwrap();
    reg.kill(first).unwrap();
    let second = reg.create(SpawnOutcome::Spawned(SessionKind::Piped)).unwrap();
    assert_ne!(first, second);
    assert_eq!(second, first + 1);
}

#[test]
fn resize_routes_by_session_kind() {
    let mut reg = SessionRegistry::new();
    let pty = reg.create(SpawnOutcome::Spawned(SessionKind::Pty)).unwrap();
    let piped = reg.create(SpawnOutcome::Spawned(SessionKind::Piped)).unwrap();
    assert_eq!(
        reg.resize(pty, 132, 43),
        Ok(ResizeAction::SetSize { cols: 132, rows: 43 })
    );
    assert_eq!(reg.resize(piped, 132, 43), Ok(ResizeAction::NoOp));
}

#[test]
fn write_reports_the_backing_kind() {
    let mut reg = SessionRegistry::new();
    let pty = reg.create(SpawnOutcome::Spawned(SessionKind::Pty)).unwrap();
    let piped = reg.create(SpawnOutcome::Spawned(SessionKind::Piped)).unwrap();
    assert_eq!(reg.write(pty), Ok(SessionKind::Pty));
    assert_eq!(reg.write(piped), Ok(SessionKind::Piped));
}

#[test]
fn start_streaming_marks_the_session() {
    let mut reg = SessionRegistry::new();
    let id = reg.create(SpawnOutcome::Spawned(SessionKind::Piped)).unwrap();
    assert!(!reg.get(id).unwrap().streaming);
    assert_eq!(reg.start_streaming(id), Ok(SessionKind::Piped));
    assert!(reg.get(id).unwrap().streaming);
}

#[test]
fn remove_detaches_without_stopping() {
    let mut reg = SessionRegistry::new();
    let id = reg.create(SpawnOutcome::Spawned(SessionKind::Pty)).unwrap();
    let rec = reg.remove(id).unwrap();
    assert_eq!(rec.id, id);
    assert!(!rec.stop_requested);
    assert_eq!(reg.get(id), Err(SessionError::NotFound));
}

#[test]
fn error_messages_are_short_and_fixed() {
    assert_eq!(SessionError::NotFound.message(), "session not found");
    assert_eq!(SessionError::SpawnFailure.message(), "failed to spawn session");
    assert_eq!(SessionError::IoFailure.message(), "session I/O failed");
}
