use polaris_core::streamer::{streamer_step, ReadOutcome, StreamerAction, READ_CHUNK_SIZE};

#[test]
fn chunk_is_emitted_as_decoded_text() {
    let action = streamer_step(false, ReadOutcome::Data(b"hello\n".to_vec()));
    match action {
        StreamerAction::Emit(text) => assert!(text.contains("hello")),
        other => panic!("expected an emit, got {:?}", other),
    }
}

#[test]
fn invalid_bytes_become_replacement_characters() {
    let action = streamer_step(false, ReadOutcome::Data(vec![0xff, b'a']));
    match action {
        StreamerAction::Emit(text) => assert_eq!(text, "\u{fffd}a"),
        other => panic!("expected an emit, got {:?}", other),
    }
}

#[test]
fn empty_read_sleeps_instead_of_spinning() {
    let action = streamer_step(false, ReadOutcome::Data(Vec::new()));
    assert!(matches!(action, StreamerAction::Sleep));
}

#[test]
fn read_error_after_kill_ends_the_task() {
    let action = streamer_step(true, ReadOutcome::Failed { fatal: false });
    assert!(matches!(action, StreamerAction::Exit));
    let action = streamer_step(true, ReadOutcome::Failed { fatal: true });
    assert!(matches!(action, StreamerAction::Exit));
}

#[test]
fn fatal_error_ends_the_task_silently() {
    let action = streamer_step(false, ReadOutcome::Failed { fatal: true });
    assert!(matches!(action, StreamerAction::Exit));
}

#[test]
fn transient_error_backs_off_and_retries() {
    let action = streamer_step(false, ReadOutcome::Failed { fatal: false });
    assert!(matches!(action, StreamerAction::Backoff));
}

#[test]
fn chunks_are_bounded() {
    assert_eq!(READ_CHUNK_SIZE, 8192);
}
