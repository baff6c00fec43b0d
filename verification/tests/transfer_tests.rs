use rigel::transfer::{chunk_step, finished_status, ChunkStep, ProgressReporter, StatusHandle, TransferStatus};

#[test]
fn status_codes_round_trip() {
    for s in [
        TransferStatus::Queued,
        TransferStatus::Running,
        TransferStatus::Done,
        TransferStatus::Failed,
    ] {
        assert_eq!(TransferStatus::from_u8(s.to_u8()), s);
    }
    assert_eq!(TransferStatus::Queued.to_u8(), 0);
    assert_eq!(TransferStatus::Failed.to_u8(), 3);
}

#[test]
fn unknown_status_code_reads_as_failed() {
    assert_eq!(TransferStatus::from_u8(4), TransferStatus::Failed);
    assert_eq!(TransferStatus::from_u8(255), TransferStatus::Failed);
}

#[test]
fn status_handle_reads_back_what_was_set() {
    let h = StatusHandle::new(TransferStatus::Queued);
    assert_eq!(h.get(), TransferStatus::Queued);
    let shared = h.clone();
    shared.set(TransferStatus::Done);
    assert_eq!(h.get(), TransferStatus::Done);
}

#[test]
fn progress_reporter_snapshot() {
    let p = ProgressReporter::new();
    assert_eq!(p.snapshot(), (0, 0));
    p.clone().update(32, 64);
    assert_eq!(p.snapshot(), (32, 64));
}

#[test]
fn chunk_steps() {
    assert!(matches!(chunk_step(100, 0), ChunkStep::Finished));
    match chunk_step(100, 28) {
        ChunkStep::Write { done } => assert_eq!(done, 128),
        ChunkStep::Finished => panic!("expected a write"),
    }
}

#[test]
fn a_finished_transfer_is_done_or_failed() {
    assert_eq!(finished_status(true), TransferStatus::Done);
    assert_eq!(finished_status(false), TransferStatus::Failed);
}
