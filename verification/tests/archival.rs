use iota_logic::archival::{archive_file_bytes, CHECKPOINT_FILE_MAGIC, SUMMARY_FILE_MAGIC};
use iota_logic::archival::{AccumulatedState, ArchivalConfig, CheckpointStep};

const FILE_SIZE: usize = 100;
const MAX_IN_PROGRESS: u64 = 10000;

#[test]
fn checkpoints_before_the_file_are_skipped() {
    let mut s = AccumulatedState::new(3, 50);
    assert_eq!(s.on_checkpoint(49, 3, 10, FILE_SIZE, MAX_IN_PROGRESS, false), CheckpointStep::Skip);
    assert_eq!(s.checkpoint_range_start, 50);
    assert_eq!(s.checkpoint_range_end, 50);
}

#[test]
fn empty_file_takes_the_next_epoch_and_appends() {
    let mut s = AccumulatedState::new(3, 50);
    assert_eq!(s.on_checkpoint(50, 4, 10, FILE_SIZE, MAX_IN_PROGRESS, true), CheckpointStep::Append);
    assert_eq!(s.epoch, 4);
    s.append(&[1, 2, 3], &[9]);
    assert_eq!(s.buffer, vec![1, 2, 3]);
    assert_eq!(s.summary_buffer, vec![9]);
    assert_eq!(s.checkpoint_range_end, 51);
}

#[test]
fn full_file_is_uploaded_first() {
    let mut s = AccumulatedState::new(3, 50);
    s.on_checkpoint(50, 3, 60, FILE_SIZE, MAX_IN_PROGRESS, false);
    s.append(&[0; 60], &[1]);
    assert_eq!(s.on_checkpoint(51, 3, 30, FILE_SIZE, MAX_IN_PROGRESS, false), CheckpointStep::Append);
    s.append(&[0; 30], &[2]);
    assert_eq!(
        s.on_checkpoint(52, 3, 11, FILE_SIZE, MAX_IN_PROGRESS, false),
        CheckpointStep::UploadThenAppend
    );
    s.start_file(3, 52);
    assert!(s.buffer.is_empty() && s.summary_buffer.is_empty());
    assert_eq!((s.checkpoint_range_start, s.checkpoint_range_end), (52, 52));
    assert!(s.should_update_progress);
}

#[test]
fn new_epoch_or_elapsed_time_or_long_range_uploads() {
    let mut s = AccumulatedState::new(3, 0);
    s.on_checkpoint(0, 3, 1, FILE_SIZE, MAX_IN_PROGRESS, false);
    s.append(&[7], &[7]);
    assert_eq!(s.on_checkpoint(1, 4, 1, FILE_SIZE, MAX_IN_PROGRESS, false), CheckpointStep::UploadThenAppend);
    assert_eq!(s.epoch, 3);
    assert_eq!(s.on_checkpoint(1, 3, 1, FILE_SIZE, MAX_IN_PROGRESS, true), CheckpointStep::UploadThenAppend);
    for seq in 1..4 {
        s.on_checkpoint(seq, 3, 1, FILE_SIZE, 4, false);
        s.append(&[7], &[7]);
    }
    assert_eq!(s.checkpoint_range_end - s.checkpoint_range_start, 4);
    assert_eq!(s.on_checkpoint(4, 3, 1, FILE_SIZE, 4, false), CheckpointStep::UploadThenAppend);
    assert_eq!(s.on_checkpoint(4, 3, 1, FILE_SIZE, 8, false), CheckpointStep::Append);
}

#[test]
fn progress_is_reported_once_after_an_upload() {
    let mut s = AccumulatedState::new(0, 0);
    assert_eq!(s.save_progress(10), None);
    s.start_file(0, 10);
    assert_eq!(s.save_progress(10), Some(9));
    assert_eq!(s.save_progress(11), None);
    s.start_file(0, 12);
    assert_eq!(s.save_progress(0), None);
    assert!(!s.should_update_progress);
}

#[test]
fn config_holds_its_values() {
    let c = ArchivalConfig {
        remote_url: "s3://archive".to_string(),
        remote_store_options: vec![("region".to_string(), "eu".to_string())],
        commit_file_size: 1 << 20,
        commit_duration_seconds: 600,
    };
    assert_eq!(c.commit_duration_seconds, 600);
}

#[test]
fn archive_file_starts_with_magic_and_format_bytes() {
    assert_eq!(
        archive_file_bytes(CHECKPOINT_FILE_MAGIC, &[9, 8]),
        vec![0x00, 0x00, 0xDE, 0xAD, 0, 1, 9, 8]
    );
    assert_eq!(archive_file_bytes(SUMMARY_FILE_MAGIC, &[]), vec![0x00, 0x00, 0xCA, 0xFE, 0, 1]);
    assert_eq!(archive_file_bytes(0x01020304, &[]), vec![1, 2, 3, 4, 0, 1]);
}
