use slsk_core::protocol::TransferDirection;
use slsk_core::transfer::incomplete::{base_name_of, incomplete_path, IncompleteTracker};
use slsk_core::transfer::retry::RetryKind;
use slsk_core::transfer::upload::{QueuedUpload, UploadQueue};
use slsk_core::transfer::{DownloadState, Transfer, TransferId, TransferState};
use std::path::Path;
use std::time::Instant;

#[test]
fn download_complete_detection() {
    let mut state = DownloadState::new(1_000_000, 0);
    assert!(!state.is_complete());
    state.bytes_received = 1_000_000;
    assert!(state.is_complete());
}

#[test]
fn download_2gb_bug() {
    let mut state = DownloadState::new(0, 0);
    state.cached_size = Some(3_000_000_000);
    state.apply_size(0);
    assert_eq!(state.expected_size, 3_000_000_000);
}

#[test]
fn download_sizes_and_remaining() {
    let mut state = DownloadState::new(100, 40);
    state.bytes_received = 50;
    assert_eq!(state.bytes_remaining(), 10);
    assert!(!state.is_complete());
    state.bytes_received = 70;
    assert_eq!(state.bytes_remaining(), 0);
    assert!(state.is_complete());
    // A positive announced size wins over the cached one; a cached 0 is not used.
    state.cached_size = Some(5);
    state.apply_size(7);
    assert_eq!(state.expected_size, 7);
    state.cached_size = Some(0);
    state.apply_size(0);
    assert_eq!(state.expected_size, 0);
    state.cached_size = None;
    state.apply_size(0);
    assert_eq!(state.expected_size, 0);
}

#[test]
fn transfer_bytes_remaining() {
    let transfer = Transfer::new(
        TransferId(1),
        TransferDirection::Download,
        "alice".into(),
        "/music/song.mp3".into(),
        1_000_000,
        123,
    );
    assert_eq!(transfer.bytes_remaining(), 1_000_000);
}

#[test]
fn transfer_progress() {
    let mut t = Transfer::new(
        TransferId(9),
        TransferDirection::Upload,
        "bob".into(),
        "a.flac".into(),
        1000,
        5,
    );
    assert_eq!(t.state, TransferState::Queued);
    assert!(t.started_at.is_none());
    t.offset = 300;
    t.bytes_transferred = 600;
    assert_eq!(t.bytes_remaining(), 100);
    assert!(!t.is_complete());
    t.bytes_transferred = 800;
    assert_eq!(t.bytes_remaining(), 0);
    assert!(t.is_complete());
}

#[test]
fn retry_durations() {
    assert_eq!(RetryKind::Connection.duration().as_secs(), 180);
    assert_eq!(RetryKind::Io.duration().as_secs(), 900);
    assert_eq!(RetryKind::FConnectionWait.duration().as_secs(), 45);
    assert_eq!(RetryKind::PlaceInQueuePoll.duration().as_secs(), 300);
}

fn make_upload(id: u64, username: &str) -> QueuedUpload {
    QueuedUpload {
        id: TransferId(id),
        username: username.into(),
        virtual_path: format!("/music/{}.mp3", id),
        file_size: 1_000_000,
        token: id as u32,
        is_buddy: false,
        queued_at: Instant::now(),
    }
}

#[test]
fn upload_queue_buddy_priority() {
    let mut queue = UploadQueue::new(5);
    queue.set_buddies(vec!["bob".to_string()]);

    queue.enqueue(make_upload(1, "alice"));
    queue.enqueue(make_upload(2, "bob"));
    queue.enqueue(make_upload(3, "charlie"));

    let next = queue.try_start_next().unwrap();
    assert_eq!(next.id, TransferId(2));
}

#[test]
fn upload_queue_free_slots() {
    let queue = UploadQueue::new(3);
    assert_eq!(queue.free_slots(), 3);
}

#[test]
fn queue_position() {
    let mut queue = UploadQueue::new(5);
    queue.enqueue(make_upload(1, "alice"));
    queue.enqueue(make_upload(2, "bob"));

    assert_eq!(queue.queue_position("/music/1.mp3"), Some(1));
    assert_eq!(queue.queue_position("/music/2.mp3"), Some(2));
    assert_eq!(queue.queue_position("/music/99.mp3"), None);
}

#[test]
fn upload_queue_order_and_slots() {
    let mut queue = UploadQueue::new(1);
    queue.set_buddies(vec!["bob".to_string(), "eve".to_string()]);
    queue.enqueue(make_upload(1, "alice"));
    queue.enqueue(make_upload(2, "bob"));
    queue.enqueue(make_upload(3, "eve"));
    queue.enqueue(make_upload(4, "carl"));
    assert_eq!(queue.queue_len(), 4);
    assert_eq!(queue.queue_position("/music/2.mp3"), Some(1));
    assert_eq!(queue.queue_position("/music/3.mp3"), Some(2));
    assert_eq!(queue.queue_position("/music/1.mp3"), Some(3));
    assert_eq!(queue.queue_position("/music/4.mp3"), Some(4));
    let first = queue.try_start_next().unwrap();
    assert!(first.is_buddy);
    let t = Transfer::new(first.id, TransferDirection::Upload, first.username, first.virtual_path, 1, first.token);
    queue.upload_started(first.token, t);
    assert_eq!(queue.active_count(), 1);
    assert_eq!(queue.free_slots(), 0);
    assert!(queue.try_start_next().is_none());
    assert_eq!(queue.queue_len(), 3);
    assert!(queue.upload_finished(99).is_none());
    assert_eq!(queue.upload_finished(2).unwrap().id, TransferId(2));
    assert_eq!(queue.free_slots(), 1);
    assert_eq!(queue.try_start_next().unwrap().id, TransferId(3));
}

#[test]
fn incomplete_path_collision() {
    let p1 = incomplete_path("/tmp", "alice", "/song.mp3");
    let p2 = incomplete_path("/tmp", "alice", "/song.mp3");
    assert_eq!(p1, p2);

    let p3 = incomplete_path("/tmp", "bob", "/song.mp3");
    assert_ne!(p1, p3);
}

#[test]
fn incomplete_path_layout() {
    let path = incomplete_path("/tmp/incomplete", "alice", "/music/song.mp3");
    assert_eq!(
        path,
        "/tmp/incomplete/INCOMPLETE9d5f0fe666e5e421f214a13562fba0bdsong.mp3"
    );
    let name = Path::new(&path).file_name().unwrap().to_str().unwrap();
    assert!(name.starts_with("INCOMPLETE"));
    assert!(name.ends_with("song.mp3"));
    assert_eq!(name.len(), 10 + 32 + 8);
    // No separator is doubled, and a backslash path keeps its last part.
    assert_eq!(
        incomplete_path("/tmp/", "bob", "C:\\music\\song.mp3"),
        "/tmp/INCOMPLETE2902a44e92fa4c2fe908dcdcbbaa9c81song.mp3"
    );
    assert_eq!(base_name_of("a\\b/c"), "b/c");
    assert_eq!(base_name_of("plain"), "plain");
}

#[test]
fn incomplete_path_format() {
    let path = incomplete_path("/tmp/incomplete", "alice", "/music/song.mp3");
    let name = Path::new(&path).file_name().unwrap().to_str().unwrap();
    assert!(name.starts_with("INCOMPLETE"));
    assert!(name.ends_with("song.mp3"));
    assert_eq!(name.len(), 50); // prefix(10) + hash(32) + basename(8)
}

#[test]
fn incomplete_tracker_one_path_many_spellings() {
    let mut t = IncompleteTracker::new();
    assert!(t.mark_open("/tmp/a".into()));
    assert!(t.is_in_use("/tmp/a/"));
    assert!(t.is_in_use("/tmp//a"));
    assert!(t.is_in_use("/tmp/./a"));
    assert!(!t.mark_open("/tmp//a/".into()));
    assert!(!t.is_in_use("/tmp/b"));
    assert_eq!(t.len(), 1);
    t.mark_closed("/tmp/a/");
    assert!(!t.is_in_use("/tmp/a"));
    assert_eq!(t.len(), 0);
}

#[test]
fn incomplete_tracker_marks() {
    let mut t = IncompleteTracker::new();
    assert_eq!(t.len(), 0);
    assert!(t.mark_open("/tmp/a".into()));
    assert!(!t.mark_open("/tmp/a".into()));
    assert!(t.mark_open("/tmp/b".into()));
    assert_eq!(t.len(), 2);
    assert!(t.is_in_use("/tmp/a"));
    t.mark_closed("/tmp/a");
    assert!(!t.is_in_use("/tmp/a"));
    t.mark_closed("/tmp/zzz");
    assert_eq!(t.len(), 1);
}
