use seedr_dl::downloader::state::{ChunkRange, DownloadState};

#[test]
fn test_chunk_partitioning() {
    let state = DownloadState::new(1000, 4);
    assert_eq!(state.chunks.len(), 4);
    assert_eq!(state.chunks[0].start, 0);
    assert_eq!(state.chunks[0].end, 249);
    assert_eq!(state.chunks[0].len(), 250);

    assert_eq!(state.chunks[3].start, 750);
    assert_eq!(state.chunks[3].end, 999);
    assert_eq!(state.chunks[3].len(), 250);
}

#[test]
fn test_total_downloaded() {
    let mut state = DownloadState::new(1000, 2);
    state.chunks[0].downloaded = 200;
    state.chunks[1].downloaded = 350;
    assert_eq!(state.total_downloaded(), 550);
}

#[test]
fn uneven_partition_covers_every_byte() {
    let state = DownloadState::new(10, 3);
    assert_eq!(state.chunks.len(), 3);
    assert_eq!((state.chunks[0].start, state.chunks[0].end), (0, 3));
    assert_eq!((state.chunks[1].start, state.chunks[1].end), (4, 7));
    assert_eq!((state.chunks[2].start, state.chunks[2].end), (8, 9));
    let total: u64 = state.chunks.iter().map(|c| c.len()).sum();
    assert_eq!(total, 10);
    for (i, c) in state.chunks.iter().enumerate() {
        assert_eq!(c.index, i);
        assert_eq!(c.downloaded, 0);
    }
}

#[test]
fn more_workers_than_bytes_yields_fewer_chunks() {
    let state = DownloadState::new(3, 8);
    assert_eq!(state.chunks.len(), 3);
    assert_eq!(state.chunks[2].start, 2);
    assert_eq!(state.chunks[2].end, 2);
}

#[test]
fn empty_file_and_zero_workers_have_no_chunks() {
    assert!(DownloadState::new(0, 4).chunks.is_empty());
    assert!(DownloadState::new(100, 0).chunks.is_empty());
    assert_eq!(DownloadState::new(0, 4).total_downloaded(), 0);
}

#[test]
fn chunk_range_length_completion_and_resume() {
    let c = ChunkRange { index: 0, start: 100, end: 199, downloaded: 40 };
    assert_eq!(c.len(), 100);
    assert!(!c.is_complete());
    assert_eq!(c.resume_offset(), 140);
    let done = ChunkRange { index: 1, start: 100, end: 199, downloaded: 100 };
    assert!(done.is_complete());
    let inverted = ChunkRange { index: 2, start: 10, end: 5, downloaded: 0 };
    assert_eq!(inverted.len(), 1);
}

#[test]
fn progress_is_capped_at_chunk_length() {
    let mut state = DownloadState::new(1000, 2);
    state.record_progress(0, 300);
    assert_eq!(state.chunks[0].downloaded, 300);
    state.record_progress(0, 300);
    assert_eq!(state.chunks[0].downloaded, 500);
    assert!(state.chunks[0].is_complete());
    assert_eq!(state.chunks[1].downloaded, 0);
    assert_eq!(state.total_downloaded(), 500);
}

#[test]
fn resume_keeps_matching_state_and_clears_without_part_file() {
    let mut saved = DownloadState::new(1000, 2);
    saved.record_progress(1, 123);
    let (kept, fresh) = DownloadState::resume_or_new(Some(saved.clone()), 1000, true, 4);
    assert!(!fresh);
    assert_eq!(kept.chunks, saved.chunks);
    let (cleared, fresh) = DownloadState::resume_or_new(Some(saved.clone()), 1000, false, 4);
    assert!(!fresh);
    assert_eq!(cleared.total_downloaded(), 0);
    assert_eq!(cleared.chunks.len(), 2);
    let (replanned, fresh) = DownloadState::resume_or_new(Some(saved), 2000, true, 4);
    assert!(fresh);
    assert_eq!(replanned.chunks.len(), 4);
    assert_eq!(replanned.total_size, 2000);
    let (new_state, fresh) = DownloadState::resume_or_new(None, 500, true, 5);
    assert!(fresh);
    assert_eq!(new_state.chunks.len(), 5);
}

#[test]
fn state_and_part_paths() {
    assert_eq!(DownloadState::state_path("/tmp/dl", "a.mkv"), "/tmp/dl/a.mkv.state.json");
    assert_eq!(DownloadState::part_path("/tmp/dl/", "a.mkv"), "/tmp/dl/a.mkv.part");
    assert_eq!(DownloadState::part_path("", "a.mkv"), "a.mkv.part");
}
