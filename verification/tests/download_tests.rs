use hachimi::download::{
    check_written, download_chunk_size, parallel_download_length, plan_download_chunks,
    DownloadBuffer, DownloadError,
};

#[test]
fn chunks_cover_the_file() {
    assert_eq!(download_chunk_size(10, 3, 0), 3);
    assert_eq!(plan_download_chunks(10, 3, 0), vec![(0, 2), (3, 5), (6, 8), (9, 9)]);
    assert_eq!(plan_download_chunks(10, 3, 5), vec![(0, 4), (5, 9)]);
    assert_eq!(plan_download_chunks(10, 1, 0), vec![(0, 9)]);
    assert_eq!(plan_download_chunks(0, 4, 1), Vec::<(u64, u64)>::new());
    assert_eq!(plan_download_chunks(5, 2, 100), vec![(0, 4)]);
    assert_eq!(plan_download_chunks(u64::MAX, 1, 0), vec![(0, u64::MAX - 1)]);
    assert_eq!(
        plan_download_chunks(u64::MAX, 1, u64::MAX),
        vec![(0, u64::MAX - 1)]
    );
}

#[test]
fn ranges_need_a_length_and_byte_ranges() {
    assert_eq!(parallel_download_length(Some("100"), Some("bytes")), Some(100));
    assert_eq!(parallel_download_length(Some("100"), Some("none")), None);
    assert_eq!(parallel_download_length(Some("x"), Some("bytes")), None);
    assert_eq!(parallel_download_length(None, Some("bytes")), None);
    assert_eq!(parallel_download_length(Some("100"), None), None);
}

#[test]
fn buffer_flushes_when_full() {
    let mut b = DownloadBuffer::new(4);
    let s = b.on_read(3);
    assert_eq!((s.progress_start, s.progress_end, s.flush_full, s.finished), (0, 3, false, false));
    let s = b.on_read(1);
    assert_eq!((s.progress_start, s.progress_end, s.flush_full), (3, 4, true));
    assert_eq!(b.pos, 0);
    b.on_read(2);
    let s = b.on_read(0);
    assert!(s.finished);
    assert_eq!(b.final_flush_len(), 2);
}

#[test]
fn short_writes_mean_a_full_disk() {
    assert_eq!(check_written(4, 4), Ok(()));
    assert_eq!(check_written(3, 4), Err(DownloadError::OutOfDiskSpace));
}
