use relaybot::config::is_sudoer;
use relaybot::retry::{is_too_old, reconnect_delay, ChunkOutcome, Purge, PurgeStep, PURGE_CHUNK};
use relaybot::transfer::{check_download, download_name, DownloadCheck, UPLOAD_LIMIT};

#[test]
fn reconnect_backs_off_linearly_then_stops() {
    assert_eq!(reconnect_delay(0), Some(0));
    assert_eq!(reconnect_delay(1), Some(5));
    assert_eq!(reconnect_delay(4), Some(20));
    assert_eq!(reconnect_delay(5), None);
    assert_eq!(reconnect_delay(100), None);
}

#[test]
fn purge_works_through_chunks() {
    let mut p = Purge::new(10, 260, PURGE_CHUNK);
    assert_eq!(p.total(), 250);
    let first = p.current_chunk().unwrap();
    assert_eq!(first.len(), 100);
    assert_eq!(first[0], 10);
    assert_eq!(first[99], 109);
    assert_eq!(p.record(ChunkOutcome::Deleted(100)), PurgeStep::Next);
    assert_eq!(p.record(ChunkOutcome::InvalidIds), PurgeStep::Next);
    let last = p.current_chunk().unwrap();
    assert_eq!(last, (210..260).collect::<Vec<i32>>());
    assert_eq!(p.record(ChunkOutcome::Deleted(40)), PurgeStep::Next);
    assert!(p.current_chunk().is_none());
    assert_eq!(p.purged(), 140);
}

#[test]
fn purge_waits_longer_then_gives_up() {
    let mut p = Purge::new(1, 5, PURGE_CHUNK);
    let chunk = p.current_chunk().unwrap();
    for k in 1..=5u64 {
        assert_eq!(p.record(ChunkOutcome::FloodWait), PurgeStep::Wait(5 * k));
        assert_eq!(p.current_chunk().unwrap(), chunk);
    }
    assert_eq!(p.record(ChunkOutcome::FloodWait), PurgeStep::Failed);
}

#[test]
fn purge_stops_on_refusal_or_failure() {
    let mut p = Purge::new(1, 5, 1);
    assert_eq!(p.current_chunk().unwrap(), vec![1]);
    assert_eq!(p.record(ChunkOutcome::Forbidden), PurgeStep::Forbidden);
    assert_eq!(p.record(ChunkOutcome::Failed), PurgeStep::Failed);
    assert_eq!(p.purged(), 0);
}

#[test]
fn empty_purge_has_nothing_to_do() {
    let p = Purge::new(9, 9, PURGE_CHUNK);
    assert!(p.current_chunk().is_none());
    let q = Purge::new(9, 3, PURGE_CHUNK);
    assert_eq!(q.total(), 0);
}

#[test]
fn old_messages() {
    assert!(!is_too_old(1));
    assert!(is_too_old(2));
    assert!(is_too_old(30));
}

#[test]
fn download_checks() {
    assert_eq!(check_download(0, None), DownloadCheck::Empty);
    assert_eq!(check_download(UPLOAD_LIMIT + 1, None), DownloadCheck::TooLarge);
    assert_eq!(check_download(10, Some(11)), DownloadCheck::SizeMismatch);
    assert_eq!(check_download(10, Some(10)), DownloadCheck::Ready);
    assert_eq!(check_download(UPLOAD_LIMIT, None), DownloadCheck::Ready);
}

#[test]
fn sudoers() {
    assert!(is_sudoer(1155717290));
    assert!(!is_sudoer(1));
}

#[test]
fn download_name_from_disposition() {
    assert_eq!(download_name(Some("attachment; filename=\"report.pdf\""), "http://x/y"), "report.pdf");
    assert_eq!(download_name(Some("a; filename=one; filename=\"two.txt\""), "http://x/y"), "two.txt");
    assert_eq!(download_name(Some("inline \"x\""), "http://x/y"), "inline x");
}

#[test]
fn download_name_from_url() {
    assert_eq!(download_name(None, "https://a.b/c/file.zip"), "file.zip");
    assert_eq!(download_name(None, "noslash"), "noslash");
    assert_eq!(download_name(None, "http://a.b/"), "");
}
