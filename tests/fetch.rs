use atlas_launcher::checksum::{digest, verify_hash, ChecksumType};
use atlas_launcher::error::LaunchError;
use atlas_launcher::fetch::{FetchAction, FetchConfig, FetchEvent, Fetcher, Storage};

const ABC_SHA1: &str = "a9993e364706816aba3e25717850c26c9cd0d89d";

fn config(force: bool) -> FetchConfig {
    FetchConfig {
        checksum: ABC_SHA1.to_string(),
        kind: ChecksumType::SHA1,
        has_destination: true,
        extract: false,
        force,
    }
}

fn is_request(a: &FetchAction) -> bool {
    matches!(a, FetchAction::Request { .. })
}

#[test]
fn digests_are_lowercase_hex() {
    let data = b"abc".to_vec();
    assert_eq!(digest(ChecksumType::SHA1, &data), ABC_SHA1);
    assert_eq!(digest(ChecksumType::SHA256, &data), "ba7816bf8f01cfea414140de5dae2223b00361a396177a9cb410ff61f20015ad");
    assert_eq!(digest(ChecksumType::MD5, &data), "900150983cd24fb0d6963f7d28e17f72");
    assert!(verify_hash(&ABC_SHA1.to_string(), ChecksumType::SHA1, &data));
    assert!(!verify_hash(&ABC_SHA1.to_string(), ChecksumType::SHA1, &b"abd".to_vec()));
    assert!(verify_hash(&String::new(), ChecksumType::MD5, &b"anything".to_vec()));
}

/// Runs a download whose network always answers with `body`, counting requests.
fn run(config: FetchConfig, cached: Option<Vec<u8>>, body: &[u8]) -> (FetchAction, usize) {
    let (mut f, mut action) = Fetcher::start(config);
    let mut requests = 0;
    loop {
        let event = match &action {
            FetchAction::ReadCache => FetchEvent::CacheRead(cached.clone()),
            FetchAction::Request { .. } => {
                requests += 1;
                FetchEvent::Connected
            }
            FetchAction::ReadChunk { .. } => {
                if f.body.is_empty() {
                    FetchEvent::Chunk(body.to_vec())
                } else {
                    FetchEvent::BodyEnded
                }
            }
            _ => return (action, requests),
        };
        action = f.step(event);
    }
}

#[test]
fn second_fetch_uses_the_cache() {
    let (first, requests) = run(config(false), None, b"abc");
    assert_eq!(requests, 1);
    let stored = match first {
        FetchAction::Deliver { bytes, storage } => {
            assert_eq!(storage, Storage::Write);
            bytes
        }
        _ => panic!("first download failed"),
    };
    let (second, requests) = run(config(false), Some(stored), b"abc");
    assert_eq!(requests, 0);
    assert!(matches!(second, FetchAction::Deliver { storage: Storage::Keep, .. }));
}

#[test]
fn corrupted_cache_is_fetched_again() {
    let (action, requests) = run(config(false), Some(b"abd".to_vec()), b"abc");
    assert_eq!(requests, 1);
    match action {
        FetchAction::Deliver { bytes, .. } => assert_eq!(bytes, b"abc".to_vec()),
        _ => panic!("download failed"),
    }
}

#[test]
fn forced_fetch_skips_the_cache() {
    let (_, action) = Fetcher::start(config(true));
    assert!(is_request(&action));
}

#[test]
fn persistent_mismatch_gives_up_after_the_budget() {
    let (action, requests) = run(config(false), None, b"not abc");
    assert_eq!(requests, 6);
    assert!(matches!(action, FetchAction::Fail { error: LaunchError::ChecksumMismatch }));
}

#[test]
fn connection_failures_back_off_then_fail() {
    let (mut f, _) = Fetcher::start(config(true));
    let mut delays = vec![];
    loop {
        match f.step(FetchEvent::ConnectFailed) {
            FetchAction::Request { delay_secs } => delays.push(delay_secs),
            FetchAction::Fail { error } => {
                assert_eq!(error, LaunchError::Network);
                break;
            }
            _ => panic!("unexpected action"),
        }
    }
    assert_eq!(delays, vec![2, 3, 4, 5, 6]);
}

#[test]
fn chunk_failures_are_retried() {
    let (mut f, _) = Fetcher::start(config(true));
    assert!(matches!(f.step(FetchEvent::Connected), FetchAction::ReadChunk { delay_secs: 0 }));
    let mut retries = 0;
    loop {
        match f.step(FetchEvent::ChunkFailed) {
            FetchAction::ReadChunk { delay_secs } => {
                retries += 1;
                assert_eq!(delay_secs, retries + 1);
            }
            FetchAction::Fail { error } => {
                assert_eq!(error, LaunchError::Network);
                break;
            }
            _ => panic!("unexpected action"),
        }
    }
    assert_eq!(retries, 10);
}

#[test]
fn unchecked_download_without_destination_is_kept() {
    let c = FetchConfig { checksum: String::new(), kind: ChecksumType::SHA1, has_destination: false, extract: false, force: false };
    let (action, requests) = run(c, None, b"xyz");
    assert_eq!(requests, 1);
    assert!(matches!(action, FetchAction::Deliver { storage: Storage::Keep, .. }));
}
