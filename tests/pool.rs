use hermes::pool::{DownloadKey, DownloadPool, Next, Submitted};
use hermes::worker::{pause_ms, progress_due, range_complete};

fn key(url: &str) -> DownloadKey {
    DownloadKey::new(url.to_string(), None)
}

#[test]
fn equal_keys_share_one_fetch() {
    let mut pool = DownloadPool::new(4, None);
    let k = key("https://x/y");
    assert!(matches!(pool.download(k.clone(), 1), Submitted::Started(0)));
    assert!(matches!(pool.download(k.clone(), 2), Submitted::Joined));
    assert!(matches!(pool.download(k.clone(), 3), Submitted::Joined));
    assert_eq!(pool.current_concurrent(), 1);
    let progress = pool.on_update(0, &k, false);
    assert_eq!(progress.deliver, vec![1, 2, 3]);
    assert!(matches!(progress.next, Next::Working));
    let done = pool.on_update(0, &k, true);
    assert_eq!(done.deliver, vec![1, 2, 3]);
    assert!(matches!(done.next, Next::Retire));
    assert_eq!(pool.current_concurrent(), 0);
}

#[test]
fn ranges_make_keys_differ() {
    let a = DownloadKey::new("u".to_string(), Some((0, 9)));
    let b = DownloadKey::new("u".to_string(), Some((10, 19)));
    assert!(!a.same(&b));
    assert!(a.same(&a.duplicate()));
    assert_eq!(a.url(), "u");
    assert_eq!(a.range(), Some((0, 9)));
}

#[test]
fn rate_is_split_between_workers() {
    let mib = 1024 * 1024;
    let mut pool = DownloadPool::new(4, Some(4 * mib));
    assert_eq!(pool.per_worker_limit(), Some(4 * mib));
    assert!(matches!(pool.download(key("a"), 1), Submitted::Started(0)));
    assert!(matches!(pool.download(key("b"), 2), Submitted::Started(1)));
    assert_eq!(pool.per_worker_limit(), Some(2 * mib));
    let done = pool.on_update(0, &key("a"), true);
    assert!(matches!(done.next, Next::Retire));
    assert_eq!(pool.per_worker_limit(), Some(4 * mib));
    assert_eq!(pool.set_rate_limit(None), None);
    assert_eq!(pool.rate_limit(), None);
    assert_eq!(pool.set_rate_limit(Some(10)), Some(10));
    assert_eq!(pool.rate_limit(), Some(10));
}

#[test]
fn full_pool_queues_and_reuses_workers() {
    let mut pool = DownloadPool::new(1, None);
    assert!(matches!(pool.download(key("a"), 1), Submitted::Started(0)));
    assert!(matches!(pool.download(key("b"), 2), Submitted::Queued));
    assert!(matches!(pool.download(key("c"), 3), Submitted::Queued));
    assert_eq!(pool.current_concurrent(), 1);
    let done = pool.on_update(0, &key("a"), true);
    match done.next {
        Next::Reuse(k) => assert_eq!(k.url(), "c"),
        _ => panic!("expected reuse"),
    }
    let done = pool.on_update(0, &key("c"), true);
    assert_eq!(done.deliver, vec![3]);
    match done.next {
        Next::Reuse(k) => assert_eq!(k.url(), "b"),
        _ => panic!("expected reuse"),
    }
    assert!(matches!(pool.on_update(0, &key("b"), true).next, Next::Retire));
    assert!(matches!(pool.on_update(0, &key("b"), true).next, Next::Unknown));
    assert!(pool.current_concurrent() <= pool.max_concurrent());
}

#[test]
fn smallest_free_id_is_reused() {
    let mut pool = DownloadPool::new(3, None);
    assert!(matches!(pool.download(key("a"), 1), Submitted::Started(0)));
    assert!(matches!(pool.download(key("b"), 2), Submitted::Started(1)));
    assert!(matches!(pool.on_update(0, &key("a"), true).next, Next::Retire));
    assert!(matches!(pool.download(key("c"), 3), Submitted::Started(0)));
    pool.set_max_concurrent(2);
    assert_eq!(pool.max_concurrent(), 2);
    assert!(matches!(pool.download(key("d"), 4), Submitted::Queued));
}

#[test]
fn worker_pacing_decisions() {
    assert!(progress_due(501));
    assert!(!progress_due(500));
    assert!(range_complete(Some((0, 10)), 10));
    assert!(!range_complete(Some((0, 10)), 9));
    assert!(!range_complete(None, 1_000_000));
    assert_eq!(pause_ms(Some(1000), 2000, 0, 500), Some(1500));
    assert_eq!(pause_ms(Some(1000), 50, 0, 0), None);
    assert_eq!(pause_ms(Some(1000), 2000, 0, 2500), None);
    assert_eq!(pause_ms(None, 2000, 0, 0), None);
    assert_eq!(pause_ms(Some(0), 2000, 0, 0), None);
}
