use chandesk::store::{mb_to_bytes, CachedPost, ChanCache, StoreError, DEFAULT_MAX_AGE_DAYS};

fn post(board: &str, thread_id: i64, post_no: i64, tim: Option<i64>) -> CachedPost {
    CachedPost {
        board: board.to_string(),
        thread_id,
        post_no,
        resto: if post_no == thread_id { 0 } else { thread_id },
        time: 1_700_000_000 + post_no,
        name: Some("Anonymous".to_string()),
        trip: None,
        subject: None,
        comment: Some(format!("comment {}", post_no)),
        tim,
        ext: tim.map(|_| ".webm".to_string()),
        filename: tim.map(|_| "clip".to_string()),
        fsize: tim.map(|_| 1000),
        w: tim.map(|_| 640),
        h: tim.map(|_| 480),
    }
}

fn thread_posts(board: &str, thread_id: i64, n: i64) -> Vec<CachedPost> {
    (0..n).map(|k| post(board, thread_id, thread_id * 1000 + k, None)).collect()
}

#[test]
fn read_after_cache_is_sorted_with_counts() {
    let mut c = ChanCache::new();
    let posts = vec![
        post("g", 10, 12, Some(555)),
        post("g", 10, 10, None),
        post("g", 10, 11, Some(556)),
        post("g", 10, 13, None),
    ];
    c.cache_thread_at(1000, "g", 10, Some("subject"), &posts).unwrap();
    let (t, ps) = c.get_cached_thread_at(2000, "g", 10).expect("cached");
    assert_eq!(t.reply_count, 3);
    assert_eq!(t.image_count, 2);
    assert_eq!(t.subject.as_deref(), Some("subject"));
    assert_eq!(t.cached_at, 1000);
    assert_eq!(t.last_modified, 1000);
    assert_eq!(t.accessed_at, 2000);
    let nos: Vec<i64> = ps.iter().map(|p| p.post_no).collect();
    assert_eq!(nos, vec![10, 11, 12, 13]);
    assert_eq!(ps[2].tim, Some(555));
    assert_eq!(c.thread_rows()[0].accessed_at, 2000);
}

#[test]
fn reading_an_uncached_thread_gives_none() {
    let mut c = ChanCache::new();
    c.cache_thread_at(1000, "g", 10, None, &thread_posts("g", 10, 2)).unwrap();
    assert!(c.get_cached_thread_at(2000, "g", 11).is_none());
    assert!(c.get_cached_thread_at(2000, "v", 10).is_none());
    assert_eq!(c.thread_rows()[0].accessed_at, 1000);
}

#[test]
fn empty_thread_is_refused() {
    let mut c = ChanCache::new();
    c.cache_thread_at(1000, "g", 1, None, &thread_posts("g", 1, 1)).unwrap();
    assert_eq!(c.cache_thread_at(2000, "g", 10, None, &[]), Err(StoreError::EmptyThread));
    assert_eq!(c.cache_thread_at(2000, "g", 1, Some("x"), &[]), Err(StoreError::EmptyThread));
    assert_eq!(c.thread_rows().len(), 1);
    assert_eq!(c.thread_rows()[0].cached_at, 1000);
    assert_eq!(c.post_rows().len(), 1);
    assert_eq!(StoreError::EmptyThread.message(), "thread has no posts");
    assert_eq!(c.cache_thread("g", 10, None, &[]), Err(StoreError::EmptyThread));
    assert_eq!(StoreError::ClockUnavailable.message(), "system clock unavailable");
    let (t, _) = c.get_cached_thread_at(3000, "g", 1).unwrap();
    assert_eq!(t.reply_count, 0);
}

#[test]
fn recaching_replaces_the_thread_row() {
    let mut c = ChanCache::new();
    c.cache_thread_at(1000, "g", 10, Some("old"), &thread_posts("g", 10, 2)).unwrap();
    c.cache_thread_at(3000, "g", 10, Some("new"), &thread_posts("g", 10, 3)).unwrap();
    assert_eq!(c.thread_rows().len(), 1);
    assert_eq!(c.post_rows().len(), 3);
    let (t, ps) = c.get_cached_thread_at(3000, "g", 10).unwrap();
    assert_eq!(t.subject.as_deref(), Some("new"));
    assert_eq!(t.cached_at, 3000);
    assert_eq!(t.reply_count, 2);
    assert_eq!(ps.len(), 3);
}

#[test]
fn cached_thread_is_fresh_until_its_age_passes() {
    let mut c = ChanCache::new();
    c.cache_thread_at(1000, "g", 10, None, &thread_posts("g", 10, 1)).unwrap();
    assert!(c.is_thread_cached_at(1000, "g", 10, 3600));
    assert!(c.is_thread_cached_at(4599, "g", 10, 3600));
    assert!(!c.is_thread_cached_at(4600, "g", 10, 3600));
    assert!(!c.is_thread_cached_at(1000, "g", 10, 0));
    assert!(!c.is_thread_cached_at(1000, "g", 11, 3600));
}

#[test]
fn wall_clock_caching_is_fresh() {
    let mut c = ChanCache::new();
    c.cache_thread("g", 10, None, &thread_posts("g", 10, 1)).unwrap();
    assert!(c.thread_rows()[0].cached_at > 1_600_000_000);
    assert_eq!(c.is_thread_cached("g", 10, 3600), Ok(true));
    assert_eq!(c.is_thread_cached("g", 11, 3600), Ok(false));
    let (t, _) = c.get_cached_thread("g", 10).unwrap().unwrap();
    assert!(c.get_cached_thread("g", 11).unwrap().is_none());
    assert!(t.accessed_at >= t.cached_at);
}

#[test]
fn zero_age_evicts_every_earlier_thread() {
    let mut c = ChanCache::new();
    c.cache_thread_at(100, "g", 1, None, &thread_posts("g", 1, 2)).unwrap();
    c.cache_thread_at(200, "g", 5, None, &thread_posts("g", 5, 2)).unwrap();
    c.cache_thread_at(300, "v", 1, None, &thread_posts("v", 1, 2)).unwrap();
    assert_eq!(c.evict_by_age_at(301, 0), 3);
    assert!(c.thread_rows().is_empty());
    assert!(c.post_rows().is_empty());
}

#[test]
fn huge_age_evicts_nothing() {
    let mut c = ChanCache::new();
    c.cache_thread_at(100, "g", 1, None, &thread_posts("g", 1, 2)).unwrap();
    c.cache_thread_at(200, "g", 5, None, &thread_posts("g", 5, 2)).unwrap();
    assert_eq!(c.evict_by_age_at(1_000_000, i64::MAX), 0);
    assert_eq!(c.thread_rows().len(), 2);
    assert_eq!(c.post_rows().len(), 4);
}

#[test]
fn age_eviction_keeps_recent_and_sweeps_orphans() {
    let mut c = ChanCache::new();
    c.cache_thread_at(100, "g", 1, None, &thread_posts("g", 1, 2)).unwrap();
    c.cache_thread_at(500, "g", 5, None, &thread_posts("g", 5, 2)).unwrap();
    // a post that names a thread that was never cached
    c.cache_thread_at(500, "g", 7, None, &[post("g", 99, 99, None)]).unwrap();
    assert_eq!(c.evict_by_age_at(600, 200), 1);
    let ids: Vec<i64> = c.thread_rows().iter().map(|t| t.thread_id).collect();
    assert_eq!(ids, vec![5, 7]);
    let post_threads: Vec<i64> = c.post_rows().iter().map(|p| p.thread_id).collect();
    assert_eq!(post_threads, vec![5, 5]);
}

/// Runs size eviction as the host does, with a stand-in for the measured
/// size: a fixed number of bytes per stored post.
fn evict_to(c: &mut ChanCache, per_post: u64, limit: u64) -> usize {
    let mut deleted = 0;
    while c.evict_size_step(c.post_rows().len() as u64 * per_post, limit) {
        deleted += 1;
    }
    deleted
}

#[test]
fn size_eviction_drops_least_recently_read_first() {
    let mut c = ChanCache::new();
    c.cache_thread_at(100, "g", 1, None, &thread_posts("g", 1, 3)).unwrap();
    c.cache_thread_at(100, "g", 2, None, &thread_posts("g", 2, 3)).unwrap();
    c.cache_thread_at(100, "g", 3, None, &thread_posts("g", 3, 3)).unwrap();
    c.get_cached_thread_at(300, "g", 1);
    c.get_cached_thread_at(150, "g", 2);
    c.get_cached_thread_at(400, "g", 3);
    // nine posts of 100 bytes over a bound of 800: one thread goes
    assert_eq!(evict_to(&mut c, 100, 800), 1);
    let ids: Vec<i64> = c.thread_rows().iter().map(|t| t.thread_id).collect();
    assert_eq!(ids, vec![1, 3]);
    assert!(c.post_rows().iter().all(|p| p.thread_id != 2));
    assert_eq!(c.post_rows().len(), 6);
}

#[test]
fn size_step_breaks_ties_by_position() {
    let mut c = ChanCache::new();
    c.cache_thread_at(100, "g", 1, None, &thread_posts("g", 1, 1)).unwrap();
    c.cache_thread_at(100, "g", 2, None, &thread_posts("g", 2, 1)).unwrap();
    assert!(c.evict_size_step(10, 5));
    assert_eq!(c.thread_rows()[0].thread_id, 2);
}

#[test]
fn size_eviction_twice_deletes_nothing_the_second_time() {
    let mut c = ChanCache::new();
    for id in 1..=5 {
        c.cache_thread_at(100 * id, "g", id, None, &thread_posts("g", id, 4)).unwrap();
    }
    assert_eq!(evict_to(&mut c, 10, 100), 3);
    assert_eq!(c.thread_rows().len(), 2);
    assert_eq!(evict_to(&mut c, 10, 100), 0);
    assert_eq!(c.thread_rows().len(), 2);
}

#[test]
fn size_step_within_bound_is_a_no_op() {
    let mut c = ChanCache::new();
    c.cache_thread_at(100, "g", 1, None, &thread_posts("g", 1, 2)).unwrap();
    c.cache_thread_at(100, "g", 7, None, &[post("g", 99, 99_000, None)]).unwrap();
    assert!(!c.evict_size_step(500, 500));
    assert_eq!(c.thread_rows().len(), 2);
    assert_eq!(c.post_rows().len(), 3);
}

#[test]
fn size_eviction_to_zero_empties_the_store() {
    let mut c = ChanCache::new();
    c.cache_thread_at(100, "g", 1, None, &thread_posts("g", 1, 2)).unwrap();
    c.cache_thread_at(100, "g", 2, None, &thread_posts("g", 2, 2)).unwrap();
    c.cache_thread_at(100, "g", 3, None, &[post("g", 99, 99_000, None)]).unwrap();
    // the measured size stays over the bound: every thread goes, then the step
    // reports that nothing is left and sweeps the stray post
    let mut n = 0;
    while c.evict_size_step(1000, 0) {
        n += 1;
    }
    assert_eq!(n, 3);
    assert!(c.thread_rows().is_empty());
    assert!(c.post_rows().is_empty());
}

#[test]
fn interleaved_caching_keeps_both_threads() {
    let mut c = ChanCache::new();
    let a = thread_posts("g", 100, 3);
    let b = thread_posts("g", 200, 2);
    c.cache_thread_at(10, "g", 100, Some("a"), &a[..1]).unwrap();
    c.cache_thread_at(11, "g", 200, Some("b"), &b[..1]).unwrap();
    c.cache_thread_at(12, "g", 100, Some("a"), &a).unwrap();
    c.cache_thread_at(13, "g", 200, Some("b"), &b).unwrap();
    let (ta, pa) = c.get_cached_thread_at(20, "g", 100).unwrap();
    let (tb, pb) = c.get_cached_thread_at(20, "g", 200).unwrap();
    assert_eq!((ta.reply_count, pa.len()), (2, 3));
    assert_eq!((tb.reply_count, pb.len()), (1, 2));
    assert_eq!(ta.subject.as_deref(), Some("a"));
    assert_eq!(tb.subject.as_deref(), Some("b"));
}

#[test]
fn stats_report_counts_and_write_times() {
    let mut c = ChanCache::new();
    let empty = c.get_cache_stats(0);
    assert_eq!(empty.thread_count, 0);
    assert_eq!(empty.post_count, 0);
    assert_eq!(empty.db_size_bytes, 0);
    assert_eq!(empty.oldest_cache_timestamp, None);
    assert_eq!(empty.newest_cache_timestamp, None);
    c.cache_thread_at(300, "g", 10, None, &thread_posts("g", 10, 2)).unwrap();
    c.cache_thread_at(100, "g", 20, None, &thread_posts("g", 20, 3)).unwrap();
    c.cache_thread_at(200, "v", 10, None, &thread_posts("v", 10, 1)).unwrap();
    let s = c.get_cache_stats(4096);
    assert_eq!(s.thread_count, 3);
    assert_eq!(s.post_count, 6);
    assert_eq!(s.oldest_cache_timestamp, Some(100));
    assert_eq!(s.newest_cache_timestamp, Some(300));
    assert_eq!(s.db_size_bytes, 4096);
}

#[test]
fn default_age_bound_is_seven_days() {
    let mut c = ChanCache::new();
    let now = 10_000_000;
    c.cache_thread_at(now - 8 * 86400, "g", 1, None, &thread_posts("g", 1, 2)).unwrap();
    c.cache_thread_at(now - 6 * 86400, "g", 2, None, &thread_posts("g", 2, 2)).unwrap();
    assert_eq!(c.cleanup_old_cache_at(now, DEFAULT_MAX_AGE_DAYS), 1);
    assert_eq!(c.thread_rows()[0].thread_id, 2);
}

#[test]
fn age_cleanup_at_wall_clock() {
    let mut c = ChanCache::new();
    c.cache_thread_at(0, "g", 1, None, &thread_posts("g", 1, 1)).unwrap();
    c.cache_thread("g", 2, None, &thread_posts("g", 2, 1)).unwrap();
    assert_eq!(c.cleanup_old_cache(7), Ok(1));
    assert_eq!(c.cleanup_old_cache(7), Ok(0));
    assert_eq!(c.thread_rows()[0].thread_id, 2);
}

#[test]
fn largest_age_bound_evicts_nothing() {
    let mut c = ChanCache::new();
    c.cache_thread_at(i64::MIN, "g", 1, None, &thread_posts("g", 1, 1)).unwrap();
    c.cache_thread_at(0, "g", 2, None, &thread_posts("g", 2, 1)).unwrap();
    assert_eq!(c.cleanup_old_cache_at(1, i64::MAX), 0);
    assert_eq!(c.cleanup_old_cache_at(i64::MAX, i64::MAX), 0);
    assert_eq!(c.thread_rows().len(), 2);
    assert!(c.is_thread_cached_at(1, "g", 2, i64::MAX));
    assert!(!c.is_thread_cached_at(i64::MAX, "g", 1, i64::MAX));
    // in seconds the same bound reaches back only to i64::MIN + 2
    assert_eq!(c.evict_by_age_at(1, i64::MAX), 1);
    assert_eq!(c.thread_rows()[0].thread_id, 2);
}

#[test]
fn negative_age_bound_evicts_everything_up_to_the_future() {
    let mut c = ChanCache::new();
    c.cache_thread_at(i64::MAX, "g", 1, None, &thread_posts("g", 1, 1)).unwrap();
    assert_eq!(c.cleanup_old_cache_at(i64::MAX, i64::MIN), 1);
    assert!(c.thread_rows().is_empty());
}

#[test]
fn clearing_empties_both_tables() {
    let mut c = ChanCache::new();
    c.cache_thread_at(100, "g", 1, None, &thread_posts("g", 1, 2)).unwrap();
    c.clear_all_cache();
    assert!(c.thread_rows().is_empty());
    assert!(c.post_rows().is_empty());
}

#[test]
fn mebibytes_convert_to_bytes() {
    assert_eq!(mb_to_bytes(100), 104_857_600);
    assert_eq!(mb_to_bytes(u64::MAX), u64::MAX);
}

#[test]
fn cleanup_in_days_uses_the_cutoff() {
    let mut c = ChanCache::new();
    c.cache_thread_at(1_000_000 - 2 * 86400, "g", 1, None, &thread_posts("g", 1, 1)).unwrap();
    c.cache_thread_at(1_000_000, "g", 2, None, &thread_posts("g", 2, 1)).unwrap();
    assert_eq!(c.cleanup_old_cache_at(1_000_000, 1), 1);
    assert_eq!(c.thread_rows().len(), 1);
}
