use vstd::prelude::*;
use crate::store::{
    attached_posts, cutoff, days_cutoff, first_least_read, fresh_in, find_post, find_thread, keep_recent, listed_posts,
    media_count, no_orphans, post_in_thread, post_is, sorted_by_number, thread_is, touched,
    unique_posts, unique_threads, upsert_post, upsert_posts, upsert_thread, written_row,
    CachedPost, CachedThread, ChanCache,
};

verus! {

/// The posts of `ps` have pairwise distinct (board, post number) keys.
pub open spec fn distinct_post_keys(ps: Seq<CachedPost>) -> bool {
    forall|i: int, j: int|
        0 <= i < ps.len() && 0 <= j < ps.len() && i != j && #[trigger] ps[i].board@ == #[trigger] ps[j].board@
            ==> ps[i].post_no != ps[j].post_no
}

proof fn lemma_upserted_posts_present(s: Seq<CachedPost>, ps: Seq<CachedPost>)
    requires
        distinct_post_keys(ps),
    ensures
        forall|i: int| 0 <= i < ps.len() ==> upsert_posts(s, ps).contains(#[trigger] ps[i]),
    decreases ps.len(),
{
    if ps.len() > 0 {
        let d = ps.drop_last();
        let p = ps.last();
        assert(distinct_post_keys(d)) by {
            assert forall|i: int, j: int|
                0 <= i < d.len() && 0 <= j < d.len() && i != j && #[trigger] d[i].board@ == #[trigger] d[j].board@
                implies d[i].post_no != d[j].post_no by {
                assert(d[i] == ps[i] && d[j] == ps[j]);
            }
        }
        lemma_upserted_posts_present(s, d);
        let u = upsert_posts(s, d);
        let f = find_post(u, p.board@, p.post_no);
        crate::store::lemma_find_post_bounds(u, p.board@, p.post_no);
        let v = upsert_post(u, p);
        assert forall|i: int| 0 <= i < ps.len() implies v.contains(#[trigger] ps[i]) by {
            if i == ps.len() - 1 {
                if f >= 0 {
                    assert(v[f] == p);
                } else {
                    assert(v[u.len() as int] == p);
                }
            } else {
                assert(ps[i] == d[i]);
                assert(u.contains(d[i]));
                let m = choose|m: int| 0 <= m < u.len() && u[m] == d[i];
                if f >= 0 && f == m {
                    assert(ps[i].board@ == ps[ps.len() - 1].board@);
                } else if f >= 0 {
                    assert(v[m] == u[m]);
                } else {
                    assert(v[m] == u[m]);
                }
            }
        }
    }
}

/// Caching a thread and reading it back: the row read has a reply count of the
/// number of posts given minus one and an image count of those with media; the
/// posts come back in ascending post number, and each post given for that
/// thread is among them.
pub proof fn lemma_read_after_cache(
    before_posts: Seq<CachedPost>,
    cached_threads: Seq<CachedThread>,
    cached_posts: Seq<CachedPost>,
    now: i64,
    read_at: i64,
    board: Seq<char>,
    id: i64,
    subject: Option<Seq<char>>,
    given: Seq<CachedPost>,
    read: CachedThread,
    read_posts: Seq<CachedPost>,
)
    requires
        find_thread(cached_threads, board, id) >= 0,
        written_row(cached_threads[find_thread(cached_threads, board, id)], now, board, id, subject, given),
        cached_posts == upsert_posts(before_posts, given),
        read == touched(cached_threads[find_thread(cached_threads, board, id)], read_at),
        listed_posts(read_posts, cached_posts, board, id),
        distinct_post_keys(given),
        forall|i: int| 0 <= i < given.len() ==> post_in_thread(#[trigger] given[i], board, id),
    ensures
        read.reply_count == given.len() - 1,
        read.image_count == media_count(given),
        sorted_by_number(read_posts),
        forall|i: int| 0 <= i < given.len() ==> read_posts.contains(#[trigger] given[i]),
{
    lemma_upserted_posts_present(before_posts, given);
    assert forall|i: int| 0 <= i < given.len() implies read_posts.contains(#[trigger] given[i]) by {
        let m = choose|m: int| 0 <= m < cached_posts.len() && cached_posts[m] == given[i];
        assert(post_in_thread(cached_posts[m], board, id));
    }
}


proof fn lemma_upserted_from(s: Seq<CachedPost>, ps: Seq<CachedPost>)
    ensures
        forall|i: int| 0 <= i < upsert_posts(s, ps).len() ==> s.contains(#[trigger] upsert_posts(s, ps)[i]) || ps.contains(upsert_posts(s, ps)[i]),
    decreases ps.len(),
{
    if ps.len() > 0 {
        let d = ps.drop_last();
        let p = ps.last();
        lemma_upserted_from(s, d);
        let u = upsert_posts(s, d);
        let v = upsert_post(u, p);
        crate::store::lemma_find_post_bounds(u, p.board@, p.post_no);
        let f = find_post(u, p.board@, p.post_no);
        assert forall|i: int| 0 <= i < v.len() implies s.contains(#[trigger] v[i]) || ps.contains(v[i]) by {
            if v[i] == p {
                assert(ps[ps.len() - 1] == p);
            } else {
                assert(i < u.len() && v[i] == u[i]);
                if !s.contains(u[i]) {
                    assert(d.contains(u[i]));
                    let m = choose|m: int| 0 <= m < d.len() && d[m] == u[i];
                    assert(ps[m] == d[m]);
                }
            }
        }
    }
}

/// Caching a thread whose posts the store did not hold yet and reading it
/// back gives exactly the posts given, in ascending post number.
pub proof fn lemma_read_after_first_cache(
    before_posts: Seq<CachedPost>,
    cached_posts: Seq<CachedPost>,
    board: Seq<char>,
    id: i64,
    given: Seq<CachedPost>,
    read_posts: Seq<CachedPost>,
)
    requires
        cached_posts == upsert_posts(before_posts, given),
        listed_posts(read_posts, cached_posts, board, id),
        distinct_post_keys(given),
        forall|i: int| 0 <= i < given.len() ==> post_in_thread(#[trigger] given[i], board, id),
        forall|j: int| 0 <= j < before_posts.len() ==> !post_in_thread(#[trigger] before_posts[j], board, id),
    ensures
        sorted_by_number(read_posts),
        forall|i: int| 0 <= i < given.len() ==> read_posts.contains(#[trigger] given[i]),
        forall|i: int| 0 <= i < read_posts.len() ==> given.contains(#[trigger] read_posts[i]),
{
    lemma_upserted_posts_present(before_posts, given);
    lemma_upserted_from(before_posts, given);
    assert forall|i: int| 0 <= i < given.len() implies read_posts.contains(#[trigger] given[i]) by {
        let m = choose|m: int| 0 <= m < cached_posts.len() && cached_posts[m] == given[i];
        assert(post_in_thread(cached_posts[m], board, id));
    }
    assert forall|i: int| 0 <= i < read_posts.len() implies given.contains(#[trigger] read_posts[i]) by {
        let x = read_posts[i];
        let m = choose|m: int| 0 <= m < cached_posts.len() && cached_posts[m] == x;
        if before_posts.contains(x) {
            let n = choose|n: int| 0 <= n < before_posts.len() && before_posts[n] == x;
            assert(!post_in_thread(before_posts[n], board, id));
        }
    }
}

/// A thread written at `written` is reported cached at `now` for an age bound
/// exactly when less time than the bound has passed since.
pub proof fn lemma_fresh_while_young(
    threads: Seq<CachedThread>,
    board: Seq<char>,
    id: i64,
    written: i64,
    now: i64,
    max_age_secs: i64,
)
    requires
        find_thread(threads, board, id) >= 0,
        threads[find_thread(threads, board, id)].cached_at == written,
    ensures
        fresh_in(threads, board, id, cutoff(now, max_age_secs)) <==> now - written < max_age_secs,
{
}

proof fn lemma_keep_recent_all(s: Seq<CachedThread>, cut: int)
    requires
        forall|i: int| 0 <= i < s.len() ==> (#[trigger] s[i]).cached_at >= cut,
    ensures
        keep_recent(s, cut) == s,
    decreases s.len(),
{
    if s.len() > 0 {
        let d = s.drop_last();
        assert forall|i: int| 0 <= i < d.len() implies (#[trigger] d[i]).cached_at >= cut by {
            assert(d[i] == s[i]);
        }
        lemma_keep_recent_all(d, cut);
        assert(d.push(s.last()) =~= s);
    }
}

proof fn lemma_keep_recent_none(s: Seq<CachedThread>, cut: int)
    requires
        forall|i: int| 0 <= i < s.len() ==> (#[trigger] s[i]).cached_at < cut,
    ensures
        keep_recent(s, cut).len() == 0,
    decreases s.len(),
{
    if s.len() > 0 {
        let d = s.drop_last();
        assert forall|i: int| 0 <= i < d.len() implies (#[trigger] d[i]).cached_at < cut by {
            assert(d[i] == s[i]);
        }
        lemma_keep_recent_none(d, cut);
    }
}

/// Age eviction with a zero age bound deletes every thread written before the
/// current second.
pub proof fn lemma_zero_age_evicts_all(threads: Seq<CachedThread>, now: i64)
    requires
        forall|i: int| 0 <= i < threads.len() ==> (#[trigger] threads[i]).cached_at < now,
    ensures
        keep_recent(threads, cutoff(now, 0)).len() == 0,
{
    lemma_keep_recent_none(threads, cutoff(now, 0));
}

/// Age eviction with a cutoff at or before every write deletes no thread.
pub proof fn lemma_huge_age_evicts_none(threads: Seq<CachedThread>, cut: int)
    requires
        forall|i: int| 0 <= i < threads.len() ==> cut <= (#[trigger] threads[i]).cached_at,
    ensures
        keep_recent(threads, cut) == threads,
{
    lemma_keep_recent_all(threads, cut);
}

/// Age eviction with the largest age bound in days deletes no thread,
/// whatever the time and the write times.
pub proof fn lemma_longest_age_evicts_none(threads: Seq<CachedThread>, now: i64)
    ensures
        keep_recent(threads, days_cutoff(now, i64::MAX)) == threads,
{
    lemma_keep_recent_all(threads, days_cutoff(now, i64::MAX));
}

/// After an age eviction no post is left without its thread.
pub proof fn lemma_age_eviction_leaves_no_orphans(
    threads: Seq<CachedThread>,
    posts: Seq<CachedPost>,
    cut: int,
)
    ensures
        no_orphans(keep_recent(threads, cut), attached_posts(posts, keep_recent(threads, cut))),
    decreases posts.len(),
{
    let kept = keep_recent(threads, cut);
    if posts.len() > 0 {
        lemma_age_eviction_leaves_no_orphans(threads, posts.drop_last(), cut);
        let a = attached_posts(posts, kept);
        let ad = attached_posts(posts.drop_last(), kept);
        assert forall|i: int| 0 <= i < a.len() implies crate::store::has_thread(kept, (#[trigger] a[i]).board@, a[i].thread_id) by {
            if i < ad.len() {
                assert(a[i] == ad[i]);
            }
        }
    }
}

/// Caching one thread keeps the row of every other thread as it was.
pub proof fn lemma_other_thread_kept(
    threads: Seq<CachedThread>,
    board: Seq<char>,
    id: i64,
    row: CachedThread,
)
    requires
        unique_threads(threads),
        find_thread(threads, board, id) >= 0,
        !thread_is(row, board, id),
    ensures
        find_thread(upsert_thread(threads, row), board, id) == find_thread(threads, board, id),
        upsert_thread(threads, row)[find_thread(threads, board, id)] == threads[find_thread(threads, board, id)],
{
    let k = find_thread(threads, board, id);
    crate::store::lemma_find_thread_bounds(threads, board, id);
    crate::store::lemma_find_thread_bounds(threads, row.board@, row.thread_id);
    let u = upsert_thread(threads, row);
    let f = find_thread(threads, row.board@, row.thread_id);
    assert(f != k);
    assert(u[k] == threads[k]);
    assert(unique_threads(u)) by {
        assert forall|a: int, b: int|
            0 <= a < u.len() && 0 <= b < u.len() && a != b && #[trigger] u[a].board@ == #[trigger] u[b].board@
            implies u[a].thread_id != u[b].thread_id by {
            if f >= 0 {
                if a == f {
                    assert(thread_is(threads[f], row.board@, row.thread_id));
                } else if b == f {
                    assert(thread_is(threads[f], row.board@, row.thread_id));
                } else {
                    assert(u[a] == threads[a] && u[b] == threads[b]);
                }
            } else {
                if a == threads.len() {
                    assert(!thread_is(threads[b], row.board@, row.thread_id));
                } else if b == threads.len() {
                    assert(!thread_is(threads[a], row.board@, row.thread_id));
                } else {
                    assert(u[a] == threads[a] && u[b] == threads[b]);
                }
            }
        }
    }
    crate::store::lemma_find_thread_at(u, board, id, k);
}


/// Size eviction settles: a step on a store measured within the bound
/// deletes nothing and leaves the store as it is, so a second eviction run
/// right after one that ended within the bound deletes nothing.
pub proof fn lemma_size_eviction_idempotent(
    before: ChanCache,
    after: ChanCache,
    measured_bytes: u64,
    max_bytes: u64,
    deleted: bool,
)
    requires
        ChanCache::size_stepped(before, after, measured_bytes, max_bytes, deleted),
        measured_bytes <= max_bytes,
    ensures
        !deleted,
        after.threads() == before.threads(),
        after.posts() == before.posts(),
{
}

/// A size eviction step over the bound deletes exactly one thread, and no
/// surviving thread was read earlier than it.
pub proof fn lemma_size_step_takes_least_read(
    before: ChanCache,
    after: ChanCache,
    measured_bytes: u64,
    max_bytes: u64,
    deleted: bool,
)
    requires
        before.wf(),
        ChanCache::size_stepped(before, after, measured_bytes, max_bytes, deleted),
        measured_bytes > max_bytes,
        before.threads().len() > 0,
    ensures
        deleted,
        after.threads().len() == before.threads().len() - 1,
        forall|a: int, b: int|
            0 <= a < before.threads().len() && 0 <= b < after.threads().len()
                && !after.threads().contains(#[trigger] before.threads()[a])
                ==> before.threads()[a].accessed_at <= (#[trigger] after.threads()[b]).accessed_at,
{
    let t = before.threads();
    let k = choose|k: int| #[trigger] first_least_read(t, k) && after.threads() == t.remove(k);
    crate::store::lemma_remove_thread(t, k);
    assert forall|a: int, b: int|
        0 <= a < t.len() && 0 <= b < after.threads().len() && !after.threads().contains(#[trigger] t[a])
        implies t[a].accessed_at <= (#[trigger] after.threads()[b]).accessed_at by {
        if a != k {
            assert(after.threads().contains(t[a]));
        }
        if b < k {
            assert(after.threads()[b] == t[b]);
        } else {
            assert(after.threads()[b] == t[b + 1]);
        }
    }
}

/// Caching posts keeps every stored post whose (board, post number) none of
/// them has: caching one thread leaves the posts of another as they were.
pub proof fn lemma_other_posts_kept(s: Seq<CachedPost>, ps: Seq<CachedPost>, kept: CachedPost)
    requires
        unique_posts(s),
        s.contains(kept),
        forall|i: int| 0 <= i < ps.len() ==> !post_is(#[trigger] ps[i], kept.board@, kept.post_no),
    ensures
        upsert_posts(s, ps).contains(kept),
        unique_posts(upsert_posts(s, ps)),
    decreases ps.len(),
{
    if ps.len() > 0 {
        let d = ps.drop_last();
        let p = ps.last();
        assert forall|i: int| 0 <= i < d.len() implies !post_is(#[trigger] d[i], kept.board@, kept.post_no) by {
            assert(d[i] == ps[i]);
        }
        lemma_other_posts_kept(s, d, kept);
        let u = upsert_posts(s, d);
        crate::store::lemma_find_post_bounds(u, p.board@, p.post_no);
        let f = find_post(u, p.board@, p.post_no);
        let m = choose|m: int| 0 <= m < u.len() && u[m] == kept;
        let v = upsert_post(u, p);
        assert(!post_is(p, kept.board@, kept.post_no));
        if f >= 0 {
            assert(f != m);
            assert(v[m] == kept);
        } else {
            assert(v[m] == kept);
        }
        assert(unique_posts(v)) by {
            assert forall|a: int, b: int|
                0 <= a < v.len() && 0 <= b < v.len() && a != b && #[trigger] v[a].board@ == #[trigger] v[b].board@
                implies v[a].post_no != v[b].post_no by {
                if f >= 0 {
                    if a != f && b != f {
                        assert(v[a] == u[a] && v[b] == u[b]);
                    } else if a == f {
                        assert(v[b] == u[b]);
                        assert(post_is(u[f], p.board@, p.post_no));
                    } else {
                        assert(v[a] == u[a]);
                        assert(post_is(u[f], p.board@, p.post_no));
                    }
                } else {
                    if a == u.len() {
                        assert(v[b] == u[b]);
                        assert(!post_is(u[b], p.board@, p.post_no));
                    } else if b == u.len() {
                        assert(v[a] == u[a]);
                        assert(!post_is(u[a], p.board@, p.post_no));
                    } else {
                        assert(v[a] == u[a] && v[b] == u[b]);
                    }
                }
            }
        }
    }
}


/// A run of size eviction steps that each deleted a thread removes threads
/// in the order they were read: no thread that survives the run was read
/// earlier than any thread the run deleted.
pub proof fn lemma_size_steps_take_least_read(
    states: Seq<ChanCache>,
    measured: Seq<u64>,
    max_bytes: u64,
)
    requires
        states.len() >= 1,
        measured.len() + 1 == states.len(),
        forall|i: int| 0 <= i < states.len() ==> (#[trigger] states[i]).wf(),
        forall|i: int| 0 <= i < measured.len() ==> ChanCache::size_stepped(states[i], states[i + 1], #[trigger] measured[i], max_bytes, true),
    ensures
        forall|j: int| 0 <= j < states.last().threads().len() ==> states[0].threads().contains(#[trigger] states.last().threads()[j]),
        forall|a: int, b: int|
            0 <= a < states[0].threads().len() && 0 <= b < states.last().threads().len()
                && !states.last().threads().contains(#[trigger] states[0].threads()[a])
                ==> states[0].threads()[a].accessed_at <= (#[trigger] states.last().threads()[b]).accessed_at,
    decreases states.len(),
{
    let first = states[0].threads();
    let last = states.last().threads();
    if states.len() == 1 {
        assert forall|a: int, b: int|
            0 <= a < first.len() && 0 <= b < last.len() && !last.contains(#[trigger] first[a])
            implies first[a].accessed_at <= (#[trigger] last[b]).accessed_at by {
            assert(last.contains(first[a]));
        }
        assert forall|j: int| 0 <= j < last.len() implies first.contains(#[trigger] last[j]) by {}
    } else {
        let n = states.len() - 1;
        let head = states.drop_last();
        let head_measured = measured.drop_last();
        assert forall|i: int| 0 <= i < head_measured.len() implies ChanCache::size_stepped(head[i], head[i + 1], #[trigger] head_measured[i], max_bytes, true) by {
            assert(head[i] == states[i] && head[i + 1] == states[i + 1] && head_measured[i] == measured[i]);
        }
        assert forall|i: int| 0 <= i < head.len() implies (#[trigger] head[i]).wf() by {
            assert(head[i] == states[i]);
        }
        lemma_size_steps_take_least_read(head, head_measured, max_bytes);
        let mid = states[n - 1].threads();
        assert(head.last() == states[n - 1]);
        assert(head[0] == states[0]);
        assert(ChanCache::size_stepped(states[n - 1], states[n], measured[n - 1], max_bytes, true));
        let k = choose|k: int| #[trigger] first_least_read(mid, k) && last == mid.remove(k);
        crate::store::lemma_remove_thread(mid, k);
        assert forall|j: int| 0 <= j < last.len() implies first.contains(#[trigger] last[j]) by {
            assert(mid.contains(last[j]));
            let m = choose|m: int| 0 <= m < mid.len() && mid[m] == last[j];
            assert(first.contains(mid[m]));
        }
        assert forall|a: int, b: int|
            0 <= a < first.len() && 0 <= b < last.len() && !last.contains(#[trigger] first[a])
            implies first[a].accessed_at <= (#[trigger] last[b]).accessed_at by {
            let c = if b < k { b } else { b + 1 };
            assert(last[b] == mid[c]);
            if mid.contains(first[a]) {
                let m = choose|m: int| 0 <= m < mid.len() && mid[m] == first[a];
                if m != k {
                    assert(last.contains(mid[m]));
                }
            }
        }
    }
}

} // verus!
