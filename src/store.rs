use vstd::prelude::*;

verus! {

/// The cached snapshot of one thread.
#[derive(Clone, Debug)]
pub struct CachedThread {
    pub board: String,
    pub thread_id: i64,
    pub subject: Option<String>,
    /// Number of stored posts minus one (the opening post is no reply).
    pub reply_count: i32,
    /// Number of stored posts that carry media.
    pub image_count: i32,
    pub last_modified: i64,
    /// When the snapshot was written, in seconds since the epoch.
    pub cached_at: i64,
    /// When the snapshot was last read, in seconds since the epoch.
    pub accessed_at: i64,
}

/// One cached post, with its attachment descriptor where it has one.
#[derive(Clone, Debug)]
pub struct CachedPost {
    pub board: String,
    pub thread_id: i64,
    pub post_no: i64,
    pub resto: i64,
    pub time: i64,
    pub name: Option<String>,
    pub trip: Option<String>,
    pub subject: Option<String>,
    pub comment: Option<String>,
    /// The media id; a post has media exactly when this is present.
    pub tim: Option<i64>,
    pub ext: Option<String>,
    pub filename: Option<String>,
    pub fsize: Option<i64>,
    pub w: Option<i32>,
    pub h: Option<i32>,
}



/// Why the store refuses to write a thread.
#[derive(Clone, Copy, Debug, PartialEq, Eq, Structural)]
pub enum StoreError {
    /// A thread has at least its opening post.
    EmptyThread,
    /// More posts than the reply and image counts can hold.
    TooManyPosts,
    /// The system clock reads before the Unix epoch or beyond what an `i64`
    /// holds, so no time can be written or compared.
    ClockUnavailable,
}

impl StoreError {
    pub open spec fn message_spec(self) -> Seq<char> {
        match self {
            StoreError::EmptyThread => "thread has no posts"@,
            StoreError::TooManyPosts => "thread has too many posts"@,
            StoreError::ClockUnavailable => "system clock unavailable"@,
        }
    }

    /// The error as text, for the user interface.
    pub fn message(&self) -> (r: &'static str)
        ensures
            r@ == self.message_spec(),
    {
        match self {
            StoreError::EmptyThread => "thread has no posts",
            StoreError::TooManyPosts => "thread has too many posts",
            StoreError::ClockUnavailable => "system clock unavailable",
        }
    }
}

/// A cached thread as handed to the user interface: the thread row with its
/// posts.
#[derive(Clone, Debug)]
pub struct CachedThreadResponse {
    pub board: String,
    pub thread_id: i64,
    pub subject: Option<String>,
    pub reply_count: i32,
    pub image_count: i32,
    pub last_modified: i64,
    pub cached_at: i64,
    pub posts: Vec<CachedPost>,
}

/// How many threads a cleanup deleted, by age and by size.
#[derive(Clone, Copy, Debug, PartialEq, Eq, Structural)]
pub struct CleanupResult {
    pub deleted_by_age: i64,
    pub deleted_by_size: i64,
}

/// The thread and post store: at most one thread per (board, thread id) and at
/// most one post per (board, post number).
pub struct ChanCache {
    threads: Vec<CachedThread>,
    posts: Vec<CachedPost>,
}

pub open spec fn thread_is(t: CachedThread, board: Seq<char>, id: i64) -> bool {
    t.board@ == board && t.thread_id == id
}

pub open spec fn post_is(p: CachedPost, board: Seq<char>, no: i64) -> bool {
    p.board@ == board && p.post_no == no
}

pub open spec fn unique_threads(s: Seq<CachedThread>) -> bool {
    forall|i: int, j: int|
        0 <= i < s.len() && 0 <= j < s.len() && i != j && #[trigger] s[i].board@ == #[trigger] s[j].board@
            ==> s[i].thread_id != s[j].thread_id
}

pub open spec fn unique_posts(s: Seq<CachedPost>) -> bool {
    forall|i: int, j: int|
        0 <= i < s.len() && 0 <= j < s.len() && i != j && #[trigger] s[i].board@ == #[trigger] s[j].board@
            ==> s[i].post_no != s[j].post_no
}

/// Index of the thread stored under (board, id), or -1.
pub open spec fn find_thread(s: Seq<CachedThread>, board: Seq<char>, id: i64) -> int
    decreases s.len(),
{
    if s.len() == 0 {
        -1
    } else if thread_is(s.last(), board, id) {
        s.len() - 1
    } else {
        find_thread(s.drop_last(), board, id)
    }
}

/// Index of the post stored under (board, no), or -1.
pub open spec fn find_post(s: Seq<CachedPost>, board: Seq<char>, no: i64) -> int
    decreases s.len(),
{
    if s.len() == 0 {
        -1
    } else if post_is(s.last(), board, no) {
        s.len() - 1
    } else {
        find_post(s.drop_last(), board, no)
    }
}

/// Insert-or-replace of a thread row, keyed by (board, thread id).
pub open spec fn upsert_thread(s: Seq<CachedThread>, t: CachedThread) -> Seq<CachedThread> {
    let i = find_thread(s, t.board@, t.thread_id);
    if i >= 0 {
        s.update(i, t)
    } else {
        s.push(t)
    }
}

/// Insert-or-replace of a post row, keyed by (board, post number).
pub open spec fn upsert_post(s: Seq<CachedPost>, p: CachedPost) -> Seq<CachedPost> {
    let i = find_post(s, p.board@, p.post_no);
    if i >= 0 {
        s.update(i, p)
    } else {
        s.push(p)
    }
}

/// The posts `ps` upserted one after the other.
pub open spec fn upsert_posts(s: Seq<CachedPost>, ps: Seq<CachedPost>) -> Seq<CachedPost>
    decreases ps.len(),
{
    if ps.len() == 0 {
        s
    } else {
        upsert_post(upsert_posts(s, ps.drop_last()), ps.last())
    }
}

/// A lookup by key lands on -1 or on a row of that key, and on -1 only when no row has it.
pub proof fn lemma_find_thread_bounds(s: Seq<CachedThread>, board: Seq<char>, id: i64)
    ensures
        -1 <= find_thread(s, board, id) < s.len(),
        find_thread(s, board, id) >= 0 ==> thread_is(s[find_thread(s, board, id)], board, id),
        find_thread(s, board, id) == -1 ==> forall|j: int|
            0 <= j < s.len() ==> !thread_is(#[trigger] s[j], board, id),
    decreases s.len(),
{
    if s.len() > 0 {
        lemma_find_thread_bounds(s.drop_last(), board, id);
        if find_thread(s, board, id) == -1 {
            assert forall|j: int| 0 <= j < s.len() implies !thread_is(#[trigger] s[j], board, id) by {
                if j < s.len() - 1 {
                    assert(s[j] == s.drop_last()[j]);
                }
            }
        }
    }
}

/// With unique keys, a lookup finds the one row of that key.
pub proof fn lemma_find_thread_at(s: Seq<CachedThread>, board: Seq<char>, id: i64, j: int)
    requires
        unique_threads(s),
        0 <= j < s.len(),
        thread_is(s[j], board, id),
    ensures
        find_thread(s, board, id) == j,
    decreases s.len(),
{
    if j < s.len() - 1 {
        assert(!thread_is(s[s.len() - 1], board, id));
        let t = s.drop_last();
        assert(t[j] == s[j]);
        assert forall|a: int, b: int|
            0 <= a < t.len() && 0 <= b < t.len() && a != b && #[trigger] t[a].board@
                == #[trigger] t[b].board@ implies t[a].thread_id != t[b].thread_id by {
            assert(t[a] == s[a] && t[b] == s[b]);
        }
        lemma_find_thread_at(t, board, id, j);
    }
}




/// A lookup by key lands on -1 or on a row of that key, and on -1 only when no row has it.
pub proof fn lemma_find_post_bounds(s: Seq<CachedPost>, board: Seq<char>, no: i64)
    ensures
        -1 <= find_post(s, board, no) < s.len(),
        find_post(s, board, no) >= 0 ==> post_is(s[find_post(s, board, no)], board, no),
        find_post(s, board, no) == -1 ==> forall|j: int|
            0 <= j < s.len() ==> !post_is(#[trigger] s[j], board, no),
    decreases s.len(),
{
    if s.len() > 0 {
        lemma_find_post_bounds(s.drop_last(), board, no);
        if find_post(s, board, no) == -1 {
            assert forall|j: int| 0 <= j < s.len() implies !post_is(#[trigger] s[j], board, no) by {
                if j < s.len() - 1 {
                    assert(s[j] == s.drop_last()[j]);
                }
            }
        }
    }
}



/// With unique keys, a lookup finds the one row of that key.
pub proof fn lemma_find_post_at(s: Seq<CachedPost>, board: Seq<char>, no: i64, j: int)
    requires
        unique_posts(s),
        0 <= j < s.len(),
        post_is(s[j], board, no),
    ensures
        find_post(s, board, no) == j,
    decreases s.len(),
{
    if j < s.len() - 1 {
        assert(!post_is(s[s.len() - 1], board, no));
        let t = s.drop_last();
        assert(t[j] == s[j]);
        assert forall|a: int, b: int|
            0 <= a < t.len() && 0 <= b < t.len() && a != b && #[trigger] t[a].board@
                == #[trigger] t[b].board@ implies t[a].post_no != t[b].post_no by {
            assert(t[a] == s[a] && t[b] == s[b]);
        }
        lemma_find_post_at(t, board, no, j);
    }
}

/// A copy of a post, field by field.
pub fn copy_post(p: &CachedPost) -> (r: CachedPost)
    ensures
        r == *p,
{
    CachedPost {
        board: p.board.clone(),
        thread_id: p.thread_id,
        post_no: p.post_no,
        resto: p.resto,
        time: p.time,
        name: copy_text(&p.name),
        trip: copy_text(&p.trip),
        subject: copy_text(&p.subject),
        comment: copy_text(&p.comment),
        tim: p.tim,
        ext: copy_text(&p.ext),
        filename: copy_text(&p.filename),
        fsize: p.fsize,
        w: p.w,
        h: p.h,
    }
}

fn copy_text(s: &Option<String>) -> (r: Option<String>)
    ensures
        r == *s,
{
    match s {
        Some(t) => Some(t.clone()),
        None => None,
    }
}

/// A copy of a thread row, field by field.
pub fn copy_thread(t: &CachedThread) -> (r: CachedThread)
    ensures
        r == *t,
{
    CachedThread {
        board: t.board.clone(),
        thread_id: t.thread_id,
        subject: copy_text(&t.subject),
        reply_count: t.reply_count,
        image_count: t.image_count,
        last_modified: t.last_modified,
        cached_at: t.cached_at,
        accessed_at: t.accessed_at,
    }
}


/// Number of posts in `ps` that carry media.
pub open spec fn media_count(ps: Seq<CachedPost>) -> nat
    decreases ps.len(),
{
    if ps.len() == 0 {
        0
    } else {
        media_count(ps.drop_last()) + if ps.last().tim is Some {
            1nat
        } else {
            0nat
        }
    }
}

pub open spec fn text_view(o: Option<String>) -> Option<Seq<char>> {
    match o {
        Some(s) => Some(s@),
        None => None,
    }
}

pub open spec fn str_view(o: Option<&str>) -> Option<Seq<char>> {
    match o {
        Some(s) => Some(s@),
        None => None,
    }
}

/// `t` is the thread row that caching `ps` under (board, id) writes at time `now`.
pub open spec fn written_row(
    t: CachedThread,
    now: i64,
    board: Seq<char>,
    id: i64,
    subject: Option<Seq<char>>,
    ps: Seq<CachedPost>,
) -> bool {
    &&& thread_is(t, board, id)
    &&& text_view(t.subject) == subject
    &&& t.reply_count == ps.len() - 1
    &&& t.image_count == media_count(ps)
    &&& t.last_modified == now
    &&& t.cached_at == now
    &&& t.accessed_at == now
}

/// `t` with its read time set to `now`.
pub open spec fn touched(t: CachedThread, now: i64) -> CachedThread {
    CachedThread {
        board: t.board,
        thread_id: t.thread_id,
        subject: t.subject,
        reply_count: t.reply_count,
        image_count: t.image_count,
        last_modified: t.last_modified,
        cached_at: t.cached_at,
        accessed_at: now,
    }
}

pub open spec fn post_in_thread(p: CachedPost, board: Seq<char>, id: i64) -> bool {
    p.board@ == board && p.thread_id == id
}

pub open spec fn sorted_by_number(s: Seq<CachedPost>) -> bool {
    forall|i: int, j: int| 0 <= i < j < s.len() ==> #[trigger] s[i].post_no < #[trigger] s[j].post_no
}

/// `out` lists exactly the posts of `all` that belong to thread (board, id),
/// in ascending post number.
pub open spec fn listed_posts(out: Seq<CachedPost>, all: Seq<CachedPost>, board: Seq<char>, id: i64) -> bool {
    &&& sorted_by_number(out)
    &&& forall|i: int| 0 <= i < out.len() ==> post_in_thread(#[trigger] out[i], board, id) && all.contains(out[i])
    &&& forall|j: int| 0 <= j < all.len() && post_in_thread(#[trigger] all[j], board, id) ==> out.contains(all[j])
}

/// `now - max_age`, exactly.
pub open spec fn cutoff(now: i64, max_age: i64) -> int {
    now - max_age
}

/// `now` less `days` whole days, exactly.
pub open spec fn days_cutoff(now: i64, days: i64) -> int {
    now - days * 86400
}

/// A thread is stored under (board, id) and was written after `cut`.
pub open spec fn fresh_in(s: Seq<CachedThread>, board: Seq<char>, id: i64, cut: int) -> bool {
    find_thread(s, board, id) >= 0 && s[find_thread(s, board, id)].cached_at > cut
}

proof fn lemma_media_count_bound(ps: Seq<CachedPost>)
    ensures
        media_count(ps) <= ps.len(),
    decreases ps.len(),
{
    if ps.len() > 0 {
        lemma_media_count_bound(ps.drop_last());
    }
}

/// Computes `now - max_age`, exactly.
pub fn cutoff_of(now: i64, max_age: i64) -> (r: i128)
    ensures
        r == cutoff(now, max_age),
{
    now as i128 - max_age as i128
}

/// Computes `now` less `days` whole days, exactly.
pub fn days_cutoff_of(now: i64, days: i64) -> (r: i128)
    ensures
        r == days_cutoff(now, days),
{
    now as i128 - (days as i128) * 86400
}

proof fn lemma_insert_sorted(o: Seq<CachedPost>, pos: int, p: CachedPost)
    requires
        sorted_by_number(o),
        0 <= pos <= o.len(),
        forall|i: int| 0 <= i < pos ==> (#[trigger] o[i]).post_no < p.post_no,
        pos < o.len() ==> o[pos].post_no > p.post_no,
    ensures
        sorted_by_number(o.insert(pos, p)),
        o.insert(pos, p).contains(p),
        forall|i: int| 0 <= i < o.insert(pos, p).len() ==> #[trigger] o.insert(pos, p)[i] == p || o.contains(o.insert(pos, p)[i]),
        forall|i: int| 0 <= i < o.len() ==> o.insert(pos, p).contains(#[trigger] o[i]),
{
    let f = o.insert(pos, p);
    assert(f[pos] == p);
    assert forall|i: int| 0 <= i < f.len() implies #[trigger] f[i] == p || o.contains(f[i]) by {
        if i < pos {
            assert(f[i] == o[i]);
        } else if i > pos {
            assert(f[i] == o[i - 1]);
        }
    }
    assert forall|i: int| 0 <= i < o.len() implies f.contains(#[trigger] o[i]) by {
        if i < pos {
            assert(f[i] == o[i]);
        } else {
            assert(f[i + 1] == o[i]);
        }
    }
    assert forall|i: int, j: int| 0 <= i < j < f.len() implies #[trigger] f[i].post_no < #[trigger] f[j].post_no by {
        if j < pos {
            assert(f[i] == o[i] && f[j] == o[j]);
        } else if j == pos {
            assert(f[i] == o[i]);
        } else if i < pos {
            assert(f[i] == o[i] && f[j] == o[j - 1]);
            if j - 1 > pos {
                assert(o[pos].post_no < o[j - 1].post_no);
            }
        } else if i == pos {
            assert(f[j] == o[j - 1]);
            if j - 1 > pos {
                assert(o[pos].post_no < o[j - 1].post_no);
            }
        } else {
            assert(f[i] == o[i - 1] && f[j] == o[j - 1]);
        }
    }
}

#[verifier::spinoff_prover]
fn insert_by_number(out: &mut Vec<CachedPost>, p: CachedPost)
    requires
        sorted_by_number(old(out)@),
        forall|i: int| 0 <= i < old(out)@.len() ==> (#[trigger] old(out)@[i]).post_no != p.post_no,
    ensures
        sorted_by_number(final(out)@),
        final(out)@.len() == old(out)@.len() + 1,
        final(out)@.contains(p),
        forall|i: int| 0 <= i < final(out)@.len() ==> #[trigger] final(out)@[i] == p || old(out)@.contains(final(out)@[i]),
        forall|i: int| 0 <= i < old(out)@.len() ==> final(out)@.contains(#[trigger] old(out)@[i]),
{
    let mut pos: usize = 0;
    while pos < out.len() && out[pos].post_no < p.post_no
        invariant
            pos <= out@.len(),
            forall|i: int| 0 <= i < pos ==> (#[trigger] out@[i]).post_no < p.post_no,
        decreases out@.len() - pos,
    {
        pos = pos + 1;
    }
    proof {
        if pos < out@.len() {
            assert(out@[pos as int].post_no != p.post_no);
        }
        lemma_insert_sorted(out@, pos as int, p);
    }
    out.insert(pos, p);
}


/// Age bound of the automatic cleanup, in days.
pub const DEFAULT_MAX_AGE_DAYS: i64 = 7;

/// Size bound of the automatic cleanup, in mebibytes.
pub const DEFAULT_MAX_SIZE_MB: u64 = 100;

/// `n`, capped at `u64::MAX`.
pub open spec fn capped(n: nat) -> nat {
    if n > u64::MAX {
        u64::MAX as nat
    } else {
        n
    }
}

/// Some thread is stored under (board, id).
pub open spec fn has_thread(s: Seq<CachedThread>, board: Seq<char>, id: i64) -> bool {
    exists|i: int| 0 <= i < s.len() && thread_is(#[trigger] s[i], board, id)
}

/// Every post belongs to a stored thread.
pub open spec fn no_orphans(threads: Seq<CachedThread>, posts: Seq<CachedPost>) -> bool {
    forall|i: int| 0 <= i < posts.len() ==> has_thread(threads, (#[trigger] posts[i]).board@, posts[i].thread_id)
}

/// The threads of `s` written at or after `cut`, in order.
pub open spec fn keep_recent(s: Seq<CachedThread>, cut: int) -> Seq<CachedThread>
    decreases s.len(),
{
    if s.len() == 0 {
        s
    } else if s.last().cached_at < cut {
        keep_recent(s.drop_last(), cut)
    } else {
        keep_recent(s.drop_last(), cut).push(s.last())
    }
}

/// The posts of `s` that belong to a thread of `threads`, in order.
pub open spec fn attached_posts(s: Seq<CachedPost>, threads: Seq<CachedThread>) -> Seq<CachedPost>
    decreases s.len(),
{
    if s.len() == 0 {
        s
    } else if has_thread(threads, s.last().board@, s.last().thread_id) {
        attached_posts(s.drop_last(), threads).push(s.last())
    } else {
        attached_posts(s.drop_last(), threads)
    }
}

/// A count as an `i64`, capped at `i64::MAX`.
pub open spec fn count_of(n: nat) -> i64 {
    if n > i64::MAX {
        i64::MAX
    } else {
        n as i64
    }
}

/// `mb` mebibytes in bytes, capped at `u64::MAX`.
pub open spec fn mb_in_bytes(mb: u64) -> u64 {
    capped((mb * 1048576) as nat) as u64
}


pub open spec fn min_cached_at(s: Seq<CachedThread>) -> i64
    decreases s.len(),
{
    if s.len() <= 1 {
        s.last().cached_at
    } else if s.last().cached_at < min_cached_at(s.drop_last()) {
        s.last().cached_at
    } else {
        min_cached_at(s.drop_last())
    }
}

pub open spec fn max_cached_at(s: Seq<CachedThread>) -> i64
    decreases s.len(),
{
    if s.len() <= 1 {
        s.last().cached_at
    } else if s.last().cached_at > max_cached_at(s.drop_last()) {
        s.last().cached_at
    } else {
        max_cached_at(s.drop_last())
    }
}

/// What a store holds, in numbers.
#[derive(Clone, Copy, Debug, PartialEq, Eq, Structural)]
pub struct CacheStats {
    pub thread_count: i64,
    pub post_count: i64,
    /// The size of the store's file, as measured by its owner.
    pub db_size_bytes: u64,
    /// The earliest write time among the threads; `None` when there are none.
    pub oldest_cache_timestamp: Option<i64>,
    /// The latest write time among the threads; `None` when there are none.
    pub newest_cache_timestamp: Option<i64>,
}

proof fn lemma_keep_recent_from(s: Seq<CachedThread>, cut: int)
    ensures
        keep_recent(s, cut).len() <= s.len(),
        forall|i: int| 0 <= i < keep_recent(s, cut).len() ==> s.contains(#[trigger] keep_recent(s, cut)[i]),
        unique_threads(s) ==> unique_threads(keep_recent(s, cut)),
        forall|i: int| 0 <= i < keep_recent(s, cut).len() ==> (#[trigger] keep_recent(s, cut)[i]).cached_at >= cut,
        forall|i: int| 0 <= i < s.len() && (#[trigger] s[i]).cached_at >= cut ==> keep_recent(s, cut).contains(s[i]),
    decreases s.len(),
{
    if s.len() > 0 {
        let d = s.drop_last();
        lemma_keep_recent_from(d, cut);
        let k = keep_recent(s, cut);
        let kd = keep_recent(d, cut);
        assert forall|i: int| 0 <= i < k.len() implies s.contains(#[trigger] k[i]) by {
            if i < kd.len() {
                assert(k[i] == kd[i]);
                let m = choose|m: int| 0 <= m < d.len() && d[m] == kd[i];
                assert(s[m] == d[m]);
            } else {
                assert(k[i] == s[s.len() - 1]);
            }
        }
        assert forall|i: int| 0 <= i < s.len() && (#[trigger] s[i]).cached_at >= cut implies k.contains(s[i]) by {
            if i < s.len() - 1 {
                assert(s[i] == d[i]);
                let m = choose|m: int| 0 <= m < kd.len() && kd[m] == d[i];
                assert(k[m] == kd[m]);
            } else {
                assert(k[k.len() - 1] == s[i]);
            }
        }
        if unique_threads(s) {
            assert(unique_threads(d)) by {
                assert forall|a: int, b: int|
                    0 <= a < d.len() && 0 <= b < d.len() && a != b && #[trigger] d[a].board@ == #[trigger] d[b].board@
                    implies d[a].thread_id != d[b].thread_id by {
                    assert(d[a] == s[a] && d[b] == s[b]);
                }
            }
            assert forall|a: int, b: int|
                0 <= a < k.len() && 0 <= b < k.len() && a != b && #[trigger] k[a].board@ == #[trigger] k[b].board@
                implies k[a].thread_id != k[b].thread_id by {
                if a < kd.len() && b < kd.len() {
                    assert(k[a] == kd[a] && k[b] == kd[b]);
                } else if a < kd.len() {
                    assert(k[a] == kd[a]);
                    let m = choose|m: int| 0 <= m < d.len() && d[m] == kd[a];
                    assert(s[m] == k[a] && s[s.len() - 1] == k[b]);
                } else {
                    assert(k[b] == kd[b]);
                    let m = choose|m: int| 0 <= m < d.len() && d[m] == kd[b];
                    assert(s[m] == k[b] && s[s.len() - 1] == k[a]);
                }
            }
        }
    }
}

proof fn lemma_attached_from(s: Seq<CachedPost>, threads: Seq<CachedThread>)
    ensures
        attached_posts(s, threads).len() <= s.len(),
        forall|i: int| 0 <= i < attached_posts(s, threads).len() ==> s.contains(#[trigger] attached_posts(s, threads)[i]),
        unique_posts(s) ==> unique_posts(attached_posts(s, threads)),
        no_orphans(threads, attached_posts(s, threads)),
        forall|i: int| 0 <= i < s.len() && has_thread(threads, (#[trigger] s[i]).board@, s[i].thread_id)
            ==> attached_posts(s, threads).contains(s[i]),
    decreases s.len(),
{
    if s.len() > 0 {
        let d = s.drop_last();
        lemma_attached_from(d, threads);
        let k = attached_posts(s, threads);
        let kd = attached_posts(d, threads);
        assert forall|i: int| 0 <= i < k.len() implies s.contains(#[trigger] k[i]) by {
            if i < kd.len() {
                assert(k[i] == kd[i]);
                let m = choose|m: int| 0 <= m < d.len() && d[m] == kd[i];
                assert(s[m] == d[m]);
            } else {
                assert(k[i] == s[s.len() - 1]);
            }
        }
        assert forall|i: int| 0 <= i < k.len() implies has_thread(threads, (#[trigger] k[i]).board@, k[i].thread_id) by {
            if i < kd.len() {
                assert(k[i] == kd[i]);
            }
        }
        assert forall|i: int| 0 <= i < s.len() && has_thread(threads, (#[trigger] s[i]).board@, s[i].thread_id)
            implies k.contains(s[i]) by {
            if i < s.len() - 1 {
                assert(s[i] == d[i]);
                let m = choose|m: int| 0 <= m < kd.len() && kd[m] == d[i];
                assert(k[m] == kd[m]);
            } else {
                assert(k[k.len() - 1] == s[i]);
            }
        }
        if unique_posts(s) {
            assert(unique_posts(d)) by {
                assert forall|a: int, b: int|
                    0 <= a < d.len() && 0 <= b < d.len() && a != b && #[trigger] d[a].board@ == #[trigger] d[b].board@
                    implies d[a].post_no != d[b].post_no by {
                    assert(d[a] == s[a] && d[b] == s[b]);
                }
            }
            assert forall|a: int, b: int|
                0 <= a < k.len() && 0 <= b < k.len() && a != b && #[trigger] k[a].board@ == #[trigger] k[b].board@
                implies k[a].post_no != k[b].post_no by {
                if a < kd.len() && b < kd.len() {
                    assert(k[a] == kd[a] && k[b] == kd[b]);
                } else if a < kd.len() {
                    assert(k[a] == kd[a]);
                    let m = choose|m: int| 0 <= m < d.len() && d[m] == kd[a];
                    assert(s[m] == k[a] && s[s.len() - 1] == k[b]);
                } else {
                    assert(k[b] == kd[b]);
                    let m = choose|m: int| 0 <= m < d.len() && d[m] == kd[b];
                    assert(s[m] == k[b] && s[s.len() - 1] == k[a]);
                }
            }
        }
    }
}


pub proof fn lemma_remove_thread(s: Seq<CachedThread>, i: int)
    requires
        0 <= i < s.len(),
    ensures
        unique_threads(s) ==> unique_threads(s.remove(i)),
        forall|k: int| 0 <= k < s.remove(i).len() ==> s.contains(#[trigger] s.remove(i)[k]),
        forall|k: int| 0 <= k < s.len() && k != i ==> s.remove(i).contains(#[trigger] s[k]),
        forall|b: Seq<char>, id: i64| has_thread(s.remove(i), b, id) ==> has_thread(s, b, id),
{
    let r = s.remove(i);
    assert forall|k: int| 0 <= k < r.len() implies s.contains(#[trigger] r[k]) by {
        if k < i {
            assert(r[k] == s[k]);
        } else {
            assert(r[k] == s[k + 1]);
        }
    }
    assert forall|k: int| 0 <= k < s.len() && k != i implies r.contains(#[trigger] s[k]) by {
        if k < i {
            assert(r[k] == s[k]);
        } else {
            assert(r[k - 1] == s[k]);
        }
    }
    assert forall|b: Seq<char>, id: i64| has_thread(r, b, id) implies has_thread(s, b, id) by {
        let w = choose|w: int| 0 <= w < r.len() && thread_is(#[trigger] r[w], b, id);
        if w < i {
            assert(r[w] == s[w]);
        } else {
            assert(r[w] == s[w + 1]);
        }
    }
    if unique_threads(s) {
        assert forall|a: int, b: int|
            0 <= a < r.len() && 0 <= b < r.len() && a != b && #[trigger] r[a].board@ == #[trigger] r[b].board@
            implies r[a].thread_id != r[b].thread_id by {
            let sa = if a < i { a } else { a + 1 };
            let sb = if b < i { b } else { b + 1 };
            assert(r[a] == s[sa] && r[b] == s[sb]);
        }
    }
}





/// `k` is the first index of a least recently read thread of `s`.
pub open spec fn first_least_read(s: Seq<CachedThread>, k: int) -> bool {
    &&& 0 <= k < s.len()
    &&& forall|b: int| 0 <= b < s.len() ==> s[k].accessed_at <= (#[trigger] s[b]).accessed_at
    &&& forall|b: int| 0 <= b < k ==> (#[trigger] s[b]).accessed_at > s[k].accessed_at
}

/// Converts a count to an `i64`, capped at `i64::MAX`.
pub fn count_to_i64(n: usize) -> (r: i64)
    ensures
        r == count_of(n as nat),
{
    let m = n as u64;
    if m > 9223372036854775807u64 {
        i64::MAX
    } else {
        m as i64
    }
}

/// Converts mebibytes to bytes, capped at `u64::MAX`.
pub fn mb_to_bytes(mb: u64) -> (r: u64)
    ensures
        r == mb_in_bytes(mb),
{
    if mb > 17592186044415 {
        u64::MAX
    } else {
        mb * 1048576
    }
}

impl ChanCache {
    /// The stored threads.
    pub closed spec fn threads(&self) -> Seq<CachedThread> {
        self.threads@
    }

    /// The stored posts.
    pub closed spec fn posts(&self) -> Seq<CachedPost> {
        self.posts@
    }

    pub open spec fn wf(&self) -> bool {
        unique_threads(self.threads()) && unique_posts(self.posts())
    }

    /// An empty store.
    pub fn new() -> (r: Self)
        ensures
            r.wf(),
            r.threads() == Seq::<CachedThread>::empty(),
            r.posts() == Seq::<CachedPost>::empty(),
    {
        ChanCache { threads: Vec::new(), posts: Vec::new() }
    }

    /// The stored threads, for persisting them.
    pub fn thread_rows(&self) -> (r: &[CachedThread])
        ensures
            r@ == self.threads(),
    {
        self.threads.as_slice()
    }

    /// The stored posts, for persisting them.
    pub fn post_rows(&self) -> (r: &[CachedPost])
        ensures
            r@ == self.posts(),
    {
        self.posts.as_slice()
    }

    fn locate_thread(&self, board: &String, id: i64) -> (r: Option<usize>)
        requires
            self.wf(),
        ensures
            match r {
                Some(j) => j == find_thread(self.threads(), board@, id) && j < self.threads().len(),
                None => find_thread(self.threads(), board@, id) == -1,
            },
    {
        let mut k: usize = 0;
        while k < self.threads.len()
            invariant
                self.wf(),
                k <= self.threads@.len(),
                forall|m: int| 0 <= m < k ==> !thread_is(#[trigger] self.threads@[m], board@, id),
            decreases self.threads@.len() - k,
        {
            if self.threads[k].board == *board && self.threads[k].thread_id == id {
                proof {
                    lemma_find_thread_at(self.threads@, board@, id, k as int);
                }
                return Some(k);
            }
            k = k + 1;
        }
        proof {
            lemma_find_thread_bounds(self.threads@, board@, id);
            if find_thread(self.threads@, board@, id) >= 0 {
                let f = find_thread(self.threads@, board@, id);
                assert(!thread_is(self.threads@[f], board@, id));
            }
        }
        None
    }

    fn locate_post(&self, board: &String, no: i64) -> (r: Option<usize>)
        requires
            self.wf(),
        ensures
            match r {
                Some(j) => j == find_post(self.posts(), board@, no) && j < self.posts().len(),
                None => find_post(self.posts(), board@, no) == -1,
            },
    {
        let mut k: usize = 0;
        while k < self.posts.len()
            invariant
                self.wf(),
                k <= self.posts@.len(),
                forall|m: int| 0 <= m < k ==> !post_is(#[trigger] self.posts@[m], board@, no),
            decreases self.posts@.len() - k,
        {
            if self.posts[k].board == *board && self.posts[k].post_no == no {
                proof {
                    lemma_find_post_at(self.posts@, board@, no, k as int);
                }
                return Some(k);
            }
            k = k + 1;
        }
        proof {
            lemma_find_post_bounds(self.posts@, board@, no);
            if find_post(self.posts@, board@, no) >= 0 {
                let f = find_post(self.posts@, board@, no);
                assert(!post_is(self.posts@[f], board@, no));
            }
        }
        None
    }

    /// Inserts or replaces a thread row as it is, keyed by (board, thread id).
    pub fn upsert_thread_row(&mut self, t: CachedThread)
        requires
            old(self).wf(),
        ensures
            final(self).wf(),
            final(self).threads() == upsert_thread(old(self).threads(), t),
            final(self).posts() == old(self).posts(),
    {
        proof {
            lemma_find_thread_bounds(self.threads@, t.board@, t.thread_id);
        }
        match self.locate_thread(&t.board, t.thread_id) {
            Some(j) => {
                self.threads.set(j, t);
            },
            None => {
                self.threads.push(t);
            },
        }
    }

    /// Inserts or replaces a post row as it is, keyed by (board, post number).
    pub fn upsert_post_row(&mut self, p: CachedPost)
        requires
            old(self).wf(),
        ensures
            final(self).wf(),
            final(self).posts() == upsert_post(old(self).posts(), p),
            final(self).threads() == old(self).threads(),
    {
        proof {
            lemma_find_post_bounds(self.posts@, p.board@, p.post_no);
        }
        match self.locate_post(&p.board, p.post_no) {
            Some(j) => {
                self.posts.set(j, p);
            },
            None => {
                self.posts.push(p);
            },
        }
    }

    fn write_thread_at(
        &mut self,
        now: i64,
        board: &str,
        thread_id: i64,
        subject: Option<&str>,
        posts: &[CachedPost],
    )
        requires
            old(self).wf(),
            posts@.len() <= i32::MAX,
        ensures
            final(self).wf(),
            ({
                let k = find_thread(final(self).threads(), board@, thread_id);
                &&& 0 <= k < final(self).threads().len()
                &&& written_row(final(self).threads()[k], now, board@, thread_id, str_view(subject), posts@)
                &&& final(self).threads() == upsert_thread(old(self).threads(), final(self).threads()[k])
            }),
            final(self).posts() == upsert_posts(old(self).posts(), posts@),
    {
        let mut media: usize = 0;
        let mut i: usize = 0;
        while i < posts.len()
            invariant
                i <= posts@.len(),
                media == media_count(posts@.subrange(0, i as int)),
            decreases posts@.len() - i,
        {
            proof {
                assert(posts@.subrange(0, i + 1).drop_last() =~= posts@.subrange(0, i as int));
                lemma_media_count_bound(posts@.subrange(0, i as int));
            }
            if posts[i].tim.is_some() {
                media = media + 1;
            }
            i = i + 1;
        }
        proof {
            assert(posts@.subrange(0, posts@.len() as int) =~= posts@);
            lemma_media_count_bound(posts@);
        }
        let row = CachedThread {
            board: String::from_str(board),
            thread_id,
            subject: match subject {
                Some(s) => Some(String::from_str(s)),
                None => None,
            },
            reply_count: posts.len() as i32 - 1,
            image_count: media as i32,
            last_modified: now,
            cached_at: now,
            accessed_at: now,
        };
        let ghost before = self.threads@;
        let ghost row_g = row;
        proof {
            lemma_find_thread_bounds(before, row.board@, thread_id);
        }
        self.upsert_thread_row(row);
        proof {
            let f = find_thread(before, board@, thread_id);
            let idx = if f >= 0 { f } else { before.len() as int };
            assert(self.threads@[idx] == row_g);
            lemma_find_thread_at(self.threads@, board@, thread_id, idx);
        }
        let ghost threads_now = self.threads@;
        let ghost start = self.posts@;
        let mut j: usize = 0;
        while j < posts.len()
            invariant
                self.wf(),
                j <= posts@.len(),
                self.threads@ == threads_now,
                self.posts@ == upsert_posts(start, posts@.subrange(0, j as int)),
            decreases posts@.len() - j,
        {
            proof {
                assert(posts@.subrange(0, j + 1).drop_last() =~= posts@.subrange(0, j as int));
            }
            self.upsert_post_row(copy_post(&posts[j]));
            j = j + 1;
        }
        proof {
            assert(posts@.subrange(0, posts@.len() as int) =~= posts@);
        }
    }

    /// Writes a thread snapshot at time `now`: the thread row is replaced
    /// wholesale and each post is inserted or replaced by (board, post number).
    /// A thread without posts, or with more posts than its counts can hold, is
    /// refused and the store left as it is.
    pub fn cache_thread_at(
        &mut self,
        now: i64,
        board: &str,
        thread_id: i64,
        subject: Option<&str>,
        posts: &[CachedPost],
    ) -> (r: Result<(), StoreError>)
        requires
            old(self).wf(),
        ensures
            final(self).wf(),
            posts@.len() == 0 ==> r == Err::<(), StoreError>(StoreError::EmptyThread),
            posts@.len() > i32::MAX ==> r == Err::<(), StoreError>(StoreError::TooManyPosts),
            r is Err ==> final(self).threads() == old(self).threads() && final(self).posts() == old(self).posts(),
            0 < posts@.len() <= i32::MAX ==> r is Ok,
            r is Ok ==> ({
                let k = find_thread(final(self).threads(), board@, thread_id);
                &&& 0 <= k < final(self).threads().len()
                &&& written_row(final(self).threads()[k], now, board@, thread_id, str_view(subject), posts@)
                &&& final(self).threads() == upsert_thread(old(self).threads(), final(self).threads()[k])
                &&& final(self).posts() == upsert_posts(old(self).posts(), posts@)
            }),
    {
        if posts.len() == 0 {
            return Err(StoreError::EmptyThread);
        }
        if posts.len() > 2147483647usize {
            return Err(StoreError::TooManyPosts);
        }
        self.write_thread_at(now, board, thread_id, subject, posts);
        Ok(())
    }

    /// Caches a thread snapshot at the current time; refused as
    /// `cache_thread_at` refuses it, or when the clock cannot be read.
    pub fn cache_thread(
        &mut self,
        board: &str,
        thread_id: i64,
        subject: Option<&str>,
        posts: &[CachedPost],
    ) -> (r: Result<(), StoreError>)
        requires
            old(self).wf(),
        ensures
            final(self).wf(),
            posts@.len() == 0 ==> r == Err::<(), StoreError>(StoreError::EmptyThread),
            posts@.len() > i32::MAX ==> r == Err::<(), StoreError>(StoreError::TooManyPosts),
            0 < posts@.len() <= i32::MAX ==> (r is Ok || r == Err::<(), StoreError>(StoreError::ClockUnavailable)),
            r is Err ==> final(self).threads() == old(self).threads() && final(self).posts() == old(self).posts(),
            r is Ok ==> ({
                let k = find_thread(final(self).threads(), board@, thread_id);
                &&& 0 <= k < final(self).threads().len()
                &&& final(self).threads()[k].cached_at >= 0
                &&& written_row(
                    final(self).threads()[k],
                    final(self).threads()[k].cached_at,
                    board@,
                    thread_id,
                    str_view(subject),
                    posts@,
                )
                &&& final(self).threads() == upsert_thread(old(self).threads(), final(self).threads()[k])
                &&& final(self).posts() == upsert_posts(old(self).posts(), posts@)
            }),
    {
        if posts.len() == 0 {
            return Err(StoreError::EmptyThread);
        }
        if posts.len() > 2147483647usize {
            return Err(StoreError::TooManyPosts);
        }
        match crate::clock::unix_now() {
            None => Err(StoreError::ClockUnavailable),
            Some(now) => self.cache_thread_at(now, board, thread_id, subject, posts),
        }
    }

    /// Reads a cached thread at time `now`: marks it read and returns it with
    /// its posts in ascending post number; `None` where it is not cached.
    pub fn get_cached_thread_at(&mut self, now: i64, board: &str, thread_id: i64) -> (r: Option<
        (CachedThread, Vec<CachedPost>),
    >)
        requires
            old(self).wf(),
        ensures
            final(self).wf(),
            final(self).posts() == old(self).posts(),
            ({
                let k = find_thread(old(self).threads(), board@, thread_id);
                if k < 0 {
                    r is None && final(self).threads() == old(self).threads()
                } else {
                    &&& final(self).threads() == old(self).threads().update(k, touched(old(self).threads()[k], now))
                    &&& r matches Some((t, ps))
                    &&& t == touched(old(self).threads()[k], now)
                    &&& listed_posts(ps@, old(self).posts(), board@, thread_id)
                }
            }),
    {
        let key = String::from_str(board);
        proof {
            lemma_find_thread_bounds(self.threads@, board@, thread_id);
        }
        let k = match self.locate_thread(&key, thread_id) {
            None => return None,
            Some(k) => k,
        };
        let mut row = copy_thread(&self.threads[k]);
        row.accessed_at = now;
        let result_row = copy_thread(&row);
        self.threads.set(k, row);
        proof {
            assert forall|a: int, b: int|
                0 <= a < self.threads@.len() && 0 <= b < self.threads@.len() && a != b
                    && #[trigger] self.threads@[a].board@ == #[trigger] self.threads@[b].board@
                implies self.threads@[a].thread_id != self.threads@[b].thread_id by {
                let o = old(self).threads@;
                assert(o[a].board@ == self.threads@[a].board@ && o[a].thread_id == self.threads@[a].thread_id);
                assert(o[b].board@ == self.threads@[b].board@ && o[b].thread_id == self.threads@[b].thread_id);
            }
        }
        let mut out: Vec<CachedPost> = Vec::new();
        let mut j: usize = 0;
        let ghost all = self.posts@;
        while j < self.posts.len()
            invariant
                self.wf(),
                self.posts@ == all,
                key@ == board@,
                j <= all.len(),
                sorted_by_number(out@),
                forall|i: int| 0 <= i < out@.len() ==> post_in_thread(#[trigger] out@[i], board@, thread_id)
                    && all.subrange(0, j as int).contains(out@[i]),
                forall|m: int| 0 <= m < j && post_in_thread(#[trigger] all[m], board@, thread_id)
                    ==> out@.contains(all[m]),
            decreases all.len() - j,
        {
            if self.posts[j].board == key && self.posts[j].thread_id == thread_id {
                let p = copy_post(&self.posts[j]);
                proof {
                    assert(p == all[j as int]);
                    assert(post_in_thread(all[j as int], board@, thread_id));
                    assert forall|i: int| 0 <= i < out@.len() implies (#[trigger] out@[i]).post_no != p.post_no by {
                        let x = out@[i];
                        let m = choose|m: int| 0 <= m < j && all.subrange(0, j as int)[m] == x;
                        assert(all[m] == x);
                        assert(all[m].board@ == all[j as int].board@);
                    }
                }
                let ghost o = out@;
                insert_by_number(&mut out, p);
                proof {
                    assert forall|i: int| 0 <= i < out@.len() implies post_in_thread(#[trigger] out@[i], board@, thread_id)
                        && all.subrange(0, j + 1).contains(out@[i]) by {
                        if out@[i] == p {
                            assert(all.subrange(0, j + 1)[j as int] == p);
                        } else {
                            let m = choose|m: int| 0 <= m < o.len() && o[m] == out@[i];
                            let n = choose|n: int| 0 <= n < j && all.subrange(0, j as int)[n] == o[m];
                            assert(all.subrange(0, j + 1)[n] == out@[i]);
                        }
                    }
                    assert forall|m: int| 0 <= m < j + 1 && post_in_thread(#[trigger] all[m], board@, thread_id)
                        implies out@.contains(all[m]) by {
                        if m < j {
                            let q = choose|q: int| 0 <= q < o.len() && o[q] == all[m];
                            assert(out@.contains(o[q]));
                        }
                    }
                }
            } else {
                proof {
                    assert(!post_in_thread(all[j as int], board@, thread_id));
                    assert forall|i: int| 0 <= i < out@.len() implies all.subrange(0, j + 1).contains(#[trigger] out@[i]) by {
                        let n = choose|n: int| 0 <= n < j && all.subrange(0, j as int)[n] == out@[i];
                        assert(all.subrange(0, j + 1)[n] == out@[i]);
                    }
                }
            }
            j = j + 1;
        }
        proof {
            assert(all.subrange(0, all.len() as int) =~= all);
        }
        Some((result_row, out))
    }

    /// Reads a cached thread at the current time; refused, with the store
    /// left as it is, when the clock cannot be read.
    pub fn get_cached_thread(&mut self, board: &str, thread_id: i64) -> (r: Result<
        Option<(CachedThread, Vec<CachedPost>)>,
        StoreError,
    >)
        requires
            old(self).wf(),
        ensures
            final(self).wf(),
            final(self).posts() == old(self).posts(),
            r is Err ==> r == Err::<Option<(CachedThread, Vec<CachedPost>)>, StoreError>(StoreError::ClockUnavailable)
                && final(self).threads() == old(self).threads(),
            r is Ok ==> ({
                let k = find_thread(old(self).threads(), board@, thread_id);
                if k < 0 {
                    r matches Ok(None) && final(self).threads() == old(self).threads()
                } else {
                    &&& r matches Ok(Some((t, ps)))
                    &&& t.accessed_at >= 0
                    &&& t == touched(old(self).threads()[k], t.accessed_at)
                    &&& final(self).threads() == old(self).threads().update(k, t)
                    &&& listed_posts(ps@, old(self).posts(), board@, thread_id)
                }
            }),
    {
        match crate::clock::unix_now() {
            None => Err(StoreError::ClockUnavailable),
            Some(now) => Ok(self.get_cached_thread_at(now, board, thread_id)),
        }
    }

    /// Whether thread (board, id) is cached and was written after
    /// `now - max_age_secs`.
    pub fn is_thread_cached_at(&self, now: i64, board: &str, thread_id: i64, max_age_secs: i64) -> (r: bool)
        requires
            self.wf(),
        ensures
            r == fresh_in(self.threads(), board@, thread_id, cutoff(now, max_age_secs)),
    {
        let cut = cutoff_of(now, max_age_secs);
        let key = String::from_str(board);
        match self.locate_thread(&key, thread_id) {
            None => false,
            Some(k) => self.threads[k].cached_at as i128 > cut,
        }
    }

    /// Whether thread (board, id) is cached and was written within the last
    /// `max_age_secs` seconds; refused when the clock cannot be read.
    pub fn is_thread_cached(&self, board: &str, thread_id: i64, max_age_secs: i64) -> (r: Result<bool, StoreError>)
        requires
            self.wf(),
        ensures
            r is Err ==> r == Err::<bool, StoreError>(StoreError::ClockUnavailable),
            r matches Ok(b) ==> exists|now: i64| now >= 0 && b == fresh_in(self.threads(), board@, thread_id, #[trigger] cutoff(now, max_age_secs)),
    {
        match crate::clock::unix_now() {
            None => Err(StoreError::ClockUnavailable),
            Some(now) => Ok(self.is_thread_cached_at(now, board, thread_id, max_age_secs)),
        }
    }

    fn holds_thread(&self, board: &String, id: i64) -> (r: bool)
        ensures
            r == has_thread(self.threads(), board@, id),
    {
        let mut k: usize = 0;
        while k < self.threads.len()
            invariant
                k <= self.threads@.len(),
                forall|m: int| 0 <= m < k ==> !thread_is(#[trigger] self.threads@[m], board@, id),
            decreases self.threads@.len() - k,
        {
            if self.threads[k].board == *board && self.threads[k].thread_id == id {
                assert(thread_is(self.threads@[k as int], board@, id));
                return true;
            }
            k = k + 1;
        }
        false
    }

    /// Deletes every post whose thread is not stored.
    fn sweep_orphans(&mut self)
        requires
            old(self).wf(),
        ensures
            final(self).wf(),
            final(self).threads() == old(self).threads(),
            final(self).posts() == attached_posts(old(self).posts(), old(self).threads()),
    {
        let ghost all = self.posts@;
        let mut kept: Vec<CachedPost> = Vec::new();
        let mut j: usize = 0;
        while j < self.posts.len()
            invariant
                self.posts@ == all,
                j <= all.len(),
                kept@ == attached_posts(all.subrange(0, j as int), self.threads@),
            decreases all.len() - j,
        {
            proof {
                assert(all.subrange(0, j + 1).drop_last() =~= all.subrange(0, j as int));
            }
            if self.holds_thread(&self.posts[j].board, self.posts[j].thread_id) {
                kept.push(copy_post(&self.posts[j]));
            }
            j = j + 1;
        }
        proof {
            assert(all.subrange(0, all.len() as int) =~= all);
            lemma_attached_from(all, self.threads@);
        }
        self.posts = kept;
    }

    fn drop_threads_before(&mut self, cut: i128) -> (r: usize)
        requires
            old(self).wf(),
        ensures
            final(self).wf(),
            final(self).threads() == keep_recent(old(self).threads(), cut as int),
            final(self).posts() == old(self).posts(),
            r == old(self).threads().len() - final(self).threads().len(),
    {
        let ghost all = self.threads@;
        let mut kept: Vec<CachedThread> = Vec::new();
        let mut j: usize = 0;
        while j < self.threads.len()
            invariant
                self.threads@ == all,
                j <= all.len(),
                kept@ == keep_recent(all.subrange(0, j as int), cut as int),
            decreases all.len() - j,
        {
            proof {
                assert(all.subrange(0, j + 1).drop_last() =~= all.subrange(0, j as int));
            }
            if self.threads[j].cached_at as i128 >= cut {
                kept.push(copy_thread(&self.threads[j]));
            }
            j = j + 1;
        }
        proof {
            assert(all.subrange(0, all.len() as int) =~= all);
            lemma_keep_recent_from(all, cut as int);
        }
        let deleted = self.threads.len() - kept.len();
        self.threads = kept;
        deleted
    }

    fn evict_before(&mut self, cut: i128) -> (r: usize)
        requires
            old(self).wf(),
        ensures
            final(self).wf(),
            Self::age_evicted(*old(self), *final(self), cut as int),
            no_orphans(final(self).threads(), final(self).posts()),
            r == old(self).threads().len() - final(self).threads().len(),
    {
        let deleted = self.drop_threads_before(cut);
        self.sweep_orphans();
        proof {
            lemma_attached_from(old(self).posts@, self.threads@);
        }
        deleted
    }

    /// Deletes every thread written before `now - max_age_secs`, then every
    /// post left without its thread. Returns the number of threads deleted.
    pub fn evict_by_age_at(&mut self, now: i64, max_age_secs: i64) -> (r: usize)
        requires
            old(self).wf(),
        ensures
            final(self).wf(),
            Self::age_evicted(*old(self), *final(self), cutoff(now, max_age_secs)),
            no_orphans(final(self).threads(), final(self).posts()),
            r == old(self).threads().len() - final(self).threads().len(),
    {
        self.evict_before(cutoff_of(now, max_age_secs))
    }

    fn least_recently_read(&self) -> (r: usize)
        requires
            self.threads().len() > 0,
        ensures
            first_least_read(self.threads(), r as int),
    {
        let mut best: usize = 0;
        let mut k: usize = 1;
        while k < self.threads.len()
            invariant
                best < k <= self.threads@.len(),
                forall|b: int| 0 <= b < k ==> self.threads@[best as int].accessed_at <= (#[trigger] self.threads@[b]).accessed_at,
                forall|b: int| 0 <= b < best ==> (#[trigger] self.threads@[b]).accessed_at > self.threads@[best as int].accessed_at,
            decreases self.threads@.len() - k,
        {
            if self.threads[k].accessed_at < self.threads[best].accessed_at {
                best = k;
            }
            k = k + 1;
        }
        best
    }

    /// What an age eviction with cutoff `cut` leaves: the threads written at
    /// or after `cut`, in order, and the posts that still have their thread.
    pub open spec fn age_evicted(before: ChanCache, after: ChanCache, cut: int) -> bool {
        &&& after.threads() == keep_recent(before.threads(), cut)
        &&& after.posts() == attached_posts(before.posts(), after.threads())
    }

    /// What one step of size eviction does, given the store's measured size
    /// and its bound. Within the bound it changes nothing and reports that it
    /// is done. Over the bound it deletes the least recently read thread (the
    /// first of them on a tie), if there is one, and every post left without
    /// its thread; it reports whether it deleted a thread.
    pub open spec fn size_stepped(before: ChanCache, after: ChanCache, measured_bytes: u64, max_bytes: u64, deleted: bool) -> bool {
        &&& measured_bytes <= max_bytes ==> !deleted && after.threads() == before.threads() && after.posts() == before.posts()
        &&& measured_bytes > max_bytes ==> after.posts() == attached_posts(before.posts(), after.threads())
        &&& measured_bytes > max_bytes && before.threads().len() == 0 ==> !deleted && after.threads() == before.threads()
        &&& measured_bytes > max_bytes && before.threads().len() > 0 ==> deleted && exists|k: int|
            #[trigger] first_least_read(before.threads(), k) && after.threads() == before.threads().remove(k)
    }

    /// One step of size eviction: the caller measures the store's size after
    /// each step and repeats while this returns `true`.
    pub fn evict_size_step(&mut self, measured_bytes: u64, max_bytes: u64) -> (r: bool)
        requires
            old(self).wf(),
        ensures
            final(self).wf(),
            Self::size_stepped(*old(self), *final(self), measured_bytes, max_bytes, r),
            measured_bytes > max_bytes ==> no_orphans(final(self).threads(), final(self).posts()),
    {
        if measured_bytes <= max_bytes {
            return false;
        }
        if self.threads.len() == 0 {
            self.sweep_orphans();
            proof {
                lemma_attached_from(old(self).posts@, self.threads@);
            }
            return false;
        }
        let i = self.least_recently_read();
        let ghost pt = self.threads@;
        self.threads.remove(i);
        proof {
            lemma_remove_thread(pt, i as int);
            assert(first_least_read(pt, i as int));
        }
        self.sweep_orphans();
        proof {
            lemma_attached_from(old(self).posts@, self.threads@);
        }
        true
    }

    /// Deletes every thread and post.
    pub fn clear_all_cache(&mut self)
        ensures
            final(self).wf(),
            final(self).threads() == Seq::<CachedThread>::empty(),
            final(self).posts() == Seq::<CachedPost>::empty(),
    {
        self.threads = Vec::new();
        self.posts = Vec::new();
    }

    fn oldest_written(&self) -> (r: i64)
        requires
            self.threads().len() > 0,
        ensures
            r == min_cached_at(self.threads()),
    {
        let mut best = self.threads[0].cached_at;
        let mut k: usize = 1;
        while k < self.threads.len()
            invariant
                1 <= k <= self.threads@.len(),
                best == min_cached_at(self.threads@.subrange(0, k as int)),
            decreases self.threads@.len() - k,
        {
            proof {
                assert(self.threads@.subrange(0, k + 1).drop_last() =~= self.threads@.subrange(0, k as int));
            }
            if self.threads[k].cached_at < best {
                best = self.threads[k].cached_at;
            }
            k = k + 1;
        }
        proof {
            assert(self.threads@.subrange(0, self.threads@.len() as int) =~= self.threads@);
        }
        best
    }

    fn newest_written(&self) -> (r: i64)
        requires
            self.threads().len() > 0,
        ensures
            r == max_cached_at(self.threads()),
    {
        let mut best = self.threads[0].cached_at;
        let mut k: usize = 1;
        while k < self.threads.len()
            invariant
                1 <= k <= self.threads@.len(),
                best == max_cached_at(self.threads@.subrange(0, k as int)),
            decreases self.threads@.len() - k,
        {
            proof {
                assert(self.threads@.subrange(0, k + 1).drop_last() =~= self.threads@.subrange(0, k as int));
            }
            if self.threads[k].cached_at > best {
                best = self.threads[k].cached_at;
            }
            k = k + 1;
        }
        proof {
            assert(self.threads@.subrange(0, self.threads@.len() as int) =~= self.threads@);
        }
        best
    }

    /// Thread and post counts, the size of the store's file as measured by its
    /// owner, and the earliest and latest write times among its threads.
    pub fn get_cache_stats(&self, db_size_bytes: u64) -> (r: CacheStats)
        ensures
            r.thread_count == count_of(self.threads().len()),
            r.post_count == count_of(self.posts().len()),
            r.db_size_bytes == db_size_bytes,
            r.oldest_cache_timestamp == (if self.threads().len() == 0 {
                None
            } else {
                Some(min_cached_at(self.threads()))
            }),
            r.newest_cache_timestamp == (if self.threads().len() == 0 {
                None
            } else {
                Some(max_cached_at(self.threads()))
            }),
    {
        let (oldest, newest) = if self.threads.len() == 0 {
            (None, None)
        } else {
            (Some(self.oldest_written()), Some(self.newest_written()))
        };
        CacheStats {
            thread_count: count_to_i64(self.threads.len()),
            post_count: count_to_i64(self.posts.len()),
            db_size_bytes,
            oldest_cache_timestamp: oldest,
            newest_cache_timestamp: newest,
        }
    }

    /// Age eviction at time `now` with the bound in days. Returns the number of
    /// threads deleted.
    pub fn cleanup_old_cache_at(&mut self, now: i64, max_age_days: i64) -> (r: i64)
        requires
            old(self).wf(),
        ensures
            final(self).wf(),
            Self::age_evicted(*old(self), *final(self), days_cutoff(now, max_age_days)),
            no_orphans(final(self).threads(), final(self).posts()),
            r == count_of((old(self).threads().len() - final(self).threads().len()) as nat),
    {
        let n = self.evict_before(days_cutoff_of(now, max_age_days));
        count_to_i64(n)
    }

    /// Age eviction at the current time with the bound in days; refused, with
    /// the store left as it is, when the clock cannot be read.
    pub fn cleanup_old_cache(&mut self, max_age_days: i64) -> (r: Result<i64, StoreError>)
        requires
            old(self).wf(),
        ensures
            final(self).wf(),
            r is Err ==> r == Err::<i64, StoreError>(StoreError::ClockUnavailable)
                && final(self).threads() == old(self).threads() && final(self).posts() == old(self).posts(),
            r is Ok ==> exists|now: i64| now >= 0 && Self::age_evicted(*old(self), *final(self), #[trigger] days_cutoff(now, max_age_days)),
            r is Ok ==> no_orphans(final(self).threads(), final(self).posts()),
            r matches Ok(n) ==> n == count_of((old(self).threads().len() - final(self).threads().len()) as nat),
    {
        let now = match crate::clock::unix_now() {
            None => return Err(StoreError::ClockUnavailable),
            Some(now) => now,
        };
        let r = self.cleanup_old_cache_at(now, max_age_days);
        proof {
            assert(Self::age_evicted(*old(self), *self, days_cutoff(now, max_age_days)));
        }
        Ok(r)
    }

}

} // verus!
