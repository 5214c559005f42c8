use vstd::prelude::*;
use vstd::string::StrSliceExecFns;
use crate::text::{decimal, push_decimal};

verus! {

/// `s` ends with `suffix`, character by character.
pub open spec fn ends_with_text(s: Seq<char>, suffix: Seq<char>) -> bool {
    suffix.len() <= s.len() && s.subrange(s.len() - suffix.len(), s.len() as int) == suffix
}

/// Tests whether `s` ends with `suffix`.
pub fn has_text_suffix(s: &str, suffix: &str) -> (r: bool)
    ensures
        r == ends_with_text(s@, suffix@),
{
    let n = s.unicode_len();
    let m = suffix.unicode_len();
    if m > n {
        return false;
    }
    let mut k: usize = 0;
    while k < m
        invariant
            m <= n,
            n == s@.len(),
            m == suffix@.len(),
            k <= m,
            forall|j: int| 0 <= j < k ==> s@[n - m + j] == #[trigger] suffix@[j],
        decreases m - k,
    {
        if s.get_char(n - m + k) != suffix.get_char(k) {
            assert(s@.subrange(n - m, n as int)[k as int] != suffix@[k as int]);
            return false;
        }
        k = k + 1;
    }
    assert(s@.subrange(n - m, n as int) =~= suffix@);
    true
}

/// Index just after the last `/` before `i`, or 0.
pub open spec fn segment_start(s: Seq<char>, i: int) -> int
    decreases i,
{
    if i <= 0 {
        0
    } else if s[i - 1] == '/' {
        i
    } else {
        segment_start(s, i - 1)
    }
}

/// The last `/`-separated segment of a URL: the name of its media cache entry.
pub open spec fn last_segment(url: Seq<char>) -> Seq<char> {
    url.subrange(segment_start(url, url.len() as int), url.len() as int)
}

/// The name under which the media disk cache keeps the file of `url`.
pub fn cache_key_for_url(url: &str) -> (r: String)
    ensures
        r@ == last_segment(url@),
{
    let n = url.unicode_len();
    let mut i = n;
    while i > 0 && url.get_char(i - 1) != '/'
        invariant
            i <= n == url@.len(),
            segment_start(url@, i as int) == segment_start(url@, n as int),
        decreases i,
    {
        i = i - 1;
    }
    String::from_str(url.substring_char(i, n))
}

/// The MIME type of a cached image, by extension; JPEG where none is known.
pub open spec fn image_mime(name: Seq<char>) -> Seq<char> {
    if ends_with_text(name, ".jpg"@) || ends_with_text(name, ".jpeg"@) {
        "image/jpeg"@
    } else if ends_with_text(name, ".png"@) {
        "image/png"@
    } else if ends_with_text(name, ".gif"@) {
        "image/gif"@
    } else if ends_with_text(name, ".webp"@) {
        "image/webp"@
    } else {
        "image/jpeg"@
    }
}

/// The MIME type of a cached image, by extension.
pub fn get_mime_type(filename: &str) -> (r: &'static str)
    ensures
        r@ == image_mime(filename@),
{
    if has_text_suffix(filename, ".jpg") || has_text_suffix(filename, ".jpeg") {
        "image/jpeg"
    } else if has_text_suffix(filename, ".png") {
        "image/png"
    } else if has_text_suffix(filename, ".gif") {
        "image/gif"
    } else if has_text_suffix(filename, ".webp") {
        "image/webp"
    } else {
        "image/jpeg"
    }
}

/// The content type reported for a cached video, by extension; WebM where
/// none is known.
pub open spec fn video_mime(name: Seq<char>) -> Seq<char> {
    if ends_with_text(name, ".webm"@) {
        "video/webm"@
    } else if ends_with_text(name, ".mp4"@) {
        "video/mp4"@
    } else if ends_with_text(name, ".swf"@) {
        "application/x-shockwave-flash"@
    } else {
        "video/webm"@
    }
}

/// The content type reported for a cached video, by extension.
pub fn video_content_type(filename: &str) -> (r: &'static str)
    ensures
        r@ == video_mime(filename@),
{
    if has_text_suffix(filename, ".webm") {
        "video/webm"
    } else if has_text_suffix(filename, ".mp4") {
        "video/mp4"
    } else if has_text_suffix(filename, ".swf") {
        "application/x-shockwave-flash"
    } else {
        "video/webm"
    }
}

/// The base URL of the media server listening on `port`; `None` while no
/// server runs (port 0).
pub fn get_video_server_url(port: u16) -> (r: Option<String>)
    ensures
        port == 0 ==> r is None,
        port > 0 ==> (r matches Some(u) && u@ == "http://127.0.0.1:"@ + decimal(port as nat)),
{
    if port > 0 {
        let mut s = String::from_str("http://127.0.0.1:");
        push_decimal(&mut s, port as u64);
        Some(s)
    } else {
        None
    }
}

/// The URL of a cached file on the media server at `server_url`.
pub fn media_url(server_url: &str, filename: &str) -> (r: String)
    ensures
        r@ == server_url@ + "/"@ + filename@,
{
    let mut s = String::from_str(server_url);
    s.append("/");
    s.append(filename);
    s
}

/// Where a video can be played from, and what it is.
#[derive(Clone, Debug)]
pub struct VideoInfo {
    /// Its URL on the local media server.
    pub url: String,
    pub content_type: String,
    /// Whether the cache held it before the request.
    pub cached: bool,
}

} // verus!
