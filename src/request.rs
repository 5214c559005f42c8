use vstd::prelude::*;

verus! {

/// ASCII whitespace, as separated by the request line's tokenizer.
pub open spec fn is_ws(b: u8) -> bool {
    b == 32 || b == 9 || b == 10 || b == 11 || b == 12 || b == 13
}

pub open spec fn is_digit(b: u8) -> bool {
    48 <= b <= 57
}

/// The ASCII lower-case form of a byte.
pub open spec fn lower(b: u8) -> u8 {
    if 65 <= b <= 90 {
        (b + 32) as u8
    } else {
        b
    }
}

/// Index of the first `\n` at or after `i`, or the length.
pub open spec fn line_end(s: Seq<u8>, i: int) -> int
    decreases s.len() - i,
{
    if i >= s.len() {
        i
    } else if s[i] == 10 {
        i
    } else {
        line_end(s, i + 1)
    }
}

/// First index at or after `i`, below `e`, that holds no whitespace (or `e`).
pub open spec fn skip_ws(s: Seq<u8>, i: int, e: int) -> int
    decreases e - i,
{
    if i >= e {
        i
    } else if is_ws(s[i]) {
        skip_ws(s, i + 1, e)
    } else {
        i
    }
}

/// First index at or after `i`, below `e`, that holds whitespace (or `e`).
pub open spec fn skip_token(s: Seq<u8>, i: int, e: int) -> int
    decreases e - i,
{
    if i >= e {
        i
    } else if !is_ws(s[i]) {
        skip_token(s, i + 1, e)
    } else {
        i
    }
}

/// First index at or after `i`, below `e`, that holds no `/` (or `e`).
pub open spec fn skip_slashes(s: Seq<u8>, i: int, e: int) -> int
    decreases e - i,
{
    if i >= e {
        i
    } else if s[i] == 47 {
        skip_slashes(s, i + 1, e)
    } else {
        i
    }
}

/// First index at or after `i`, below `e`, that holds `-` (or `e`).
pub open spec fn find_dash(s: Seq<u8>, i: int, e: int) -> int
    decreases e - i,
{
    if i >= e {
        i
    } else if s[i] != 45 {
        find_dash(s, i + 1, e)
    } else {
        i
    }
}

/// End of `[lo, hi)` once trailing whitespace is dropped.
pub open spec fn trim_end(s: Seq<u8>, lo: int, hi: int) -> int
    decreases hi - lo,
{
    if hi <= lo {
        lo
    } else if is_ws(s[hi - 1]) {
        trim_end(s, lo, hi - 1)
    } else {
        hi
    }
}

/// The value of the decimal digits in `[lo, hi)`.
pub open spec fn digits_value(s: Seq<u8>, lo: int, hi: int) -> nat
    decreases hi - lo,
{
    if hi <= lo {
        0
    } else {
        digits_value(s, lo, hi - 1) * 10 + (s[hi - 1] - 48) as nat
    }
}

pub open spec fn all_digits(s: Seq<u8>, lo: int, hi: int) -> bool {
    forall|k: int| lo <= k < hi ==> is_digit(#[trigger] s[k])
}

/// The unsigned 64-bit number written in `[lo, hi)`: an optional `+`, then one
/// or more digits, with a value that fits.
pub open spec fn parse_number(s: Seq<u8>, lo: int, hi: int) -> Option<u64> {
    let d = if lo < hi && s[lo] == 43 {
        lo + 1
    } else {
        lo
    };
    if d >= hi || !all_digits(s, d, hi) || digits_value(s, d, hi) > u64::MAX {
        None
    } else {
        Some(digits_value(s, d, hi) as u64)
    }
}

proof fn lemma_digits_value_monotone(s: Seq<u8>, lo: int, mid: int, hi: int)
    requires
        lo <= mid <= hi,
        all_digits(s, lo, hi),
    ensures
        digits_value(s, lo, mid) <= digits_value(s, lo, hi),
    decreases hi - mid,
{
    if mid < hi {
        lemma_digits_value_monotone(s, lo, mid, hi - 1);
        assert(is_digit(s[hi - 1]));
    }
}

/// Parses the unsigned number written in `s[lo..hi]`.
pub fn parse_number_at(s: &[u8], lo: usize, hi: usize) -> (r: Option<u64>)
    requires
        lo <= hi <= s@.len(),
    ensures
        r == parse_number(s@, lo as int, hi as int),
{
    let d: usize = if lo < hi && s[lo] == 43u8 {
        lo + 1
    } else {
        lo
    };
    if d >= hi {
        return None;
    }
    let mut acc: u64 = 0;
    let mut k: usize = d;
    while k < hi
        invariant
            d <= k <= hi <= s@.len(),
            d < hi,
            d as int == (if lo < hi && s@[lo as int] == 43 { lo + 1 } else { lo as int }),
            all_digits(s@, d as int, k as int),
            acc as nat == digits_value(s@, d as int, k as int),
        decreases hi - k,
    {
        let b = s[k];
        if b < 48u8 || b > 57u8 {
            assert(!is_digit(s@[k as int]));
            return None;
        }
        let next = match acc.checked_mul(10) {
            Some(m) => m.checked_add((b - 48u8) as u64),
            None => None,
        };
        match next {
            Some(v) => {
                acc = v;
                k = k + 1;
            },
            None => {
                proof {
                    assert(digits_value(s@, d as int, (k + 1) as int) > u64::MAX);
                    if all_digits(s@, d as int, hi as int) {
                        lemma_digits_value_monotone(s@, d as int, (k + 1) as int, hi as int);
                    }
                }
                return None;
            },
        }
    }
    Some(acc)
}


/// Index of the first line at or after `i` that starts, in any letter case,
/// with `range:`; or -1.
pub open spec fn range_line_from(s: Seq<u8>, i: int) -> int
    decreases s.len() - i,
{
    if i >= s.len() || i < 0 {
        -1
    } else if (i == 0 || s[i - 1] == 10) && range_prefix_at(s, i) {
        i
    } else {
        range_line_from(s, i + 1)
    }
}

pub open spec fn range_prefix_at(s: Seq<u8>, i: int) -> bool {
    &&& 0 <= i
    &&& i + 6 <= s.len()
    &&& lower(s[i]) == 114
    &&& lower(s[i + 1]) == 97
    &&& lower(s[i + 2]) == 110
    &&& lower(s[i + 3]) == 103
    &&& lower(s[i + 4]) == 101
    &&& s[i + 5] == 58
}

/// The byte range a request asks for: each bound as written, or `None` where
/// it is absent or is no number.
#[derive(Clone, Copy, Debug, PartialEq, Eq, Structural)]
pub struct RangeRequest {
    pub start: Option<u64>,
    pub end: Option<u64>,
}

/// `bytes=` stands at `v`, before `e`.
pub open spec fn bytes_unit_at(s: Seq<u8>, v: int, e: int) -> bool {
    &&& 0 <= v
    &&& v + 6 <= e
    &&& s[v] == 98
    &&& s[v + 1] == 121
    &&& s[v + 2] == 116
    &&& s[v + 3] == 101
    &&& s[v + 4] == 115
    &&& s[v + 5] == 61
}

/// The `Range` header of a request, if it has one: its value without the
/// surrounding whitespace and the `bytes=` unit, split at the first `-` into
/// the start and the end (the end running to a second `-`, if any).
pub open spec fn range_of(s: Seq<u8>) -> Option<RangeRequest> {
    let i = range_line_from(s, 0);
    if i < 0 {
        None
    } else {
        let e = line_end(s, i);
        let h = if i + 6 <= e {
            i + 6
        } else {
            e
        };
        let v0 = skip_ws(s, h, e);
        let vb = if bytes_unit_at(s, v0, e) {
            v0 + 6
        } else {
            v0
        };
        let v1 = trim_end(s, vb, e);
        let d0 = find_dash(s, vb, v1);
        Some(
            RangeRequest {
                start: parse_number(s, vb, d0),
                end: if d0 < v1 {
                    parse_number(s, d0 + 1, find_dash(s, d0 + 1, v1))
                } else {
                    None
                },
            },
        )
    }
}

/// Why a request is refused.
#[derive(Clone, Copy, Debug, PartialEq, Eq, Structural)]
pub enum ServerError {
    /// The request line has no method and path, or the range cannot be served.
    BadRequest,
    /// The path is empty or climbs out of the cache directory.
    InvalidPath,
    /// No file of that name is cached.
    NotFound,
    /// A method other than `GET` or `OPTIONS`.
    MethodNotAllowed,
}

impl ServerError {
    pub open spec fn status_spec(self) -> u16 {
        match self {
            ServerError::BadRequest => 400,
            ServerError::InvalidPath => 400,
            ServerError::NotFound => 404,
            ServerError::MethodNotAllowed => 405,
        }
    }

    pub open spec fn reason_spec(self) -> Seq<char> {
        match self {
            ServerError::BadRequest => "Bad Request"@,
            ServerError::InvalidPath => "Invalid path"@,
            ServerError::NotFound => "Not Found"@,
            ServerError::MethodNotAllowed => "Method Not Allowed"@,
        }
    }

    /// The HTTP status code of the refusal.
    pub fn status(&self) -> (r: u16)
        ensures
            r == self.status_spec(),
    {
        match self {
            ServerError::BadRequest => 400,
            ServerError::InvalidPath => 400,
            ServerError::NotFound => 404,
            ServerError::MethodNotAllowed => 405,
        }
    }

    /// The reason phrase, which is also the body of the refusal.
    pub fn reason(&self) -> (r: &'static str)
        ensures
            r@ == self.reason_spec(),
    {
        match self {
            ServerError::BadRequest => "Bad Request",
            ServerError::InvalidPath => "Invalid path",
            ServerError::NotFound => "Not Found",
            ServerError::MethodNotAllowed => "Method Not Allowed",
        }
    }
}

/// A request for a cached file.
#[derive(Debug)]
pub struct FileRequest {
    /// The path with its leading slashes removed.
    pub filename: Vec<u8>,
    pub range: Option<RangeRequest>,
}

/// What to do with one request.
#[derive(Debug)]
pub enum Route {
    Reject(ServerError),
    Preflight,
    Serve(FileRequest),
}

pub open spec fn request_line_end(s: Seq<u8>) -> int {
    line_end(s, 0)
}

pub open spec fn method_start(s: Seq<u8>) -> int {
    skip_ws(s, 0, request_line_end(s))
}

pub open spec fn method_end(s: Seq<u8>) -> int {
    skip_token(s, method_start(s), request_line_end(s))
}

pub open spec fn path_start(s: Seq<u8>) -> int {
    skip_ws(s, method_end(s), request_line_end(s))
}

pub open spec fn path_end(s: Seq<u8>) -> int {
    skip_token(s, path_start(s), request_line_end(s))
}

/// The request line holds at least a method and a path.
pub open spec fn has_method_and_path(s: Seq<u8>) -> bool {
    path_start(s) < request_line_end(s)
}

pub open spec fn is_options(s: Seq<u8>, lo: int, hi: int) -> bool {
    &&& hi - lo == 7
    &&& s[lo] == 79
    &&& s[lo + 1] == 80
    &&& s[lo + 2] == 84
    &&& s[lo + 3] == 73
    &&& s[lo + 4] == 79
    &&& s[lo + 5] == 78
    &&& s[lo + 6] == 83
}

pub open spec fn is_get(s: Seq<u8>, lo: int, hi: int) -> bool {
    &&& hi - lo == 3
    &&& s[lo] == 71
    &&& s[lo + 1] == 69
    &&& s[lo + 2] == 84
}

pub open spec fn has_dot_dot(s: Seq<u8>, lo: int, hi: int) -> bool {
    exists|k: int| lo <= k && k + 1 < hi && #[trigger] s[k] == 46 && s[k + 1] == 46
}

/// Where the file name starts: after the path's leading slashes.
pub open spec fn file_start(s: Seq<u8>) -> int {
    skip_slashes(s, path_start(s), path_end(s))
}

pub open spec fn valid_file_name(s: Seq<u8>) -> bool {
    file_start(s) < path_end(s) && !has_dot_dot(s, file_start(s), path_end(s))
}

/// The route of a request, given its bytes.
pub open spec fn route_kind(s: Seq<u8>) -> Option<ServerError> {
    if !has_method_and_path(s) {
        Some(ServerError::BadRequest)
    } else if is_options(s, method_start(s), method_end(s)) {
        None
    } else if !is_get(s, method_start(s), method_end(s)) {
        Some(ServerError::MethodNotAllowed)
    } else if !valid_file_name(s) {
        Some(ServerError::InvalidPath)
    } else {
        None
    }
}

fn line_end_at(s: &[u8], i: usize) -> (r: usize)
    requires
        i <= s@.len(),
    ensures
        r as int == line_end(s@, i as int),
        i <= r <= s@.len(),
{
    let mut k = i;
    while k < s.len() && s[k] != 10u8
        invariant
            i <= k <= s@.len(),
            line_end(s@, k as int) == line_end(s@, i as int),
        decreases s@.len() - k,
    {
        k = k + 1;
    }
    k
}

fn skip_ws_at(s: &[u8], i: usize, e: usize) -> (r: usize)
    requires
        i <= e <= s@.len(),
    ensures
        r as int == skip_ws(s@, i as int, e as int),
        i <= r <= e,
{
    let mut k = i;
    while k < e && (s[k] == 32u8 || s[k] == 9u8 || s[k] == 10u8 || s[k] == 11u8 || s[k] == 12u8
        || s[k] == 13u8)
        invariant
            i <= k <= e <= s@.len(),
            skip_ws(s@, k as int, e as int) == skip_ws(s@, i as int, e as int),
        decreases e - k,
    {
        k = k + 1;
    }
    k
}

fn skip_token_at(s: &[u8], i: usize, e: usize) -> (r: usize)
    requires
        i <= e <= s@.len(),
    ensures
        r as int == skip_token(s@, i as int, e as int),
        i <= r <= e,
{
    let mut k = i;
    while k < e && !(s[k] == 32u8 || s[k] == 9u8 || s[k] == 10u8 || s[k] == 11u8 || s[k] == 12u8
        || s[k] == 13u8)
        invariant
            i <= k <= e <= s@.len(),
            skip_token(s@, k as int, e as int) == skip_token(s@, i as int, e as int),
        decreases e - k,
    {
        k = k + 1;
    }
    k
}

fn skip_slashes_at(s: &[u8], i: usize, e: usize) -> (r: usize)
    requires
        i <= e <= s@.len(),
    ensures
        r as int == skip_slashes(s@, i as int, e as int),
        i <= r <= e,
{
    let mut k = i;
    while k < e && s[k] == 47u8
        invariant
            i <= k <= e <= s@.len(),
            skip_slashes(s@, k as int, e as int) == skip_slashes(s@, i as int, e as int),
        decreases e - k,
    {
        k = k + 1;
    }
    k
}

fn find_dash_at(s: &[u8], i: usize, e: usize) -> (r: usize)
    requires
        i <= e <= s@.len(),
    ensures
        r as int == find_dash(s@, i as int, e as int),
        i <= r <= e,
{
    let mut k = i;
    while k < e && s[k] != 45u8
        invariant
            i <= k <= e <= s@.len(),
            find_dash(s@, k as int, e as int) == find_dash(s@, i as int, e as int),
        decreases e - k,
    {
        k = k + 1;
    }
    k
}

fn trim_end_at(s: &[u8], lo: usize, hi: usize) -> (r: usize)
    requires
        lo <= hi <= s@.len(),
    ensures
        r as int == trim_end(s@, lo as int, hi as int),
        lo <= r <= hi,
{
    let mut k = hi;
    while k > lo && (s[k - 1] == 32u8 || s[k - 1] == 9u8 || s[k - 1] == 10u8 || s[k - 1] == 11u8
        || s[k - 1] == 12u8 || s[k - 1] == 13u8)
        invariant
            lo <= k <= hi <= s@.len(),
            trim_end(s@, lo as int, k as int) == trim_end(s@, lo as int, hi as int),
        decreases k - lo,
    {
        k = k - 1;
    }
    k
}

fn lower_byte(b: u8) -> (r: u8)
    ensures
        r == lower(b),
{
    if 65u8 <= b && b <= 90u8 {
        b + 32
    } else {
        b
    }
}

fn range_prefix_at_exec(s: &[u8], i: usize) -> (r: bool)
    requires
        i <= s@.len(),
    ensures
        r == range_prefix_at(s@, i as int),
{
    s.len() >= 6 && i <= s.len() - 6 && lower_byte(s[i]) == 114u8 && lower_byte(s[i + 1]) == 97u8 && lower_byte(
        s[i + 2],
    ) == 110u8 && lower_byte(s[i + 3]) == 103u8 && lower_byte(s[i + 4]) == 101u8 && s[i + 5]
        == 58u8
}

fn range_line_start(s: &[u8]) -> (r: Option<usize>)
    ensures
        match r {
            Some(i) => range_line_from(s@, 0) == i as int && i < s@.len(),
            None => range_line_from(s@, 0) == -1,
        },
{
    let mut i: usize = 0;
    while i < s.len()
        invariant
            i <= s@.len(),
            range_line_from(s@, i as int) == range_line_from(s@, 0),
        decreases s@.len() - i,
    {
        if (i == 0 || s[i - 1] == 10u8) && range_prefix_at_exec(s, i) {
            return Some(i);
        }
        i = i + 1;
    }
    None
}

/// Reads the `Range` header of a raw request.
pub fn parse_range_header(s: &[u8]) -> (r: Option<RangeRequest>)
    ensures
        r == range_of(s@),
{
    match range_line_start(s) {
        None => None,
        Some(i) => {
            let e = line_end_at(s, i);
            let h = if e >= 6 && i <= e - 6 {
                i + 6
            } else {
                e
            };
            let v0 = skip_ws_at(s, h, e);
            let vb = if e >= 6 && v0 <= e - 6 && s[v0] == 98u8 && s[v0 + 1] == 121u8 && s[v0 + 2] == 116u8
                && s[v0 + 3] == 101u8 && s[v0 + 4] == 115u8 && s[v0 + 5] == 61u8 {
                v0 + 6
            } else {
                v0
            };
            let v1 = trim_end_at(s, vb, e);
            let d0 = find_dash_at(s, vb, v1);
            let start = parse_number_at(s, vb, d0);
            let end = if d0 < v1 {
                let d1 = find_dash_at(s, d0 + 1, v1);
                parse_number_at(s, d0 + 1, d1)
            } else {
                None
            };
            Some(RangeRequest { start, end })
        },
    }
}

fn has_dot_dot_at(s: &[u8], lo: usize, hi: usize) -> (r: bool)
    requires
        lo <= hi <= s@.len(),
    ensures
        r == has_dot_dot(s@, lo as int, hi as int),
{
    let mut k = lo;
    while k < hi && k < hi - 1
        invariant
            lo <= k,
            hi <= s@.len(),
            forall|j: int| lo <= j < k && j + 1 < hi ==> !(#[trigger] s@[j] == 46 && s@[j + 1] == 46),
        decreases hi - k,
    {
        if s[k] == 46u8 && s[k + 1] == 46u8 {
            return true;
        }
        k = k + 1;
    }
    false
}

fn copy_span(s: &[u8], lo: usize, hi: usize) -> (r: Vec<u8>)
    requires
        lo <= hi <= s@.len(),
    ensures
        r@ == s@.subrange(lo as int, hi as int),
{
    let mut v: Vec<u8> = Vec::new();
    let mut k = lo;
    while k < hi
        invariant
            lo <= k <= hi <= s@.len(),
            v@ == s@.subrange(lo as int, k as int),
        decreases hi - k,
    {
        v.push(s[k]);
        k = k + 1;
        assert(v@ =~= s@.subrange(lo as int, k as int));
    }
    v
}

/// Decides what to do with a raw HTTP request: refuse it, answer a CORS
/// preflight, or serve the named file.
pub fn route_request(s: &[u8]) -> (r: Route)
    ensures
        route_kind(s@) matches Some(e) ==> r == Route::Reject(e),
        route_kind(s@) is None && is_options(s@, method_start(s@), method_end(s@))
            ==> r is Preflight,
        route_kind(s@) is None && !is_options(s@, method_start(s@), method_end(s@))
            ==> (r matches Route::Serve(f) && f.filename@ == s@.subrange(
            file_start(s@),
            path_end(s@),
        ) && f.range == range_of(s@)),
{
    let e = line_end_at(s, 0);
    let ms = skip_ws_at(s, 0, e);
    let me = skip_token_at(s, ms, e);
    let ps = skip_ws_at(s, me, e);
    let pe = skip_token_at(s, ps, e);
    if ps >= e {
        return Route::Reject(ServerError::BadRequest);
    }
    if me - ms == 7 && s[ms] == 79u8 && s[ms + 1] == 80u8 && s[ms + 2] == 84u8 && s[ms + 3] == 73u8
        && s[ms + 4] == 79u8 && s[ms + 5] == 78u8 && s[ms + 6] == 83u8 {
        return Route::Preflight;
    }
    if !(me - ms == 3 && s[ms] == 71u8 && s[ms + 1] == 69u8 && s[ms + 2] == 84u8) {
        return Route::Reject(ServerError::MethodNotAllowed);
    }
    let fs = skip_slashes_at(s, ps, pe);
    if fs >= pe || has_dot_dot_at(s, fs, pe) {
        return Route::Reject(ServerError::InvalidPath);
    }
    let filename = copy_span(s, fs, pe);
    let range = parse_range_header(s);
    Route::Serve(FileRequest { filename, range })
}

} // verus!
