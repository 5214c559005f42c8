use vstd::prelude::*;
use vstd::string::StrSliceExecFns;
use crate::request::{RangeRequest, ServerError};
use crate::text::{decimal, ends_with, has_suffix, push_decimal};

verus! {

/// The content type of a served file, chosen by its extension.
#[derive(Clone, Copy, Debug, PartialEq, Eq, Structural)]
pub enum MediaType {
    Webm,
    Mp4,
    Gif,
    Binary,
}

pub open spec fn webm_suffix() -> Seq<u8> {
    seq![46u8, 119u8, 101u8, 98u8, 109u8]
}

pub open spec fn mp4_suffix() -> Seq<u8> {
    seq![46u8, 109u8, 112u8, 52u8]
}

pub open spec fn gif_suffix() -> Seq<u8> {
    seq![46u8, 103u8, 105u8, 102u8]
}

pub open spec fn media_type_of(name: Seq<u8>) -> MediaType {
    if ends_with(name, webm_suffix()) {
        MediaType::Webm
    } else if ends_with(name, mp4_suffix()) {
        MediaType::Mp4
    } else if ends_with(name, gif_suffix()) {
        MediaType::Gif
    } else {
        MediaType::Binary
    }
}

impl MediaType {
    pub open spec fn mime_spec(self) -> Seq<char> {
        match self {
            MediaType::Webm => "video/webm"@,
            MediaType::Mp4 => "video/mp4"@,
            MediaType::Gif => "image/gif"@,
            MediaType::Binary => "application/octet-stream"@,
        }
    }

    /// The MIME type sent as `Content-Type`.
    pub fn mime(&self) -> (r: &'static str)
        ensures
            r@ == self.mime_spec(),
    {
        match self {
            MediaType::Webm => "video/webm",
            MediaType::Mp4 => "video/mp4",
            MediaType::Gif => "image/gif",
            MediaType::Binary => "application/octet-stream",
        }
    }
}

/// The content type of a file name: `.webm`, `.mp4` and `.gif` are known,
/// anything else is sent as raw bytes.
pub fn media_type_for(name: &[u8]) -> (r: MediaType)
    ensures
        r == media_type_of(name@),
{
    let webm: Vec<u8> = vec![46u8, 119u8, 101u8, 98u8, 109u8];
    let mp4: Vec<u8> = vec![46u8, 109u8, 112u8, 52u8];
    let gif: Vec<u8> = vec![46u8, 103u8, 105u8, 102u8];
    assert(webm@ =~= webm_suffix());
    assert(mp4@ =~= mp4_suffix());
    assert(gif@ =~= gif_suffix());
    if has_suffix(name, webm.as_slice()) {
        MediaType::Webm
    } else if has_suffix(name, mp4.as_slice()) {
        MediaType::Mp4
    } else if has_suffix(name, gif.as_slice()) {
        MediaType::Gif
    } else {
        MediaType::Binary
    }
}

/// How a file is sent: the status, and the `length` bytes from `start` of a
/// file of `total` bytes.
#[derive(Clone, Copy, Debug, PartialEq, Eq, Structural)]
pub struct FilePlan {
    pub status: u16,
    pub media: MediaType,
    pub start: u64,
    pub length: u64,
    pub total: u64,
}

impl FilePlan {
    pub open spec fn wf(self) -> bool {
        ||| self.status == 200 && self.start == 0 && self.length == self.total
        ||| self.status == 206 && self.length >= 1 && self.start + self.length <= self.total
    }
}

/// The plan for a file request: `size` is the size of the cached file, `None`
/// where there is none. A range keeps its start (0 if absent) and ends at its
/// end, or at the last byte where that is absent or beyond the file.
pub open spec fn plan_of(name: Seq<u8>, range: Option<RangeRequest>, size: Option<u64>) -> Result<
    FilePlan,
    ServerError,
> {
    match size {
        None => Err(ServerError::NotFound),
        Some(n) => match range {
            None => Ok(
                FilePlan { status: 200, media: media_type_of(name), start: 0, length: n, total: n },
            ),
            Some(r) => {
                let last = n - 1;
                let start: int = match r.start {
                    Some(v) => v as int,
                    None => 0,
                };
                let end: int = match r.end {
                    Some(v) => if v < last {
                        v as int
                    } else {
                        last
                    },
                    None => last,
                };
                if n == 0 || start > end {
                    Err(ServerError::BadRequest)
                } else {
                    Ok(
                        FilePlan {
                            status: 206,
                            media: media_type_of(name),
                            start: start as u64,
                            length: (end - start + 1) as u64,
                            total: n,
                        },
                    )
                }
            },
        },
    }
}

/// Plans the answer to a request for `name`, of which the cache holds a file of
/// `size` bytes (`None`: no such file).
pub fn plan_file(name: &[u8], range: Option<RangeRequest>, size: Option<u64>) -> (r: Result<
    FilePlan,
    ServerError,
>)
    ensures
        r == plan_of(name@, range, size),
        r matches Ok(p) ==> p.wf(),
{
    let n = match size {
        None => return Err(ServerError::NotFound),
        Some(n) => n,
    };
    let media = media_type_for(name);
    match range {
        None => Ok(FilePlan { status: 200, media, start: 0, length: n, total: n }),
        Some(r) => {
            if n == 0 {
                return Err(ServerError::BadRequest);
            }
            let last = n - 1;
            let start = match r.start {
                Some(v) => v,
                None => 0,
            };
            let end = match r.end {
                Some(v) => if v < last {
                    v
                } else {
                    last
                },
                None => last,
            };
            if start > end {
                Err(ServerError::BadRequest)
            } else {
                Ok(FilePlan { status: 206, media, start, length: end - start + 1, total: n })
            }
        },
    }
}

pub open spec fn status_text(status: u16) -> Seq<char> {
    if status == 206 {
        "Partial Content"@
    } else {
        "OK"@
    }
}

/// The headers of a file response, up to and including the blank line.
pub open spec fn head_text(p: FilePlan) -> Seq<char> {
    "HTTP/1.1 "@ + decimal(p.status as nat) + " "@ + status_text(p.status) + "\r\nContent-Type: "@
        + p.media.mime_spec() + "\r\nContent-Length: "@ + decimal(p.length as nat)
        + "\r\nAccept-Ranges: bytes\r\nAccess-Control-Allow-Origin: *\r\nAccess-Control-Allow-Methods: GET, OPTIONS\r\nAccess-Control-Allow-Headers: Range\r\nConnection: close\r\n"@
        + if p.status == 206 {
        "Content-Range: bytes "@ + decimal(p.start as nat) + "-"@ + decimal(
            (p.start + p.length - 1) as nat,
        ) + "/"@ + decimal(p.total as nat) + "\r\n"@
    } else {
        Seq::empty()
    } + "\r\n"@
}

/// Writes the headers of a file response; the body is the planned bytes.
pub fn response_head(p: &FilePlan) -> (r: String)
    requires
        p.wf(),
    ensures
        r@ == head_text(*p),
{
    let mut s = String::from_str("HTTP/1.1 ");
    push_decimal(&mut s, p.status as u64);
    s.append(" ");
    if p.status == 206 {
        s.append("Partial Content");
    } else {
        s.append("OK");
    }
    s.append("\r\nContent-Type: ");
    s.append(p.media.mime());
    s.append("\r\nContent-Length: ");
    push_decimal(&mut s, p.length);
    s.append(
        "\r\nAccept-Ranges: bytes\r\nAccess-Control-Allow-Origin: *\r\nAccess-Control-Allow-Methods: GET, OPTIONS\r\nAccess-Control-Allow-Headers: Range\r\nConnection: close\r\n",
    );
    let ghost before = s@;
    if p.status == 206 {
        let mut c = String::from_str("Content-Range: bytes ");
        push_decimal(&mut c, p.start);
        c.append("-");
        push_decimal(&mut c, p.start + p.length - 1);
        c.append("/");
        push_decimal(&mut c, p.total);
        c.append("\r\n");
        s.append(c.as_str());
    } else {
        proof {
            assert(before + Seq::<char>::empty() =~= before);
        }
    }
    s.append("\r\n");
    s
}

/// The full response that refuses a request: the reason phrase as a plain
/// text body.
pub open spec fn error_text(e: ServerError) -> Seq<char> {
    "HTTP/1.1 "@ + decimal(e.status_spec() as nat) + " "@ + e.reason_spec()
        + "\r\nContent-Type: text/plain\r\nContent-Length: "@ + decimal(e.reason_spec().len())
        + "\r\nAccept-Ranges: bytes\r\nAccess-Control-Allow-Origin: *\r\nConnection: close\r\n\r\n"@ + e.reason_spec()
}

/// Writes the response that refuses a request.
pub fn error_response(e: ServerError) -> (r: String)
    ensures
        r@ == error_text(e),
{
    let reason = e.reason();
    let mut s = String::from_str("HTTP/1.1 ");
    push_decimal(&mut s, e.status() as u64);
    s.append(" ");
    s.append(reason);
    s.append("\r\nContent-Type: text/plain\r\nContent-Length: ");
    push_decimal(&mut s, reason.unicode_len() as u64);
    s.append("\r\nAccept-Ranges: bytes\r\nAccess-Control-Allow-Origin: *\r\nConnection: close\r\n\r\n");
    s.append(reason);
    s
}

/// The answer to a CORS preflight.
pub open spec fn preflight_text() -> Seq<char> {
    "HTTP/1.1 204 No Content\r\nAccess-Control-Allow-Origin: *\r\nAccess-Control-Allow-Methods: GET, OPTIONS\r\nAccess-Control-Allow-Headers: Range\r\nAccess-Control-Max-Age: 86400\r\nAccept-Ranges: bytes\r\nConnection: close\r\n\r\n"@
}

/// Writes the answer to a CORS preflight.
pub fn preflight_response() -> (r: String)
    ensures
        r@ == preflight_text(),
{
    String::from_str(
        "HTTP/1.1 204 No Content\r\nAccess-Control-Allow-Origin: *\r\nAccess-Control-Allow-Methods: GET, OPTIONS\r\nAccess-Control-Allow-Headers: Range\r\nAccess-Control-Max-Age: 86400\r\nAccept-Ranges: bytes\r\nConnection: close\r\n\r\n",
    )
}

} // verus!
