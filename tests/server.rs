use chandesk::request::{parse_range_header, route_request, RangeRequest, Route, ServerError};
use chandesk::response::{
    error_response, media_type_for, plan_file, preflight_response, response_head, FilePlan,
    MediaType,
};

fn serve(req: &[u8]) -> (Vec<u8>, Option<RangeRequest>) {
    match route_request(req) {
        Route::Serve(f) => (f.filename, f.range),
        other => panic!("expected a file request, got {:?}", other),
    }
}

#[test]
fn range_request_returns_partial_content() {
    let source: Vec<u8> = (0..1000u32).map(|i| (i % 251) as u8).collect();
    let (name, range) = serve(b"GET /clip.webm HTTP/1.1\r\nHost: 127.0.0.1\r\nRange: bytes=100-199\r\n\r\n");
    assert_eq!(name, b"clip.webm".to_vec());
    assert_eq!(range, Some(RangeRequest { start: Some(100), end: Some(199) }));
    let plan = plan_file(&name, range, Some(1000)).unwrap();
    assert_eq!(plan, FilePlan { status: 206, media: MediaType::Webm, start: 100, length: 100, total: 1000 });
    let head = response_head(&plan);
    assert!(head.starts_with("HTTP/1.1 206 Partial Content\r\n"));
    assert!(head.contains("Content-Range: bytes 100-199/1000\r\n"));
    assert!(head.contains("Content-Length: 100\r\n"));
    let body = &source[plan.start as usize..(plan.start + plan.length) as usize];
    assert_eq!(body.len(), 100);
    assert_eq!(body, &source[100..200]);
}

#[test]
fn full_response_head_is_exact() {
    let plan = plan_file(b"a.mp4", None, Some(42)).unwrap();
    assert_eq!(
        response_head(&plan),
        "HTTP/1.1 200 OK\r\nContent-Type: video/mp4\r\nContent-Length: 42\r\nAccept-Ranges: bytes\r\nAccess-Control-Allow-Origin: *\r\nAccess-Control-Allow-Methods: GET, OPTIONS\r\nAccess-Control-Allow-Headers: Range\r\nConnection: close\r\n\r\n"
    );
}

#[test]
fn missing_file_is_not_found() {
    let (name, range) = serve(b"GET /nothing.webm HTTP/1.1\r\n\r\n");
    assert_eq!(plan_file(&name, range, None), Err(ServerError::NotFound));
    assert_eq!(
        error_response(ServerError::NotFound),
        "HTTP/1.1 404 Not Found\r\nContent-Type: text/plain\r\nContent-Length: 9\r\nAccept-Ranges: bytes\r\nAccess-Control-Allow-Origin: *\r\nConnection: close\r\n\r\nNot Found"
    );
}

#[test]
fn parent_segment_is_rejected() {
    match route_request(b"GET /../secret HTTP/1.1\r\n\r\n") {
        Route::Reject(e) => {
            assert_eq!(e, ServerError::InvalidPath);
            assert_eq!(e.status(), 400);
            assert!(error_response(e).starts_with("HTTP/1.1 400 Invalid path\r\n"));
        }
        other => panic!("unexpected {:?}", other),
    }
}

#[test]
fn empty_file_name_is_rejected() {
    assert!(matches!(route_request(b"GET / HTTP/1.1\r\n\r\n"), Route::Reject(ServerError::InvalidPath)));
    assert!(matches!(route_request(b"GET //// HTTP/1.1\r\n\r\n"), Route::Reject(ServerError::InvalidPath)));
}

#[test]
fn options_gets_the_preflight() {
    assert!(matches!(route_request(b"OPTIONS /clip.webm HTTP/1.1\r\n\r\n"), Route::Preflight));
    let r = preflight_response();
    assert!(r.starts_with("HTTP/1.1 204 No Content\r\n"));
    assert!(r.contains("Access-Control-Allow-Origin: *\r\n"));
    assert!(r.contains("Access-Control-Allow-Methods: GET, OPTIONS\r\n"));
    assert!(r.contains("Access-Control-Allow-Headers: Range\r\n"));
    assert!(r.contains("Access-Control-Max-Age: 86400\r\n"));
    assert!(r.contains("Accept-Ranges: bytes\r\n"));
    assert!(r.contains("Connection: close\r\n"));
}

#[test]
fn other_methods_are_not_allowed() {
    match route_request(b"POST /clip.webm HTTP/1.1\r\n\r\n") {
        Route::Reject(e) => {
            assert_eq!(e, ServerError::MethodNotAllowed);
            assert_eq!(e.status(), 405);
            assert_eq!(e.reason(), "Method Not Allowed");
        }
        other => panic!("unexpected {:?}", other),
    }
    assert!(matches!(route_request(b"get /a HTTP/1.1\r\n"), Route::Reject(ServerError::MethodNotAllowed)));
}

#[test]
fn request_line_without_path_is_bad() {
    for req in [&b""[..], b"GET", b"GET\r\n/a b", b"   \r\n"] {
        match route_request(req) {
            Route::Reject(e) => {
                assert_eq!(e, ServerError::BadRequest);
                assert!(error_response(e).starts_with("HTTP/1.1 400 Bad Request\r\n"));
            }
            other => panic!("unexpected {:?}", other),
        }
    }
}

#[test]
fn request_without_range_serves_whole_file() {
    let (name, range) = serve(b"GET /x.gif HTTP/1.1\r\nHost: a\r\n\r\n");
    assert_eq!(range, None);
    let plan = plan_file(&name, range, Some(5000)).unwrap();
    assert_eq!(plan, FilePlan { status: 200, media: MediaType::Gif, start: 0, length: 5000, total: 5000 });
}

#[test]
fn open_ended_range_runs_to_the_last_byte() {
    let (name, range) = serve(b"GET /x.webm HTTP/1.1\r\nrange: bytes=500-\r\n\r\n");
    assert_eq!(range, Some(RangeRequest { start: Some(500), end: None }));
    let plan = plan_file(&name, range, Some(1000)).unwrap();
    assert_eq!((plan.status, plan.start, plan.length), (206, 500, 500));
    assert!(response_head(&plan).contains("Content-Range: bytes 500-999/1000\r\n"));
}

#[test]
fn range_end_is_clamped_to_the_file() {
    let (name, range) = serve(b"GET /x.webm HTTP/1.1\r\nRANGE: bytes=0-99999\r\n\r\n");
    let plan = plan_file(&name, range, Some(1000)).unwrap();
    assert_eq!((plan.start, plan.length), (0, 1000));
}

#[test]
fn unparsable_range_bounds_default() {
    assert_eq!(
        parse_range_header(b"GET /a HTTP/1.1\r\nRange: bytes=abc-def\r\n"),
        Some(RangeRequest { start: None, end: None })
    );
    assert_eq!(
        parse_range_header(b"GET /a HTTP/1.1\r\nRange: bytes=7-99999999999999999999\r\n"),
        Some(RangeRequest { start: Some(7), end: None })
    );
    let plan = plan_file(b"a", Some(RangeRequest { start: None, end: None }), Some(10)).unwrap();
    assert_eq!((plan.status, plan.start, plan.length), (206, 0, 10));
}

#[test]
fn unsatisfiable_range_is_bad() {
    assert_eq!(
        plan_file(b"a", Some(RangeRequest { start: Some(10), end: None }), Some(10)),
        Err(ServerError::BadRequest)
    );
    assert_eq!(
        plan_file(b"a", Some(RangeRequest { start: None, end: None }), Some(0)),
        Err(ServerError::BadRequest)
    );
}

#[test]
fn content_type_follows_the_extension() {
    assert_eq!(media_type_for(b"a.webm"), MediaType::Webm);
    assert_eq!(media_type_for(b"a.mp4"), MediaType::Mp4);
    assert_eq!(media_type_for(b"a.gif"), MediaType::Gif);
    assert_eq!(media_type_for(b"a.png"), MediaType::Binary);
    assert_eq!(media_type_for(b"webm"), MediaType::Binary);
    assert_eq!(MediaType::Binary.mime(), "application/octet-stream");
}

#[test]
fn leading_slashes_are_dropped_from_the_name() {
    let (name, _) = serve(b"GET ///dir/a.webm HTTP/1.1\r\n\r\n");
    assert_eq!(name, b"dir/a.webm".to_vec());
}

#[test]
fn suffix_form_range_has_no_start() {
    let (name, range) = serve(b"GET /x.webm HTTP/1.1\r\nRange: bytes=-5\r\n\r\n");
    assert_eq!(range, Some(RangeRequest { start: None, end: Some(5) }));
    let plan = plan_file(&name, range, Some(1000)).unwrap();
    assert_eq!((plan.status, plan.start, plan.length), (206, 0, 6));
    assert!(response_head(&plan).contains("Content-Range: bytes 0-5/1000\r\n"));
}

#[test]
fn range_value_may_omit_the_unit() {
    assert_eq!(
        parse_range_header(b"GET /a HTTP/1.1\r\nRange:   20-30  \r\n"),
        Some(RangeRequest { start: Some(20), end: Some(30) })
    );
    assert_eq!(
        parse_range_header(b"GET /a HTTP/1.1\r\nRange: bytes= 20-30\r\n"),
        Some(RangeRequest { start: None, end: Some(30) })
    );
}
