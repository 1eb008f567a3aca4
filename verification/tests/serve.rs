use pdl::serve::{content_length, event_frame, request_line_parts, response_head, route, Route};

#[test]
fn requests_are_routed_by_method_and_path() {
    assert_eq!(route("GET", "/"), Route::Page);
    assert_eq!(route("GET", "/favicon.ico"), Route::Favicon);
    assert_eq!(route("GET", "/api/snapshot"), Route::Snapshot);
    assert_eq!(route("GET", "/events"), Route::Events);
    assert_eq!(route("POST", "/api/context"), Route::UpdateContext);
    assert_eq!(route("POST", "/api/run"), Route::Run);
    assert_eq!(route("POST", "/"), Route::NotFound);
    assert_eq!(route("get", "/"), Route::NotFound);
    assert_eq!(route("GET", "/api/run"), Route::NotFound);
}

#[test]
fn request_line_gives_method_and_path() {
    assert_eq!(
        request_line_parts("GET /api/snapshot HTTP/1.1\r\n"),
        ("GET".to_string(), "/api/snapshot".to_string())
    );
    assert_eq!(request_line_parts("  POST\t/api/run  "), ("POST".to_string(), "/api/run".to_string()));
    assert_eq!(request_line_parts("GET"), ("GET".to_string(), String::new()));
    assert_eq!(request_line_parts(""), (String::new(), String::new()));
}

#[test]
fn content_length_comes_from_the_last_header_before_the_blank_line() {
    let lines = |ls: &[&str]| ls.iter().map(|l| l.to_string()).collect::<Vec<_>>();
    assert_eq!(content_length(&lines(&["Host: x\r\n", "Content-Length: 42\r\n", "\r\n"])), 42);
    assert_eq!(content_length(&lines(&["content-LENGTH:  7 \r\n", "CONTENT-LENGTH: 9\r\n"])), 9);
    assert_eq!(content_length(&lines(&["Content-Length: 5\r\n", "\r\n", "Content-Length: 8\r\n"])), 5);
    assert_eq!(content_length(&lines(&["Content-Length: lots\r\n"])), 0);
    assert_eq!(content_length(&lines(&["Content-Length: 3\r\n", "Content-Length: -1\r\n"])), 0);
    assert_eq!(content_length(&lines(&["X-Content-Length: 4\r\n"])), 0);
    assert_eq!(content_length(&lines(&[])), 0);
}

#[test]
fn response_heads_carry_status_type_and_length() {
    assert_eq!(
        response_head(200, "application/json; charset=utf-8", 12),
        "HTTP/1.1 200 OK\r\nContent-Type: application/json; charset=utf-8\r\nContent-Length: 12\r\nConnection: close\r\n\r\n"
    );
    assert!(response_head(404, "text/plain; charset=utf-8", 10).starts_with("HTTP/1.1 404 Not Found\r\n"));
    assert!(response_head(204, "image/x-icon", 0).starts_with("HTTP/1.1 204 No Content\r\n"));
}

#[test]
fn event_stream_sends_each_revision_once() {
    let (frame, last) = event_frame(None, 3, "{\"revision\":3}");
    assert_eq!(frame, "data: {\"revision\":3}\n\n");
    assert_eq!(last, Some(3));
    assert_eq!(event_frame(last, 3, "ignored"), (": keep-alive\n\n".to_string(), Some(3)));
    assert_eq!(event_frame(Some(3), 4, "x").1, Some(4));
}
